//! EGA palette: colour attributes, the `PALETTE` remaps that the game
//! installs, and the decoding of 6-bit EGA register values into RGB bytes.

use vstd::prelude::*;

verus! {

/// Sky behind everything.
pub const BACKGROUND_ATTR: u8 = 0;
/// Gorillas and bananas.
pub const OBJECT_ATTR: u8 = 1;
/// Explosions and the wind arrow.
pub const EXPLOSION_ATTR: u8 = 2;
/// The sun.
pub const SUN_ATTR: u8 = 3;
/// An unlit building window.
pub const DARK_WINDOW_ATTR: u8 = 8;
/// A lit building window.
pub const LIT_WINDOW_ATTR: u8 = 14;
/// On-screen text.
pub const HUD_TEXT_ATTR: u8 = 15;

/// The register that an attribute holds on a freshly reset EGA card.
pub open spec fn spec_default_ega_register(attribute: u8) -> u8 {
    if attribute <= 5 || attribute == 7 {
        attribute
    } else if attribute == 6 {
        20
    } else if 8 <= attribute <= 15 {
        (attribute + 48) as u8
    } else {
        0
    }
}

/// The register of an attribute once the game's `PALETTE` statements ran:
/// `0,1` `1,46` `2,44` `3,54` `5,7` `6,4` `7,3` `9,63`; every other attribute
/// keeps its default register.
pub open spec fn spec_palette_register(attribute: u8) -> u8 {
    match attribute {
        0 => 1,
        1 => 46,
        2 => 44,
        3 => 54,
        5 => 7,
        6 => 4,
        7 => 3,
        9 => 63,
        _ => spec_default_ega_register(attribute),
    }
}

/// Bit `k` of `value`.
pub open spec fn bit(value: u8, k: u8) -> u8 {
    (value >> k) & 1
}

/// One 8-bit colour channel of an EGA register: the primary bit weighs two
/// thirds of full intensity and the secondary bit one third.
pub open spec fn spec_ega_component(value: u8, primary_bit: u8, secondary_bit: u8) -> u8 {
    (0x55 * (2 * bit(value, primary_bit) + bit(value, secondary_bit))) as u8
}

/// Red, green and blue of an EGA register value (`rgbRGB` bit layout).
pub open spec fn spec_ega_palette_rgb(value: u8) -> [u8; 3] {
    [
        spec_ega_component(value, 2, 5),
        spec_ega_component(value, 1, 4),
        spec_ega_component(value, 0, 3),
    ]
}

/// The RGB colour that an attribute shows on screen.
pub open spec fn spec_palette_attribute_rgb(attribute: u8) -> [u8; 3] {
    spec_ega_palette_rgb(spec_palette_register(attribute))
}

/// One of the four intensities an EGA channel can take.
pub open spec fn is_ega_level(c: u8) -> bool {
    c == 0x00 || c == 0x55 || c == 0xAA || c == 0xFF
}

/// The register that `attribute` holds on a freshly reset EGA card.
pub fn default_ega_register(attribute: u8) -> (register: u8)
    ensures
        register == spec_default_ega_register(attribute),
{
    match attribute {
        0 => 0,
        1 => 1,
        2 => 2,
        3 => 3,
        4 => 4,
        5 => 5,
        6 => 20,
        7 => 7,
        8 => 56,
        9 => 57,
        10 => 58,
        11 => 59,
        12 => 60,
        13 => 61,
        14 => 62,
        15 => 63,
        _ => 0,
    }
}

/// The register of `attribute` under the game's palette remaps.
pub fn palette_register(attribute: u8) -> (register: u8)
    ensures
        register == spec_palette_register(attribute),
{
    match attribute {
        0 => 1,
        1 => 46,
        2 => 44,
        3 => 54,
        5 => 7,
        6 => 4,
        7 => 3,
        9 => 63,
        _ => default_ega_register(attribute),
    }
}

/// One channel of an EGA register value, from its primary and secondary bit.
pub fn ega_component(value: u8, primary_bit: u8, secondary_bit: u8) -> (channel: u8)
    requires
        primary_bit < 8,
        secondary_bit < 8,
    ensures
        channel == spec_ega_component(value, primary_bit, secondary_bit),
        is_ega_level(channel),
{
    let primary = (value >> primary_bit) & 1;
    let secondary = (value >> secondary_bit) & 1;
    assert(primary <= 1 && secondary <= 1) by (bit_vector)
        requires
            primary == (value >> primary_bit) & 1,
            secondary == (value >> secondary_bit) & 1,
    ;
    match primary * 2 + secondary {
        0 => 0x00,
        1 => 0x55,
        2 => 0xAA,
        _ => 0xFF,
    }
}

/// RGB bytes of an EGA register value.
pub fn ega_palette_rgb(value: u8) -> (rgb: [u8; 3])
    ensures
        rgb == spec_ega_palette_rgb(value),
{
    [ega_component(value, 2, 5), ega_component(value, 1, 4), ega_component(value, 0, 3)]
}

/// RGB bytes that a colour attribute shows under the game's palette.
pub fn palette_attribute_rgb(attribute: u8) -> (rgb: [u8; 3])
    ensures
        rgb == spec_palette_attribute_rgb(attribute),
{
    ega_palette_rgb(palette_register(attribute))
}

/// Every channel of every attribute's colour is one of the four EGA levels.
pub proof fn lemma_palette_channels_are_ega_levels(attribute: u8)
    ensures
        is_ega_level(spec_palette_attribute_rgb(attribute)[0]),
        is_ega_level(spec_palette_attribute_rgb(attribute)[1]),
        is_ega_level(spec_palette_attribute_rgb(attribute)[2]),
{
    let v = spec_palette_register(attribute);
    assert forall|k: u8| k < 8 implies #[trigger] bit(v, k) <= 1 by {
        assert((v >> k) & 1 <= 1) by (bit_vector);
    }
    assert(bit(v, 2) <= 1 && bit(v, 5) <= 1 && bit(v, 1) <= 1 && bit(v, 4) <= 1);
    assert(bit(v, 0) <= 1 && bit(v, 3) <= 1);
}

/// Attributes outside the remapped set `{0, 1, 2, 3, 5, 6, 7, 9}` show their
/// default EGA colour.
pub proof fn lemma_unmapped_attributes_keep_default(attribute: u8)
    requires
        attribute != 0 && attribute != 1 && attribute != 2 && attribute != 3,
        attribute != 5 && attribute != 6 && attribute != 7 && attribute != 9,
    ensures
        spec_palette_attribute_rgb(attribute) == spec_ega_palette_rgb(
            spec_default_ega_register(attribute),
        ),
{
}

} // verus!
