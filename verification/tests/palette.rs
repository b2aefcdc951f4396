use gorillas::palette::{
    default_ega_register, ega_component, ega_palette_rgb, palette_attribute_rgb, palette_register,
};

#[test]
fn palette_keeps_standard_window_and_dark_gray_attributes() {
    assert_eq!(palette_attribute_rgb(14), [0xFF, 0xFF, 0x55]);
    assert_eq!(palette_attribute_rgb(8), [0x55, 0x55, 0x55]);
}

#[test]
fn palette_applies_basic_register_remaps() {
    assert_eq!(palette_attribute_rgb(0), [0x00, 0x00, 0xAA]);
    assert_eq!(palette_attribute_rgb(5), [0xAA, 0xAA, 0xAA]);
    assert_eq!(palette_attribute_rgb(6), [0xAA, 0x00, 0x00]);
    assert_eq!(palette_attribute_rgb(7), [0x00, 0xAA, 0xAA]);
}

#[test]
fn palette_register_remaps_only_listed_attributes() {
    assert_eq!(palette_register(0), 1);
    assert_eq!(palette_register(1), 46);
    assert_eq!(palette_register(2), 44);
    assert_eq!(palette_register(3), 54);
    assert_eq!(palette_register(9), 63);
    assert_eq!(palette_register(4), default_ega_register(4));
    assert_eq!(palette_register(14), 62);
    assert_eq!(palette_register(200), 0);
}

#[test]
fn default_registers_follow_the_ega_reset_table() {
    assert_eq!(default_ega_register(6), 20);
    assert_eq!(default_ega_register(8), 56);
    assert_eq!(default_ega_register(15), 63);
    assert_eq!(default_ega_register(16), 0);
}

#[test]
fn ega_component_weights_primary_and_secondary_bits() {
    assert_eq!(ega_component(0b000000, 2, 5), 0x00);
    assert_eq!(ega_component(0b100000, 2, 5), 0x55);
    assert_eq!(ega_component(0b000100, 2, 5), 0xAA);
    assert_eq!(ega_component(0b100100, 2, 5), 0xFF);
}

#[test]
fn ega_register_decodes_to_rgb_channels() {
    assert_eq!(ega_palette_rgb(63), [0xFF, 0xFF, 0xFF]);
    assert_eq!(ega_palette_rgb(20), [0xAA, 0x55, 0x00]);
    assert_eq!(palette_attribute_rgb(1), [0xFF, 0xAA, 0x55]);
}
