//! Presentation helpers that do not touch the GPU: the outcome of presenting
//! a frame, buffer row alignment, and the conversion of a read-back surface
//! into packed RGB bytes for a screenshot.

use vstd::prelude::*;
use vstd::arithmetic::div_mod::lemma_fundamental_div_mod_converse;

verus! {

/// Outcome of presenting a frame.
#[derive(Clone, Copy, Debug, PartialEq, Eq)]
pub enum RenderOutcome {
    /// The frame was submitted and presented.
    Presented,
    /// The surface is out of date and has to be configured again.
    NeedsReconfigure,
    /// The frame was skipped; nothing has to be done.
    Skipped,
}

/// `value` rounded up to the next multiple of `alignment`.
pub open spec fn spec_align_to(value: int, alignment: int) -> int {
    ((value + alignment - 1) / alignment) * alignment
}

/// Rounds `value` up to the next multiple of `alignment`.
pub fn align_to(value: u32, alignment: u32) -> (aligned: u32)
    requires
        alignment > 0,
        spec_align_to(value as int, alignment as int) <= u32::MAX,
    ensures
        aligned == spec_align_to(value as int, alignment as int),
        aligned >= value,
        aligned % alignment == 0,
        aligned - value < alignment,
{
    let q: u64 = (value / alignment) as u64;
    let r: u32 = value % alignment;
    let blocks: u64 = if r > 0 { q + 1 } else { q };
    proof {
        let v = value as int;
        let a = alignment as int;
        assert(v == a * q + r) by (nonlinear_arith)
            requires
                q == v / a,
                r == v % a,
                a > 0,
        ;
        assert(blocks == (v + a - 1) / a) by (nonlinear_arith)
            requires
                v == a * q + r,
                0 <= r < a,
                blocks == if r > 0 { q + 1 } else { q as int },
                a > 0,
        ;
        assert((blocks * a) % a == 0) by (nonlinear_arith)
            requires
                a > 0,
                blocks >= 0,
        ;
        assert(blocks * a >= v && blocks * a - v < a) by (nonlinear_arith)
            requires
                v == a * q + r,
                0 <= r < a,
                blocks == if r > 0 { q + 1 } else { q as int },
        ;
    }
    let aligned: u64 = blocks * (alignment as u64);
    aligned as u32
}

/// Byte order of the pixels of a read-back surface.
#[derive(Clone, Copy, Debug, PartialEq, Eq)]
pub enum PixelLayout {
    /// Blue, green, red, alpha.
    Bgra,
    /// Red, green, blue, alpha.
    Rgba,
    /// Any other format; it cannot be converted.
    Unsupported,
}

/// The surface format cannot be converted to RGB.
#[derive(Clone, Copy, Debug, PartialEq, Eq)]
pub struct UnsupportedLayout;

/// Geometry of a read-back buffer: image size, and the stride of its rows
/// with and without alignment padding.
#[derive(Clone, Copy, Debug, PartialEq, Eq)]
pub struct ReadbackShape {
    pub width: u32,
    pub height: u32,
    pub padded_bytes_per_row: u32,
    pub unpadded_bytes_per_row: u32,
}

/// Byte `c` (0 red, 1 green, 2 blue) of the RGB image at pixel `p` of row
/// `row`, taken from the read-back bytes.
pub open spec fn rgb_byte(data: Seq<u8>, shape: ReadbackShape, layout: PixelLayout, row: int, p: int, c: int) -> u8 {
    let base = row * shape.padded_bytes_per_row + 4 * p;
    if layout == PixelLayout::Bgra {
        data[base + 2 - c]
    } else {
        data[base + c]
    }
}

/// The packed RGB image: row by row, `unpadded_bytes_per_row / 4` pixels of
/// three bytes each.
pub open spec fn rgb_image(data: Seq<u8>, shape: ReadbackShape, layout: PixelLayout) -> Seq<u8> {
    let per_row = shape.unpadded_bytes_per_row / 4;
    Seq::new(
        (shape.height * per_row * 3) as nat,
        |k: int| rgb_byte(data, shape, layout, k / (per_row * 3), (k % (per_row * 3)) / 3, k % 3),
    )
}

/// Whether the read-back bytes hold every byte that the conversion reads:
/// all whole rows but the last, and the unpadded part of the last.
pub open spec fn readback_fits(shape: ReadbackShape, len: int) -> bool {
    shape.height == 0 || (shape.height - 1) * shape.padded_bytes_per_row
        + shape.unpadded_bytes_per_row <= len
}

/// Whether the conversion meets a pixel of a layout it cannot convert.
pub open spec fn meets_unsupported(shape: ReadbackShape, layout: PixelLayout) -> bool {
    layout == PixelLayout::Unsupported && shape.height > 0 && shape.unpadded_bytes_per_row >= 4
}

/// Strips the row padding from read-back surface bytes and reorders each
/// 4-byte pixel into packed RGB, dropping alpha. Bytes of a row beyond its
/// last whole pixel are ignored.
pub fn screenshot_rgb_bytes(shape: ReadbackShape, layout: PixelLayout, data: &[u8]) -> (rgb: Result<
    Vec<u8>,
    UnsupportedLayout,
>)
    requires
        readback_fits(shape, data@.len() as int),
    ensures
        meets_unsupported(shape, layout) ==> rgb == Err::<Vec<u8>, UnsupportedLayout>(
            UnsupportedLayout,
        ),
        !meets_unsupported(shape, layout) ==> (rgb matches Ok(v) && v@ == rgb_image(
            data@,
            shape,
            layout,
        )),
{
    let n = data.len();
    let per_row = (shape.unpadded_bytes_per_row / 4) as usize;
    let mut rgb: Vec<u8> = Vec::new();
    let ghost pr = per_row as int;
    let mut row: usize = 0;
    while row < shape.height as usize
        invariant
            per_row == shape.unpadded_bytes_per_row / 4,
            pr == per_row,
            n == data@.len(),
            readback_fits(shape, data@.len() as int),
            row <= shape.height,
            layout == PixelLayout::Unsupported && per_row > 0 ==> row == 0,
            rgb@.len() == row * pr * 3,
            forall|k: int|
                0 <= k < rgb@.len() ==> #[trigger] rgb@[k] == rgb_byte(
                    data@,
                    shape,
                    layout,
                    k / (pr * 3),
                    (k % (pr * 3)) / 3,
                    k % 3,
                ),
        decreases shape.height - row,
    {
        proof {
            assert(row * shape.padded_bytes_per_row <= (shape.height - 1)
                * shape.padded_bytes_per_row) by (nonlinear_arith)
                requires
                    row < shape.height,
            ;
        }
        let row_start = row * shape.padded_bytes_per_row as usize;
        let mut p: usize = 0;
        while p < per_row
            invariant
                per_row == shape.unpadded_bytes_per_row / 4,
                pr == per_row,
                row < shape.height,
                row_start == row * shape.padded_bytes_per_row,
                n == data@.len(),
                row_start + shape.unpadded_bytes_per_row <= data@.len(),
                p <= per_row,
                4 * per_row <= shape.unpadded_bytes_per_row,
                layout == PixelLayout::Unsupported ==> p == 0,
                rgb@.len() == row * pr * 3 + p * 3,
                forall|k: int|
                    0 <= k < rgb@.len() ==> #[trigger] rgb@[k] == rgb_byte(
                        data@,
                        shape,
                        layout,
                        k / (pr * 3),
                        (k % (pr * 3)) / 3,
                        k % 3,
                    ),
            decreases per_row - p,
        {
            let base = row_start + 4 * p;
            let (r, g, b) = match layout {
                PixelLayout::Bgra => (data[base + 2], data[base + 1], data[base]),
                PixelLayout::Rgba => (data[base], data[base + 1], data[base + 2]),
                PixelLayout::Unsupported => {
                    return Err(UnsupportedLayout);
                },
            };
            let ghost k0 = rgb@.len() as int;
            rgb.push(r);
            rgb.push(g);
            rgb.push(b);
            proof {
                lemma_rgb_index(row as int, p as int, pr, k0);
                assert(rgb@[k0] == rgb_byte(data@, shape, layout, (k0 + 0) / (pr * 3), ((k0 + 0) % (pr * 3)) / 3, (k0 + 0) % 3));
                assert(rgb@[k0 + 1] == rgb_byte(data@, shape, layout, (k0 + 1) / (pr * 3), ((k0 + 1) % (pr * 3)) / 3, (k0 + 1) % 3));
                assert(rgb@[k0 + 2] == rgb_byte(data@, shape, layout, (k0 + 2) / (pr * 3), ((k0 + 2) % (pr * 3)) / 3, (k0 + 2) % 3));
            }
            p = p + 1;
        }
        proof {
            assert(row * pr * 3 + pr * 3 == (row + 1) * pr * 3) by (nonlinear_arith);
        }
        row = row + 1;
    }
    proof {
        assert(rgb@ =~= rgb_image(data@, shape, layout));
    }
    Ok(rgb)
}

/// Position in the packed image of the three bytes of pixel `p` of row `row`.
proof fn lemma_rgb_index(row: int, p: int, pr: int, k0: int)
    requires
        k0 == row * pr * 3 + p * 3,
        0 <= p < pr,
        0 <= row,
    ensures
        k0 / (pr * 3) == row,
        (k0 % (pr * 3)) / 3 == p,
        k0 % 3 == 0,
        (k0 + 1) / (pr * 3) == row,
        ((k0 + 1) % (pr * 3)) / 3 == p,
        (k0 + 1) % 3 == 1,
        (k0 + 2) / (pr * 3) == row,
        ((k0 + 2) % (pr * 3)) / 3 == p,
        (k0 + 2) % 3 == 2,
{
    let d = pr * 3;
    assert(row * pr * 3 == row * d) by (nonlinear_arith)
        requires
            d == pr * 3,
    ;
    assert(row * pr * 3 == (row * pr) * 3) by (nonlinear_arith);
    let m = row * pr + p;
    assert(m * 3 == row * pr * 3 + p * 3) by (nonlinear_arith)
        requires
            m == row * pr + p,
    ;
    lemma_fundamental_div_mod_converse(k0, d, row, p * 3);
    lemma_fundamental_div_mod_converse(k0 + 1, d, row, p * 3 + 1);
    lemma_fundamental_div_mod_converse(k0 + 2, d, row, p * 3 + 2);
    lemma_fundamental_div_mod_converse(k0, 3, m, 0);
    lemma_fundamental_div_mod_converse(k0 + 1, 3, m, 1);
    lemma_fundamental_div_mod_converse(k0 + 2, 3, m, 2);
    lemma_fundamental_div_mod_converse(p * 3, 3, p, 0);
    lemma_fundamental_div_mod_converse(p * 3 + 1, 3, p, 1);
    lemma_fundamental_div_mod_converse(p * 3 + 2, 3, p, 2);
    assert((k0 + 0) / d == row && (k0 + 0) % d == p * 3 + 0 && (k0 + 0) % 3 == 0);
    assert((k0 + 1) / d == row && (k0 + 1) % d == p * 3 + 1 && (k0 + 1) % 3 == 1);
    assert((k0 + 2) / d == row && (k0 + 2) % d == p * 3 + 2 && (k0 + 2) % 3 == 2);
    assert((p * 3 + 0) / 3 == p);
    assert((p * 3 + 1) / 3 == p);
    assert((p * 3 + 2) / 3 == p);
}

} // verus!
