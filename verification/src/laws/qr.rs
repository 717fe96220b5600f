//! What holds of the picture of a code.

use crate::qr::{code_modules, code_width, fits, has_code, lemma_pixel, qr_symbol, raster};
use crate::qr::{short_enough, EcLevel};
use vstd::arithmetic::div_mod::lemma_fundamental_div_mod_converse;
use vstd::prelude::*;
use vstd::utf8::encode_utf8;

verus! {

/// Every pixel of the square that stands for a module is opaque and has the colour of the module:
/// white where it counts as dark, black where it counts as light.
pub proof fn law_module_is_a_square(
    modules: Seq<bool>,
    width: nat,
    module_px: u32,
    col: int,
    row: int,
    dx: int,
    dy: int,
    k: int,
)
    requires
        modules.len() == width * width,
        0 <= col < width,
        0 <= row < width,
        0 <= dx < module_px,
        0 <= dy < module_px,
        0 <= k < 4,
    ensures
        ({
            let size = width * module_px;
            let x = col * module_px + dx;
            let y = row * module_px + dy;
            let i = (y * size + x) * 4 + k;
            &&& 0 <= i < raster(modules, width, module_px).len()
            &&& raster(modules, width, module_px)[i] == if k == 3 || modules[row * width + col] {
                255u8
            } else {
                0u8
            }
        }),
{
    let px = module_px as int;
    let size = width * module_px;
    let x = col * px + dx;
    let y = row * px + dy;
    let w = width as int;
    assert(0 <= x < w * px) by (nonlinear_arith)
        requires
            0 <= col < w,
            0 <= dx < px,
            x == col * px + dx,
    ;
    assert(0 <= y < w * px) by (nonlinear_arith)
        requires
            0 <= row < w,
            0 <= dy < px,
            y == row * px + dy,
    ;
    lemma_fundamental_div_mod_converse(x, px, col, dx);
    lemma_fundamental_div_mod_converse(y, px, row, dy);
    lemma_pixel(x, y, size as int, k);
    let s = size as int;
    assert(0 <= (y * s + x) * 4 + k < s * s * 4) by (nonlinear_arith)
        requires
            0 <= x < s,
            0 <= y < s,
            0 <= k < 4,
    ;
}

/// A picture has as many pixels on each side as its modules have, four bytes for each, and can be
/// drawn where their number fits 32 bits.
pub proof fn law_picture_is_a_square(modules: Seq<bool>, width: nat, module_px: u32, size: nat)
    requires
        size == width * module_px,
    ensures
        raster(modules, width, module_px).len() == size * size * 4,
        fits(width, module_px) == (size * size * 4 <= 0xffff_ffff),
{
    assert(0 <= size * size * 4) by (nonlinear_arith)
        requires
            0 <= size,
    ;
}

/// The code that is drawn for a content is the one that its bytes have at the level `M`, and one is
/// drawn for up to 180 bytes.
pub proof fn law_code_is_that_of_the_content(content: Seq<char>, width: nat, modules: Seq<bool>)
    ensures
        short_enough(content) == (encode_utf8(content).len() <= 180),
        qr_symbol(encode_utf8(content), EcLevel::M) == Some((width, modules)) ==> has_code(content)
            && code_width(content) == width && code_modules(content) == modules,
        qr_symbol(encode_utf8(content), EcLevel::M) is None ==> !has_code(content),
{
}

}
