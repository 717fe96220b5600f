//! Pairing codes as pictures.

use qrcode::types::QrError;
use vstd::arithmetic::div_mod::{lemma_fundamental_div_mod, lemma_fundamental_div_mod_converse};
use vstd::pervasive::unreached;
use vstd::prelude::*;
use vstd::utf8::encode_utf8;

verus! {

#[verifier::external_type_specification]
#[verifier::external_body]
pub struct ExQrError(qrcode::types::QrError);

/// How much of a code may be damaged before it becomes unreadable.
#[derive(Clone, Copy, Debug, PartialEq, Eq, Structural)]
pub enum EcLevel {
    L,
    M,
    Q,
    H,
}

/// The code that `qrcode` makes of `data`: its width in modules and, row by row, which modules are
/// dark; `None` where it makes none.
pub uninterp spec fn qr_symbol(data: Seq<u8>, level: EcLevel) -> Option<(nat, Seq<bool>)>;

/// The longest content, in bytes, of which a code is made.
///
/// `qrcode` chooses among eight maskings of a code by a penalty that it adds up in a `u16`. For a
/// large code the sum can exceed that, and a build that checks for overflow panics then. At the
/// level `M` this many bytes keep clear of it:
///
/// - They need at most version 12, which is 65 modules wide and holds 2320 bits. `qrcode` cuts the
///   data into segments. Two neighbours that it leaves apart hold four bytes or more and take less
///   than 20 bits on top of 8 for each byte, so they take at most 12.75 bits for each byte. One
///   segment can be left over, with 20 bits on top of 8 for each byte. That makes at most 2315
///   bits.
/// - At 65 modules a side the penalty is at most 65 * 63 for runs along rows and as much along
///   columns, 3 * 64 * 64 for blocks, 65 * 8 * 40 for patterns like a finder along rows and as
///   much along columns, and 100 for balance: 62178.
pub const MAX_CODE_BYTES: usize = 180;

/// `qrcode::QrCode::with_error_correction_level`, with the code taken apart by `width` and
/// `to_colors`: a function of the data and the level alone. A code is one of the versions 1 to 40,
/// so it is 21 to 177 modules wide, and it has as many rows as columns. Data on which the call
/// could panic is left out, see `MAX_CODE_BYTES`.
#[verifier::external_body]
fn encode_qr(data: &[u8], level: EcLevel) -> (r: Result<(usize, Vec<bool>), QrError>)
    requires
        level == EcLevel::M,
        data@.len() <= MAX_CODE_BYTES,
    ensures
        r is Ok <==> qr_symbol(data@, level) is Some,
        r matches Ok((width, modules)) ==> {
            &&& qr_symbol(data@, level) == Some((width as nat, modules@))
            &&& 21 <= width <= 177
            &&& modules@.len() == width * width
        },
{
    let level = match level {
        EcLevel::L => qrcode::EcLevel::L,
        EcLevel::M => qrcode::EcLevel::M,
        EcLevel::Q => qrcode::EcLevel::Q,
        EcLevel::H => qrcode::EcLevel::H,
    };
    let code = qrcode::QrCode::with_error_correction_level(data, level)?;
    let modules = code.to_colors().into_iter().map(|c| match c {
        qrcode::Color::Dark => true,
        qrcode::Color::Light => false,
    }).collect();
    Ok((code.width(), modules))
}

/// A square picture.
pub struct QrImage {
    /// The number of pixels on each side.
    pub size: u32,
    /// Red, green, blue and opacity of each pixel, row by row.
    pub pixels: Vec<u8>,
}

/// That the picture can be addressed with 32 bits.
pub open spec fn fits(width: nat, module_px: u32) -> bool {
    width * module_px * (width * module_px) * 4 <= u32::MAX
}

/// Whether the pixel in column `x` and row `y` lies in a dark module.
pub open spec fn dark_at(modules: Seq<bool>, width: nat, module_px: u32, x: int, y: int) -> bool {
    modules[(y / module_px as int) * width + x / module_px as int]
}

/// The bytes of the picture in which each module is a square of `module_px` by `module_px` pixels:
/// the modules of the code are white on a black ground, that is white where a module counts as
/// dark and black where it counts as light, all of it opaque.
pub open spec fn raster(modules: Seq<bool>, width: nat, module_px: u32) -> Seq<u8> {
    let size = width * module_px;
    Seq::new(
        (size * size * 4) as nat,
        |i: int|
            if i % 4 == 3 || dark_at(
                modules,
                width,
                module_px,
                (i / 4) % size,
                (i / 4) / size,
            ) {
                255
            } else {
                0
            },
    )
}

/// A pixel in a picture lies in one of its modules.
proof fn lemma_module_of(p: int, width: int, px: int)
    requires
        0 <= p < width * px,
        0 < px,
    ensures
        0 <= p / px < width,
{
    lemma_fundamental_div_mod(p, px);
    assert(p / px < width) by (nonlinear_arith)
        requires
            p == px * (p / px) + p % px,
            0 <= p % px,
            p < width * px,
            0 < px,
    ;
    assert(0 <= p / px) by (nonlinear_arith)
        requires
            0 <= p,
            0 < px,
    ;
}

/// Where the bytes of the pixel in column `x` and row `y` stand.
pub proof fn lemma_pixel(x: int, y: int, size: int, k: int)
    requires
        0 <= x < size,
        0 <= y,
        0 <= k < 4,
    ensures
        ({
            let i = (y * size + x) * 4 + k;
            &&& i / 4 == y * size + x
            &&& i % 4 == k
            &&& (i / 4) % size == x
            &&& (i / 4) / size == y
        }),
{
    let p = y * size + x;
    lemma_fundamental_div_mod_converse(p, size, y, x);
}

/// Draws the modules of a code, given row by row.
pub fn rasterize(modules: &Vec<bool>, width: u32, module_px: u32) -> (image: QrImage)
    requires
        modules@.len() == width * width,
        fits(width as nat, module_px),
    ensures
        image.size == width * module_px,
        image.pixels@ == raster(modules@, width as nat, module_px),
{
    let ghost side = width * module_px;
    assert(side <= side * side * 4) by (nonlinear_arith)
        requires
            0 <= side,
    ;
    let size: u32 = width * module_px;
    let ghost picture = raster(modules@, width as nat, module_px);
    let mut pixels: Vec<u8> = Vec::new();
    let mut y: u32 = 0;
    while y < size
        invariant
            0 <= y <= size,
            size == width * module_px,
            modules@.len() == width * width,
            fits(width as nat, module_px),
            picture == raster(modules@, width as nat, module_px),
            pixels@.len() == y * size * 4,
            picture.len() == size * size * 4,
            forall|i: int| 0 <= i < pixels@.len() ==> pixels@[i] == picture[i],
        decreases size - y,
    {
        let mut x: u32 = 0;
        while x < size
            invariant
                0 <= x <= size,
                0 <= y < size,
                size == width * module_px,
                modules@.len() == width * width,
                fits(width as nat, module_px),
                picture == raster(modules@, width as nat, module_px),
                pixels@.len() == (y * size + x) * 4,
                picture.len() == size * size * 4,
                forall|i: int| 0 <= i < pixels@.len() ==> pixels@[i] == picture[i],
            decreases size - x,
        {
            proof {
                if module_px == 0 {
                    assert(width * module_px == 0) by (nonlinear_arith)
                        requires
                            module_px == 0,
                    ;
                }
                lemma_module_of(x as int, width as int, module_px as int);
                lemma_module_of(y as int, width as int, module_px as int);
                let r = y as int / module_px as int;
                let c = x as int / module_px as int;
                assert(r * width + c < width * width) by (nonlinear_arith)
                    requires
                        0 <= r < width,
                        0 <= c < width,
                ;
                assert(0 <= r * width <= r * width + c) by (nonlinear_arith)
                    requires
                        0 <= r < width,
                        0 <= c,
                ;
            }
            let row: usize = (y / module_px) as usize;
            let col: usize = (x / module_px) as usize;
            assert(row * width + col < modules.len());
            let dark: bool = modules[row * width as usize + col];
            let shade: u8 = if dark {
                255
            } else {
                0
            };
            proof {
                lemma_pixel(x as int, y as int, size as int, 0);
                lemma_pixel(x as int, y as int, size as int, 1);
                lemma_pixel(x as int, y as int, size as int, 2);
                lemma_pixel(x as int, y as int, size as int, 3);
                let n = pixels@.len() as int;
                assert((y * size + x) * 4 + 3 < size * size * 4) by (nonlinear_arith)
                    requires
                        0 <= x < size,
                        0 <= y < size,
                ;
                assert(picture[n] == shade && picture[n + 1] == shade && picture[n + 2] == shade
                    && picture[n + 3] == 255);
            }
            pixels.push(shade);
            pixels.push(shade);
            pixels.push(shade);
            pixels.push(255);
            x = x + 1;
        }
        y = y + 1;
        assert(y * size == (y - 1) * size + size) by (nonlinear_arith);
    }
    assert(pixels@ =~= picture);
    QrImage { size, pixels }
}

/// `content` is not too long for a code.
pub open spec fn short_enough(content: Seq<char>) -> bool {
    encode_utf8(content).len() <= MAX_CODE_BYTES
}

/// There is a code for `content`.
pub open spec fn has_code(content: Seq<char>) -> bool {
    qr_symbol(encode_utf8(content), EcLevel::M) is Some
}

/// The width of the code for `content`, in modules.
pub open spec fn code_width(content: Seq<char>) -> nat {
    match qr_symbol(encode_utf8(content), EcLevel::M) {
        Some((width, _)) => width,
        None => 0,
    }
}

/// The modules of the code for `content`, row by row; a dark one is `true`.
pub open spec fn code_modules(content: Seq<char>) -> Seq<bool> {
    match qr_symbol(encode_utf8(content), EcLevel::M) {
        Some((_, modules)) => modules,
        None => Seq::empty(),
    }
}

/// The picture of the code for `content`, white modules on a black ground, with `module_px` pixels
/// to the side of a module.
pub fn qr_texture(content: &str, module_px: u32) -> (image: QrImage)
    requires
        short_enough(content@),
        has_code(content@),
        fits(code_width(content@), module_px),
    ensures
        image.size == code_width(content@) * module_px,
        image.pixels@ == raster(
            code_modules(content@),
            code_width(content@),
            module_px,
        ),
{
    match encode_qr(content.as_bytes(), EcLevel::M) {
        Ok((width, modules)) => rasterize(&modules, width as u32, module_px),
        Err(_) => unreached(),
    }
}

/// The picture of the code for `content`, if the content is not too long, there is such a code and
/// its picture is not too large.
pub fn try_qr_texture(content: &str, module_px: u32) -> (r: Option<QrImage>)
    ensures
        r is Some <==> short_enough(content@) && has_code(content@) && fits(
            code_width(content@),
            module_px,
        ),
        r matches Some(image) ==> {
            &&& image.size == code_width(content@) * module_px
            &&& image.pixels@ == raster(
                code_modules(content@),
                code_width(content@),
                module_px,
            )
        },
{
    let data: &[u8] = content.as_bytes();
    if data.len() > MAX_CODE_BYTES {
        return None;
    }
    match encode_qr(data, EcLevel::M) {
        Ok((width, _)) => {
            assert(width * module_px <= 177 * module_px) by (nonlinear_arith)
                requires
                    width <= 177,
            ;
            let size: u64 = width as u64 * module_px as u64;
            if size > 0x7fff {
                assert(size * size * 4 > u32::MAX) by (nonlinear_arith)
                    requires
                        size > 0x7fff,
                ;
                None
            } else {
                assert(size * size * 4 <= u32::MAX) by (nonlinear_arith)
                    requires
                        size <= 0x7fff,
                ;
                Some(qr_texture(content, module_px))
            }
        },
        Err(_) => None,
    }
}

}
