//! Rendering configuration and the shared pieces of the pipeline: hex colors,
//! geometry planning and gradient evaluation.

use vstd::prelude::*;
use vstd::string::*;
use vstd::arithmetic::div_mod::{
    lemma_div_is_ordered, lemma_div_multiples_vanish, lemma_fundamental_div_mod,
    lemma_mod_multiples_basic,
};
use vstd::arithmetic::mul::lemma_mul_inequality;
use crate::cli::ErrorCorrectionLevel;
use crate::error::QrError;
use crate::textfmt::{push_hex_byte, spec_hex_byte};

pub use crate::raster::{render_to_base64, render_to_png_bytes};
pub use crate::terminal::render_to_terminal;
pub use crate::vector::render_to_svg;

verus! {

/// An RGB color with 8-bit channels, parsed from hex text.
#[derive(Clone, Copy, Debug, PartialEq, Eq, Structural)]
pub struct Color {
    pub r: u8,
    pub g: u8,
    pub b: u8,
}

/// Whether `c` is an ASCII hexadecimal digit (either case).
pub open spec fn spec_is_hex_digit(c: char) -> bool {
    (48 <= c as u32 && c as u32 <= 57) || (97 <= c as u32 && c as u32 <= 102) || (65 <= c as u32
        && c as u32 <= 70)
}

/// The value of an ASCII hexadecimal digit.
pub open spec fn spec_hex_val(c: char) -> int {
    if 48 <= c as u32 && c as u32 <= 57 {
        c as u32 - 48
    } else if 97 <= c as u32 && c as u32 <= 102 {
        c as u32 - 87
    } else {
        c as u32 - 55
    }
}

/// Hex color text with at most one leading `#` removed.
pub open spec fn spec_strip_hash(s: Seq<char>) -> Seq<char> {
    if s.len() >= 1 && s[0] == '#' {
        s.skip(1)
    } else {
        s
    }
}

/// The color denoted by hex text: 3 digits expand each nibble by 17, 6 digits
/// are read as channel pairs; anything else is no color.
pub open spec fn spec_parse_color(s: Seq<char>) -> Option<Color> {
    let t = spec_strip_hash(s);
    if t.len() == 3 && (forall|i: int| 0 <= i < 3 ==> spec_is_hex_digit(#[trigger] t[i])) {
        Some(
            Color {
                r: (17 * spec_hex_val(t[0])) as u8,
                g: (17 * spec_hex_val(t[1])) as u8,
                b: (17 * spec_hex_val(t[2])) as u8,
            },
        )
    } else if t.len() == 6 && (forall|i: int| 0 <= i < 6 ==> spec_is_hex_digit(#[trigger] t[i])) {
        Some(
            Color {
                r: (16 * spec_hex_val(t[0]) + spec_hex_val(t[1])) as u8,
                g: (16 * spec_hex_val(t[2]) + spec_hex_val(t[3])) as u8,
                b: (16 * spec_hex_val(t[4]) + spec_hex_val(t[5])) as u8,
            },
        )
    } else {
        None
    }
}

/// The lower-case `#rrggbb` text of a color.
pub open spec fn spec_hex_string(c: Color) -> Seq<char> {
    seq!['#'] + spec_hex_byte(c.r as int) + spec_hex_byte(c.g as int) + spec_hex_byte(c.b as int)
}

/// The hexadecimal value of `c`, or nothing when `c` is no hex digit.
fn hex_val(c: char) -> (r: Option<u8>)
    ensures
        r is Some <==> spec_is_hex_digit(c),
        r is Some ==> r.unwrap() as int == spec_hex_val(c),
{
    let v = c as u32;
    if 48 <= v && v <= 57 {
        Some((v - 48) as u8)
    } else if 97 <= v && v <= 102 {
        Some((v - 87) as u8)
    } else if 65 <= v && v <= 70 {
        Some((v - 55) as u8)
    } else {
        None
    }
}

impl Color {
    /// Parses `#RGB`, `#RRGGBB`, `RGB` or `RRGGBB` hex text into a color.
    /// Exactly the texts accepted by `spec_parse_color` yield a color; any
    /// other length or character yields `InvalidColor` carrying the text with
    /// the `#` removed.
    pub fn from_hex(hex: &str) -> (r: Result<Color, QrError>)
        ensures
            match spec_parse_color(hex@) {
                Some(c) => r == Ok::<Color, QrError>(c),
                None => r matches Err(QrError::InvalidColor(t)) && t@ == spec_strip_hash(hex@),
            },
    {
        let n = hex.unicode_len();
        let off: usize = if n >= 1 && hex.get_char(0) == '#' {
            1
        } else {
            0
        };
        proof {
            assert(spec_strip_hash(hex@) =~= hex@.skip(off as int));
        }
        let len = n - off;
        if len == 3 {
            let d0 = hex_val(hex.get_char(off));
            let d1 = hex_val(hex.get_char(off + 1));
            let d2 = hex_val(hex.get_char(off + 2));
            if let (Some(v0), Some(v1), Some(v2)) = (d0, d1, d2) {
                return Ok(Color { r: 17 * v0, g: 17 * v1, b: 17 * v2 });
            }
        } else if len == 6 {
            let d0 = hex_val(hex.get_char(off));
            let d1 = hex_val(hex.get_char(off + 1));
            let d2 = hex_val(hex.get_char(off + 2));
            let d3 = hex_val(hex.get_char(off + 3));
            let d4 = hex_val(hex.get_char(off + 4));
            let d5 = hex_val(hex.get_char(off + 5));
            if let (Some(v0), Some(v1), Some(v2), Some(v3), Some(v4), Some(v5)) = (
                d0,
                d1,
                d2,
                d3,
                d4,
                d5,
            ) {
                return Ok(
                    Color { r: 16 * v0 + v1, g: 16 * v2 + v3, b: 16 * v4 + v5 },
                );
            }
        }
        let stripped = hex.substring_char(off, n).to_owned();
        Err(QrError::InvalidColor(stripped))
    }

    /// The `#rrggbb` text of this color, lower-case and zero-padded.
    pub fn to_hex_string(&self) -> (s: String)
        ensures
            s@ == spec_hex_string(*self),
    {
        let mut s = String::new();
        s.push('#');
        push_hex_byte(&mut s, self.r);
        push_hex_byte(&mut s, self.g);
        push_hex_byte(&mut s, self.b);
        proof {
            assert(s@ =~= spec_hex_string(*self));
        }
        s
    }
}

/// Hex digits printed by this library read back as their own value.
proof fn lemma_hex_char_val(d: int)
    requires
        0 <= d < 16,
    ensures
        spec_is_hex_digit(crate::textfmt::spec_hex_char(d)),
        spec_hex_val(crate::textfmt::spec_hex_char(d)) == d,
{
}

/// Law: printing a color as `#rrggbb` and parsing it back yields the same
/// channels, for every color.
pub proof fn lemma_color_hex_round_trip(c: Color)
    ensures
        spec_parse_color(spec_hex_string(c)) == Some(c),
{
    let s = spec_hex_string(c);
    let t = spec_strip_hash(s);
    assert(t =~= spec_hex_byte(c.r as int) + spec_hex_byte(c.g as int) + spec_hex_byte(
        c.b as int,
    ));
    lemma_hex_char_val(c.r as int / 16);
    lemma_hex_char_val(c.r as int % 16);
    lemma_hex_char_val(c.g as int / 16);
    lemma_hex_char_val(c.g as int % 16);
    lemma_hex_char_val(c.b as int / 16);
    lemma_hex_char_val(c.b as int % 16);
    assert(t.len() == 6);
    assert(spec_hex_val(t[0]) == c.r as int / 16 && spec_hex_val(t[1]) == c.r as int % 16);
    assert(spec_hex_val(t[2]) == c.g as int / 16 && spec_hex_val(t[3]) == c.g as int % 16);
    assert(spec_hex_val(t[4]) == c.b as int / 16 && spec_hex_val(t[5]) == c.b as int % 16);
}

/// Rendering options, constructed once per invocation and passed by reference
/// into every emitter. The logo, when present, is the raw bytes of an encoded
/// image file; reading those bytes from disk is the caller's concern.
pub struct RenderConfig {
    pub size: u32,
    pub quiet_zone: u32,
    pub fg_color: Color,
    pub bg_color: Color,
    pub gradient_color: Option<Color>,
    pub logo: Option<Vec<u8>>,
    pub ec_level: ErrorCorrectionLevel,
}

impl Default for RenderConfig {
    /// 512 pixels, quiet zone of 2 modules, black on white, no gradient, no
    /// logo, medium error correction.
    fn default() -> (c: Self)
        ensures
            c.size == 512,
            c.quiet_zone == 2,
            c.fg_color == (Color { r: 0, g: 0, b: 0 }),
            c.bg_color == (Color { r: 255, g: 255, b: 255 }),
            c.gradient_color is None,
            c.logo is None,
            c.ec_level == ErrorCorrectionLevel::M,
    {
        RenderConfig {
            size: 512,
            quiet_zone: 2,
            fg_color: Color { r: 0, g: 0, b: 0 },
            bg_color: Color { r: 255, g: 255, b: 255 },
            gradient_color: None,
            logo: None,
            ec_level: ErrorCorrectionLevel::M,
        }
    }
}

/// Geometry derived from the desired size, module count and quiet zone.
#[derive(Clone, Copy, Debug, PartialEq, Eq, Structural)]
pub struct Layout {
    /// Pixels per module.
    pub module_size: u32,
    /// Modules per side including the quiet zone on both sides.
    pub total_modules: u32,
    /// Final canvas side in pixels: `module_size * total_modules`.
    pub actual_size: u32,
    /// Pixel offset of the symbol: `quiet_zone * module_size`.
    pub quiet_offset: u32,
}

/// Modules per side including the quiet zone on both sides.
pub open spec fn spec_total_modules(n: int, q: int) -> int {
    n + 2 * q
}

/// Pixels per module: the desired size divided by the total module count,
/// rounded down.
pub open spec fn spec_module_size(n: int, q: int, s: int) -> int {
    s / spec_total_modules(n, q)
}

/// Computes the layout for a grid of `module_count` modules per side with a
/// quiet zone of `quiet_zone` modules inside a desired canvas of
/// `desired_size` pixels. Fails with a configuration error exactly when the
/// desired size is too small to give every module at least one pixel.
pub fn plan(module_count: usize, quiet_zone: u32, desired_size: u32) -> (r: Result<
    Layout,
    QrError,
>)
    requires
        1 <= module_count <= 0xFFFF_FFFF,
    ensures
        r is Ok <==> spec_module_size(module_count as int, quiet_zone as int, desired_size as int)
            >= 1,
        r matches Ok(l) ==> {
            &&& l.module_size as int == spec_module_size(
                module_count as int,
                quiet_zone as int,
                desired_size as int,
            )
            &&& l.total_modules as int == spec_total_modules(module_count as int, quiet_zone as int)
            &&& l.actual_size as int == l.module_size as int * l.total_modules as int
            &&& l.quiet_offset as int == quiet_zone as int * l.module_size as int
            &&& l.actual_size <= desired_size
            &&& l.module_size >= 1
            &&& l.actual_size as int % l.module_size as int == 0
            &&& l.actual_size >= l.total_modules >= module_count
        },
        r is Err ==> r matches Err(QrError::InvalidConfiguration(_)),
{
    let total: u64 = module_count as u64 + 2 * (quiet_zone as u64);
    let msize: u64 = (desired_size as u64) / total;
    if msize == 0 {
        return Err(
            QrError::InvalidConfiguration(
                String::from_str("desired size is too small for the module count and quiet zone"),
            ),
        );
    }
    proof {
        let s = desired_size as int;
        let t = total as int;
        lemma_fundamental_div_mod(s, t);
        // msize >= 1 gives t <= msize * t <= s
        lemma_mul_inequality(1, msize as int, t);
        assert(msize as int * t <= s) by {
            assert(s == t * (s / t) + s % t);
            assert(s % t >= 0);
        }
        lemma_mod_multiples_basic(total as int, msize as int);
        // quiet_zone <= total, so the offset fits below actual
        lemma_mul_inequality(quiet_zone as int, t, msize as int);
    }
    let actual: u64 = msize * total;
    let qoff: u64 = (quiet_zone as u64) * msize;
    Ok(
        Layout {
            module_size: msize as u32,
            total_modules: total as u32,
            actual_size: actual as u32,
            quiet_offset: qoff as u32,
        },
    )
}

/// One channel of the diagonal gradient at pixel `(x, y)`: the exact blend
/// `fg + (end - fg) * (x + y) / (2 * actual)` truncated to an integer,
/// written over a common denominator so the one division truncates the
/// blended value itself.
pub open spec fn spec_gradient_channel(fgc: int, endc: int, x: int, y: int, actual: int) -> int {
    (fgc * (2 * actual) + (endc - fgc) * (x + y)) / (2 * actual)
}

/// Inside the canvas the blended numerator stays between zero and
/// `255 * (2 * actual)`, so the blended channel stays within a byte.
proof fn lemma_gradient_bounds(fgc: int, endc: int, num: int, den: int)
    requires
        0 <= fgc <= 255,
        0 <= endc <= 255,
        0 <= num < den,
    ensures
        endc >= fgc ==> (endc - fgc) * num <= 255 * den,
        endc < fgc ==> (fgc - endc) * num <= fgc * den,
        0 <= fgc * den + (endc - fgc) * num <= 255 * den,
        (fgc * den + (endc - fgc) * num) / den <= 255,
        0 <= (fgc * den + (endc - fgc) * num) / den,
{
    assert(0 <= fgc * den + (endc - fgc) * num <= 255 * den && (endc >= fgc ==> (endc - fgc) * num
        <= 255 * den) && (endc < fgc ==> (fgc - endc) * num <= fgc * den)) by (nonlinear_arith)
        requires
            0 <= fgc <= 255,
            0 <= endc <= 255,
            0 <= num < den,
    ;
    lemma_div_is_ordered(fgc * den + (endc - fgc) * num, 255 * den, den);
    lemma_div_multiples_vanish(255, den);
    assert(255 * den == den * 255) by (nonlinear_arith);
    lemma_div_is_ordered(0, fgc * den + (endc - fgc) * num, den);
}

/// The draw color of pixel `(x, y)` when a gradient toward `end` is
/// configured.
fn gradient_channel(fgc: u8, endc: u8, x: u32, y: u32, actual: u32) -> (r: u8)
    requires
        actual >= 1,
        x < actual,
        y < actual,
    ensures
        r as int == spec_gradient_channel(fgc as int, endc as int, x as int, y as int, actual as int),
{
    let num: u64 = x as u64 + y as u64;
    let den: u64 = 2 * (actual as u64);
    proof {
        lemma_gradient_bounds(fgc as int, endc as int, num as int, den as int);
        lemma_mul_inequality(fgc as int, 255, den as int);
    }
    let base: u64 = (fgc as u64) * den;
    if endc >= fgc {
        let d: u64 = (endc - fgc) as u64;
        proof {
            lemma_mul_inequality(d as int, 255, num as int);
        }
        let q: u64 = (base + d * num) / den;
        q as u8
    } else {
        let d: u64 = (fgc - endc) as u64;
        proof {
            lemma_mul_inequality(d as int, 255, num as int);
            assert((endc as int - fgc as int) * (num as int) == -((d as int) * (num as int)))
                by (nonlinear_arith)
                requires
                    d as int == fgc as int - endc as int,
            ;
        }
        let q: u64 = (base - d * num) / den;
        q as u8
    }
}

/// The RGB draw color of pixel `(x, y)`: the gradient blend when an end color
/// is configured, the solid foreground otherwise.
pub open spec fn spec_draw_color(fg: Color, gradient: Option<Color>, x: int, y: int, actual: int) -> Color {
    match gradient {
        Some(end) => Color {
            r: spec_gradient_channel(fg.r as int, end.r as int, x, y, actual) as u8,
            g: spec_gradient_channel(fg.g as int, end.g as int, x, y, actual) as u8,
            b: spec_gradient_channel(fg.b as int, end.b as int, x, y, actual) as u8,
        },
        None => fg,
    }
}

/// Computes the draw color of a dark pixel. The solid case does no per-pixel
/// arithmetic at all.
pub fn draw_color(fg: Color, gradient: &Option<Color>, x: u32, y: u32, actual: u32) -> (c: Color)
    requires
        actual >= 1,
        x < actual,
        y < actual,
    ensures
        c == spec_draw_color(fg, *gradient, x as int, y as int, actual as int),
{
    match gradient {
        Some(end) => Color {
            r: gradient_channel(fg.r, end.r, x, y, actual),
            g: gradient_channel(fg.g, end.g, x, y, actual),
            b: gradient_channel(fg.b, end.b, x, y, actual),
        },
        None => fg,
    }
}

} // verus!
