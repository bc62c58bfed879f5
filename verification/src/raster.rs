//! The raster emitter: builds the RGBA pixel buffer for a module grid,
//! composites an optional logo, and serializes to PNG and to a base64 data
//! URI.

use vstd::prelude::*;
use vstd::string::*;
use vstd::arithmetic::div_mod::{
    lemma_fundamental_div_mod_converse_div, lemma_fundamental_div_mod_converse_mod,
};
use crate::codecs::{
    base64_encode, base64_of, image_decode_rgba, image_resize_rgba, png_encode_rgba, png_of,
    resized_of, rgba_of,
};
use crate::compositor::{composite_logo, spec_composite};
use crate::error::QrError;
use crate::grid::{qr_encode, qr_encode_of, spec_ec_index, ModuleGrid};
use crate::renderer::{
    draw_color, plan, spec_draw_color, spec_module_size, spec_total_modules, Color, RenderConfig,
};
use crate::vector::spec_layout_ok;

verus! {

/// The module index that a pixel coordinate falls into along one axis, or
/// nothing when the coordinate lies in the quiet zone.
pub open spec fn spec_cell_index(p: int, m: int, qoff: int, w: int) -> Option<int> {
    if qoff <= p < qoff + w * m {
        Some((p - qoff) / m)
    } else {
        None
    }
}

/// The RGB color of the pixel at `(x, y)`: the draw color when the pixel
/// lies inside a dark module, the background otherwise.
pub open spec fn spec_pixel_rgb(
    cells: Seq<bool>,
    w: int,
    m: int,
    qoff: int,
    a: int,
    cfg: RenderConfig,
    x: int,
    y: int,
) -> Color {
    match (spec_cell_index(x, m, qoff, w), spec_cell_index(y, m, qoff, w)) {
        (Some(col), Some(row)) => if cells[row * w + col] {
            spec_draw_color(cfg.fg_color, cfg.gradient_color, x, y, a)
        } else {
            cfg.bg_color
        },
        _ => cfg.bg_color,
    }
}

/// Byte `i` of the row-major RGBA buffer: pixel `i / 4`, channel `i % 4`,
/// with a fully opaque alpha channel.
pub open spec fn spec_raster_byte(
    cells: Seq<bool>,
    w: int,
    m: int,
    qoff: int,
    a: int,
    cfg: RenderConfig,
    i: int,
) -> u8 {
    let p = i / 4;
    let k = i % 4;
    if k == 3 {
        255
    } else {
        let c = spec_pixel_rgb(cells, w, m, qoff, a, cfg, p % a, p / a);
        if k == 0 {
            c.r
        } else if k == 1 {
            c.g
        } else {
            c.b
        }
    }
}

/// The full RGBA buffer of an `a` by `a` canvas.
pub open spec fn spec_raster(
    cells: Seq<bool>,
    w: int,
    m: int,
    qoff: int,
    a: int,
    cfg: RenderConfig,
) -> Seq<u8> {
    Seq::new((4 * a * a) as nat, |i: int| spec_raster_byte(cells, w, m, qoff, a, cfg, i))
}

/// Splitting a byte index into its pixel and channel, and a pixel index into
/// its coordinates.
proof fn lemma_pixel_indices(p: int, k: int, a: int, x: int, y: int)
    requires
        0 <= k < 4,
        p == y * a + x,
        0 <= x < a,
        0 <= y,
    ensures
        (4 * p + k) / 4 == p,
        (4 * p + k) % 4 == k,
        p % a == x,
        p / a == y,
{
    assert(4 * p + k == p * 4 + k) by (nonlinear_arith);
    lemma_fundamental_div_mod_converse_div(4 * p + k, 4, p, k);
    lemma_fundamental_div_mod_converse_mod(4 * p + k, 4, p, k);
    lemma_fundamental_div_mod_converse_div(p, a, y, x);
    lemma_fundamental_div_mod_converse_mod(p, a, y, x);
}

/// Builds the RGBA pixel buffer: background everywhere, the draw color over
/// every dark module, opaque alpha.
#[verifier::rlimit(100)]
fn build_pixel_buffer(grid: &ModuleGrid, m32: u32, qoff32: u32, a: u32, config: &RenderConfig) -> (buf:
    Vec<u8>)
    requires
        grid.wf(),
        m32 >= 1,
        a >= 1,
    ensures
        buf@ == spec_raster(
            grid.cells@,
            grid.width as int,
            m32 as int,
            qoff32 as int,
            a as int,
            *config,
        ),
{
    let w = grid.width;
    let m: u64 = m32 as u64;
    let qoff: u64 = qoff32 as u64;
    proof {
        assert((w as int) * (m as int) <= 177 * 0xFFFF_FFFF) by (nonlinear_arith)
            requires
                0 <= (w as int) <= 177,
                0 <= (m as int) <= 0xFFFF_FFFF,
        ;
    }
    let bound: u64 = qoff + (w as u64) * m;
    let ghost cells = grid.cells@;
    let ghost spec_buf = spec_raster(cells, w as int, m as int, qoff as int, a as int, *config);
    let mut buf: Vec<u8> = Vec::new();
    let mut y: u32 = 0;
    proof {
        assert(4 * (y as int) * (a as int) == 0) by (nonlinear_arith)
            requires
                y == 0,
        ;
    }
    while y < a
        invariant
            grid.wf(),
            w == grid.width,
            cells == grid.cells@,
            spec_buf == spec_raster(cells, w as int, m as int, qoff as int, a as int, *config),
            m == m32 as int,
            qoff == qoff32 as int,
            1 <= m <= 0xFFFF_FFFFu64,
            qoff <= 0xFFFF_FFFFu64,
            bound == qoff + (w as int) * (m as int),
            a >= 1,
            y <= a,
            buf@.len() == 4 * (y as int) * (a as int),
            forall|j: int| 0 <= j < buf@.len() ==> buf@[j] == spec_buf[j],
        decreases a - y,
    {
        let mut x: u32 = 0;
        while x < a
            invariant
                grid.wf(),
                w == grid.width,
                cells == grid.cells@,
                spec_buf == spec_raster(cells, w as int, m as int, qoff as int, a as int, *config),
                m == m32 as int,
                qoff == qoff32 as int,
                1 <= m <= 0xFFFF_FFFFu64,
                qoff <= 0xFFFF_FFFFu64,
                bound == qoff + (w as int) * (m as int),
                a >= 1,
                y < a,
                x <= a,
                buf@.len() == 4 * (y as int) * (a as int) + 4 * (x as int),
                forall|j: int| 0 <= j < buf@.len() ==> buf@[j] == spec_buf[j],
            decreases a - x,
        {
            let dark: bool = if (x as u64) >= qoff && (x as u64) < bound && (y as u64) >= qoff
                && (y as u64) < bound {
                let col_u = ((x as u64) - qoff) / m;
                let row_u = ((y as u64) - qoff) / m;
                proof {
                    assert(col_u < w && row_u < w) by {
                        assert(((x as int) - (qoff as int)) / (m as int) < w as int)
                            by (nonlinear_arith)
                            requires
                                0 <= (x as int) - (qoff as int),
                                (x as int) - (qoff as int) < (w as int) * (m as int),
                                (m as int) >= 1,
                        ;
                        assert(((y as int) - (qoff as int)) / (m as int) < w as int)
                            by (nonlinear_arith)
                            requires
                                0 <= (y as int) - (qoff as int),
                                (y as int) - (qoff as int) < (w as int) * (m as int),
                                (m as int) >= 1,
                        ;
                    }
                }
                grid.is_dark(row_u as usize, col_u as usize)
            } else {
                false
            };
            let c: Color = if dark {
                draw_color(config.fg_color, &config.gradient_color, x, y, a)
            } else {
                config.bg_color
            };
            proof {
                assert(c == spec_pixel_rgb(
                    cells,
                    w as int,
                    m as int,
                    qoff as int,
                    a as int,
                    *config,
                    x as int,
                    y as int,
                ));
            }
            let ghost p = (y as int) * (a as int) + (x as int);
            proof {
                assert(buf@.len() == 4 * p) by (nonlinear_arith)
                    requires
                        buf@.len() == 4 * (y as int) * (a as int) + 4 * (x as int),
                        p == (y as int) * (a as int) + (x as int),
                ;
                lemma_pixel_indices(p, 0, a as int, x as int, y as int);
                lemma_pixel_indices(p, 1, a as int, x as int, y as int);
                lemma_pixel_indices(p, 2, a as int, x as int, y as int);
                lemma_pixel_indices(p, 3, a as int, x as int, y as int);
                assert(0 <= p && 4 * p + 3 < 4 * (a as int) * (a as int)) by (nonlinear_arith)
                    requires
                        p == (y as int) * (a as int) + (x as int),
                        0 <= (x as int) < (a as int),
                        0 <= (y as int) < (a as int),
                ;
            }
            buf.push(c.r);
            buf.push(c.g);
            buf.push(c.b);
            buf.push(255);
            x = x + 1;
        }
        proof {
            assert(4 * (y as int) * (a as int) + 4 * (a as int) == 4 * ((y as int) + 1) * (
            a as int)) by (nonlinear_arith);
        }
        y = y + 1;
    }
    proof {
        assert(buf@.len() == spec_buf.len()) by {
            assert(4 * (a as int) * (a as int) == (4 * (a as int) * (a as int)) as nat)
                by (nonlinear_arith)
                requires
                    (a as int) >= 1,
            ;
        }
        assert(buf@ =~= spec_buf);
    }
    buf
}

/// The RGBA buffer with the logo composited when one is configured: the logo
/// bytes decoded, resized to a fifth of the canvas and alpha-blended at the
/// center.
pub open spec fn spec_raster_with_logo(cells: Seq<bool>, w: int, cfg: RenderConfig) -> Seq<u8> {
    let q = cfg.quiet_zone as int;
    let m = spec_module_size(w, q, cfg.size as int);
    let t = spec_total_modules(w, q);
    let a = m * t;
    let qoff = q * m;
    let base = spec_raster(cells, w, m, qoff, a, cfg);
    match cfg.logo {
        Some(bytes) => match rgba_of(bytes@) {
            Some(lg) => {
                let side = a / 5;
                spec_composite(
                    base,
                    a,
                    resized_of(lg.2, lg.0 as int, lg.1 as int, side),
                    side,
                    (a - side) / 2,
                )
            },
            None => base,
        },
        None => base,
    }
}

/// The PNG bytes of the finished canvas.
pub open spec fn spec_png_result(cells: Seq<bool>, w: int, cfg: RenderConfig) -> Seq<u8> {
    let q = cfg.quiet_zone as int;
    let m = spec_module_size(w, q, cfg.size as int);
    let a = m * spec_total_modules(w, q);
    png_of(spec_raster_with_logo(cells, w, cfg), a, a)
}

/// Renders the payload to PNG bytes. Fails exactly when the encoder rejects
/// the payload, when the desired size leaves no room for a module, or when a
/// configured logo cannot be decoded; success is owed on every other input.
pub fn render_to_png_bytes(data: &str, config: &RenderConfig) -> (r: Result<Vec<u8>, QrError>)
    ensures
        ({
            let enc = qr_encode_of(data@, spec_ec_index(config.ec_level));
            match r {
                Ok(b) => {
                    &&& enc matches Some(g) && b@ == spec_png_result(g.1, g.0 as int, *config)
                        && spec_layout_ok(g.0 as int, *config)
                    &&& (config.logo matches Some(bytes) ==> rgba_of(bytes@) is Some)
                },
                Err(e) => match e {
                    QrError::DataTooLarge => enc is None,
                    QrError::QrGeneration(_) => enc is None,
                    QrError::InvalidConfiguration(_) => enc matches Some(g) && !spec_layout_ok(
                        g.0 as int,
                        *config,
                    ),
                    QrError::ImageError(_) => enc is Some && (config.logo matches Some(bytes)
                        && rgba_of(bytes@) is None),
                    _ => false,
                },
            }
        }),
        qr_encode_of(data@, spec_ec_index(config.ec_level)) matches Some(g) && spec_layout_ok(
            g.0 as int,
            *config,
        ) && (config.logo is None || (config.logo matches Some(bytes) && rgba_of(bytes@) is Some))
            ==> r is Ok,
{
    let grid: ModuleGrid = match qr_encode(data, &config.ec_level) {
        Ok(g) => g,
        Err(e) => {
            return Err(e);
        },
    };
    let layout = match plan(grid.width, config.quiet_zone, config.size) {
        Ok(l) => l,
        Err(e) => {
            return Err(e);
        },
    };
    let a = layout.actual_size;
    let buf = build_pixel_buffer(&grid, layout.module_size, layout.quiet_offset, a, config);
    let finished: Vec<u8> = if let Some(logo_bytes) = &config.logo {
        let (lw, lh, px) = match image_decode_rgba(logo_bytes) {
            Ok(t) => t,
            Err(e) => {
                return Err(e);
            },
        };
        let side: u32 = a / 5;
        let resized = image_resize_rgba(&px, lw, lh, side);
        let off: u32 = (a - side) / 2;
        composite_logo(&buf, a, &resized, side, off)
    } else {
        buf
    };
    match png_encode_rgba(&finished, a, a) {
        Ok(b) => Ok(b),
        Err(e) => Err(e),
    }
}

/// Law: a successful data URI is exactly the PNG data-URI scheme prefix
/// followed by its base64 payload, so it always begins with that prefix.
pub proof fn lemma_data_uri_prefix(s: Seq<char>, payload: Seq<char>)
    requires
        s == "data:image/png;base64,"@ + payload,
    ensures
        s.len() >= 22,
        s.subrange(0, 22) == "data:image/png;base64,"@,
{
    reveal_strlit("data:image/png;base64,");
    assert(s.subrange(0, 22) =~= "data:image/png;base64,"@);
}

/// Renders the payload to a PNG data URI: the scheme prefix followed by the
/// base64 encoding of the PNG bytes. It fails exactly as `render_to_png_bytes`
/// does; success is owed on every other input.
pub fn render_to_base64(data: &str, config: &RenderConfig) -> (r: Result<String, QrError>)
    ensures
        ({
            let enc = qr_encode_of(data@, spec_ec_index(config.ec_level));
            match r {
                Ok(s) => {
                    &&& enc matches Some(g) && s@ == "data:image/png;base64,"@ + base64_of(
                        spec_png_result(g.1, g.0 as int, *config),
                    ) && spec_layout_ok(g.0 as int, *config)
                },
                Err(e) => match e {
                    QrError::DataTooLarge => enc is None,
                    QrError::QrGeneration(_) => enc is None,
                    QrError::InvalidConfiguration(_) => enc matches Some(g) && !spec_layout_ok(
                        g.0 as int,
                        *config,
                    ),
                    QrError::ImageError(_) => enc is Some && (config.logo matches Some(bytes)
                        && rgba_of(bytes@) is None),
                    _ => false,
                },
            }
        }),
        qr_encode_of(data@, spec_ec_index(config.ec_level)) matches Some(g) && spec_layout_ok(
            g.0 as int,
            *config,
        ) && (config.logo is None || (config.logo matches Some(bytes) && rgba_of(bytes@) is Some))
            ==> r is Ok,
{
    let png = match render_to_png_bytes(data, config) {
        Ok(b) => b,
        Err(e) => {
            return Err(e);
        },
    };
    let b64 = base64_encode(&png);
    let mut s = String::from_str("data:image/png;base64,");
    s.append(b64.as_str());
    Ok(s)
}

} // verus!
