//! The vector emitter: builds an SVG document for a module grid, with an
//! optional linear gradient and an optional embedded logo image.

use vstd::prelude::*;
use vstd::string::*;
use crate::codecs::{
    base64_encode, base64_of, image_decode_rgba, image_resize_rgba, png_encode_rgba, png_of,
    resized_of, rgba_of,
};
use crate::error::QrError;
use crate::grid::{qr_encode, qr_encode_of, spec_ec_index, ModuleGrid};
use crate::renderer::{
    plan, spec_hex_string, spec_module_size, spec_total_modules, Color, RenderConfig,
};
use crate::textfmt::{push_u64_dec, spec_dec};

verus! {

/// The XML prolog and the `<svg>` element sized to an `a` by `a` canvas.
pub open spec fn spec_svg_header(a: int) -> Seq<char> {
    "<?xml version=\"1.0\" encoding=\"UTF-8\"?>"@
        + "<svg xmlns=\"http://www.w3.org/2000/svg\" viewBox=\"0 0 "@ + spec_dec(a) + " "@
        + spec_dec(a) + "\" width=\""@ + spec_dec(a) + "\" height=\""@ + spec_dec(a) + "\">"@
}

/// The linear-gradient definition from the foreground color to the gradient
/// end color, diagonal from the top-left to the bottom-right corner.
pub open spec fn spec_svg_gradient_defs(fg: Color, end: Color) -> Seq<char> {
    "<defs><linearGradient id=\"grad\" x1=\"0%\" y1=\"0%\" x2=\"100%\" y2=\"100%\">"@
        + "<stop offset=\"0%\" style=\"stop-color:"@ + spec_hex_string(fg)
        + ";stop-opacity:1\" />"@ + "<stop offset=\"100%\" style=\"stop-color:"@
        + spec_hex_string(end) + ";stop-opacity:1\" />"@ + "</linearGradient></defs>"@
}

/// The definition block: the gradient when one is configured, else nothing.
pub open spec fn spec_svg_defs(fg: Color, gradient: Option<Color>) -> Seq<char> {
    match gradient {
        Some(end) => spec_svg_gradient_defs(fg, end),
        None => Seq::empty(),
    }
}

/// The fill attribute value of the module rectangles: a reference to the
/// gradient when one is configured, else the plain foreground hex.
pub open spec fn spec_svg_fill_attr(fg: Color, gradient: Option<Color>) -> Seq<char> {
    match gradient {
        Some(_) => "url(#grad)"@,
        None => spec_hex_string(fg),
    }
}

/// The full-canvas background rectangle filled with the background hex.
pub open spec fn spec_svg_bg_rect(bg: Color) -> Seq<char> {
    "<rect width=\"100%\" height=\"100%\" fill=\""@ + spec_hex_string(bg) + "\"/>"@
}

/// One module rectangle at pixel position `(x, y)`, `m` pixels square.
pub open spec fn spec_svg_module_rect(x: int, y: int, m: int, fill: Seq<char>) -> Seq<char> {
    "<rect x=\""@ + spec_dec(x) + "\" y=\""@ + spec_dec(y) + "\" width=\""@ + spec_dec(m)
        + "\" height=\""@ + spec_dec(m) + "\" fill=\""@ + fill + "\"/>\n"@
}

/// The rectangles of the first `upto` cells in row-major order: one rectangle
/// for every dark cell, nothing for a light cell.
pub open spec fn spec_svg_rects(
    cells: Seq<bool>,
    w: int,
    m: int,
    qoff: int,
    fill: Seq<char>,
    upto: int,
) -> Seq<char>
    decreases upto,
{
    if upto <= 0 {
        Seq::empty()
    } else {
        spec_svg_rects(cells, w, m, qoff, fill, upto - 1) + (if cells[upto - 1] {
            spec_svg_module_rect(
                ((upto - 1) % w) * m + qoff,
                ((upto - 1) / w) * m + qoff,
                m,
                fill,
            )
        } else {
            Seq::empty()
        })
    }
}

/// The embedded logo element: a square image of side `side` at `(x, y)` whose
/// `href` carries the PNG re-encoding of the resized logo as a data URI.
pub open spec fn spec_svg_logo_image(x: int, y: int, side: int, b64: Seq<char>) -> Seq<char> {
    "<image x=\""@ + spec_dec(x) + "\" y=\""@ + spec_dec(y) + "\" width=\""@ + spec_dec(side)
        + "\" height=\""@ + spec_dec(side) + "\" href=\"data:image/png;base64,"@ + b64 + "\" />"@
}

/// The logo part of the document: empty without a logo; with one, the logo
/// bytes are decoded, resized to a fifth of the canvas, re-encoded as PNG and
/// embedded base64-encoded, centered.
pub open spec fn spec_svg_logo_part(cfg: RenderConfig, a: int) -> Seq<char> {
    match cfg.logo {
        Some(bytes) => match rgba_of(bytes@) {
            Some(t) => {
                let side = a / 5;
                spec_svg_logo_image(
                    (a - side) / 2,
                    (a - side) / 2,
                    side,
                    base64_of(png_of(resized_of(t.2, t.0 as int, t.1 as int, side), side, side)),
                )
            },
            None => Seq::empty(),
        },
        None => Seq::empty(),
    }
}

/// The whole SVG document for a grid of side `w` under a configuration:
/// header, optional gradient definition, background rectangle, one rectangle
/// per dark module, optional embedded logo, closing tag.
pub open spec fn spec_svg_document(cells: Seq<bool>, w: int, cfg: RenderConfig) -> Seq<char> {
    let q = cfg.quiet_zone as int;
    let m = spec_module_size(w, q, cfg.size as int);
    let t = spec_total_modules(w, q);
    let a = m * t;
    let qoff = q * m;
    spec_svg_header(a) + spec_svg_defs(cfg.fg_color, cfg.gradient_color) + spec_svg_bg_rect(
        cfg.bg_color,
    ) + spec_svg_rects(
        cells,
        w,
        m,
        qoff,
        spec_svg_fill_attr(cfg.fg_color, cfg.gradient_color),
        w * w,
    ) + spec_svg_logo_part(cfg, a) + "</svg>"@
}

/// Whether the planner accepts a grid of side `w` under `cfg`.
pub open spec fn spec_layout_ok(w: int, cfg: RenderConfig) -> bool {
    spec_module_size(w, cfg.quiet_zone as int, cfg.size as int) >= 1
}

/// Law: the vector output is deterministic. The document is a function of
/// the payload and configuration alone, so any two successful renders of the
/// same payload and configuration are byte-identical.
pub proof fn lemma_svg_deterministic(
    data: Seq<char>,
    cfg: RenderConfig,
    s1: Seq<char>,
    s2: Seq<char>,
)
    requires
        qr_encode_of(data, spec_ec_index(cfg.ec_level)) matches Some(g) && s1
            == spec_svg_document(g.1, g.0 as int, cfg),
        qr_encode_of(data, spec_ec_index(cfg.ec_level)) matches Some(g) && s2
            == spec_svg_document(g.1, g.0 as int, cfg),
    ensures
        s1 == s2,
{
}

/// Law: with no gradient configured, the document decomposes so that the
/// background rectangle is filled with the background hex and every module
/// rectangle is built with the plain foreground hex as its fill.
pub proof fn lemma_svg_solid_fills(cells: Seq<bool>, w: int, cfg: RenderConfig)
    requires
        cfg.gradient_color is None,
    ensures
        spec_svg_fill_attr(cfg.fg_color, cfg.gradient_color) == spec_hex_string(cfg.fg_color),
        spec_svg_document(cells, w, cfg) == spec_svg_header(
            spec_module_size(w, cfg.quiet_zone as int, cfg.size as int) * spec_total_modules(
                w,
                cfg.quiet_zone as int,
            ),
        ) + spec_svg_bg_rect(cfg.bg_color) + spec_svg_rects(
            cells,
            w,
            spec_module_size(w, cfg.quiet_zone as int, cfg.size as int),
            cfg.quiet_zone as int * spec_module_size(w, cfg.quiet_zone as int, cfg.size as int),
            spec_hex_string(cfg.fg_color),
            w * w,
        ) + spec_svg_logo_part(
            cfg,
            spec_module_size(w, cfg.quiet_zone as int, cfg.size as int) * spec_total_modules(
                w,
                cfg.quiet_zone as int,
            ),
        ) + "</svg>"@,
{
    assert(spec_svg_defs(cfg.fg_color, cfg.gradient_color) =~= Seq::<char>::empty());
    assert(spec_svg_document(cells, w, cfg) =~= spec_svg_header(
        spec_module_size(w, cfg.quiet_zone as int, cfg.size as int) * spec_total_modules(
            w,
            cfg.quiet_zone as int,
        ),
    ) + spec_svg_bg_rect(cfg.bg_color) + spec_svg_rects(
        cells,
        w,
        spec_module_size(w, cfg.quiet_zone as int, cfg.size as int),
        cfg.quiet_zone as int * spec_module_size(w, cfg.quiet_zone as int, cfg.size as int),
        spec_hex_string(cfg.fg_color),
        w * w,
    ) + spec_svg_logo_part(
        cfg,
        spec_module_size(w, cfg.quiet_zone as int, cfg.size as int) * spec_total_modules(
            w,
            cfg.quiet_zone as int,
        ),
    ) + "</svg>"@);
}

/// Appends one module rectangle to the document.
fn push_module_rect(svg: &mut String, x: u64, y: u64, m: u64, fill: &str)
    ensures
        final(svg)@ == old(svg)@ + spec_svg_module_rect(x as int, y as int, m as int, fill@),
{
    svg.append("<rect x=\"");
    push_u64_dec(svg, x);
    svg.append("\" y=\"");
    push_u64_dec(svg, y);
    svg.append("\" width=\"");
    push_u64_dec(svg, m);
    svg.append("\" height=\"");
    push_u64_dec(svg, m);
    svg.append("\" fill=\"");
    svg.append(fill);
    svg.append("\"/>\n");
    proof {
        assert(final(svg)@ =~= old(svg)@ + spec_svg_module_rect(
            x as int,
            y as int,
            m as int,
            fill@,
        ));
    }
}

/// Renders the payload as an SVG document. Fails exactly when the encoder
/// rejects the payload, when the desired size leaves no room for a module,
/// or when a configured logo cannot be decoded; success is owed on every
/// other input.
#[verifier::rlimit(100)]
pub fn render_to_svg(data: &str, config: &RenderConfig) -> (r: Result<String, QrError>)
    ensures
        ({
            let enc = qr_encode_of(data@, spec_ec_index(config.ec_level));
            match r {
                Ok(s) => {
                    &&& enc matches Some(g) && s@ == spec_svg_document(g.1, g.0 as int, *config)
                        && spec_layout_ok(g.0 as int, *config)
                    &&& (config.logo matches Some(bytes) ==> rgba_of(bytes@) is Some)
                },
                Err(e) => match e {
                    QrError::DataTooLarge => enc is None,
                    QrError::QrGeneration(_) => enc is None,
                    QrError::InvalidConfiguration(_) => enc matches Some(g) && !spec_layout_ok(
                        g.0 as int,
                        *config,
                    ),
                    QrError::ImageError(_) => enc is Some && (config.logo matches Some(bytes)
                        && rgba_of(bytes@) is None),
                    _ => false,
                },
            }
        }),
        qr_encode_of(data@, spec_ec_index(config.ec_level)) matches Some(g) && spec_layout_ok(
            g.0 as int,
            *config,
        ) && (config.logo is None || (config.logo matches Some(bytes) && rgba_of(bytes@) is Some))
            ==> r is Ok,
{
    let grid: ModuleGrid = match qr_encode(data, &config.ec_level) {
        Ok(g) => g,
        Err(e) => {
            return Err(e);
        },
    };
    let layout = match plan(grid.width, config.quiet_zone, config.size) {
        Ok(l) => l,
        Err(e) => {
            return Err(e);
        },
    };
    let ghost q = config.quiet_zone as int;
    let ghost m_s = spec_module_size(grid.width as int, q, config.size as int);
    let ghost t_s = spec_total_modules(grid.width as int, q);
    let ghost a_s = m_s * t_s;
    let a: u64 = layout.actual_size as u64;
    let m: u64 = layout.module_size as u64;
    let qoff: u64 = layout.quiet_offset as u64;
    proof {
        assert(a as int == a_s && m as int == m_s && qoff as int == q * m_s);
    }

    let fill: String = match &config.gradient_color {
        Some(_) => String::from_str("url(#grad)"),
        None => config.fg_color.to_hex_string(),
    };
    proof {
        assert(fill@ == spec_svg_fill_attr(config.fg_color, config.gradient_color));
    }

    let mut svg = String::from_str("<?xml version=\"1.0\" encoding=\"UTF-8\"?>");
    svg.append("<svg xmlns=\"http://www.w3.org/2000/svg\" viewBox=\"0 0 ");
    push_u64_dec(&mut svg, a);
    svg.append(" ");
    push_u64_dec(&mut svg, a);
    svg.append("\" width=\"");
    push_u64_dec(&mut svg, a);
    svg.append("\" height=\"");
    push_u64_dec(&mut svg, a);
    svg.append("\">");
    proof {
        assert(svg@ =~= spec_svg_header(a_s));
    }

    if let Some(end) = &config.gradient_color {
        svg.append("<defs><linearGradient id=\"grad\" x1=\"0%\" y1=\"0%\" x2=\"100%\" y2=\"100%\">");
        svg.append("<stop offset=\"0%\" style=\"stop-color:");
        let fg_hex = config.fg_color.to_hex_string();
        svg.append(fg_hex.as_str());
        svg.append(";stop-opacity:1\" />");
        svg.append("<stop offset=\"100%\" style=\"stop-color:");
        let end_hex = end.to_hex_string();
        svg.append(end_hex.as_str());
        svg.append(";stop-opacity:1\" />");
        svg.append("</linearGradient></defs>");
        proof {
            assert(svg@ =~= spec_svg_header(a_s) + spec_svg_defs(
                config.fg_color,
                config.gradient_color,
            ));
        }
    }
    proof {
        assert(svg@ =~= spec_svg_header(a_s) + spec_svg_defs(
            config.fg_color,
            config.gradient_color,
        ));
    }

    svg.append("<rect width=\"100%\" height=\"100%\" fill=\"");
    let bg_hex = config.bg_color.to_hex_string();
    svg.append(bg_hex.as_str());
    svg.append("\"/>");
    let ghost prefix = spec_svg_header(a_s) + spec_svg_defs(config.fg_color, config.gradient_color)
        + spec_svg_bg_rect(config.bg_color);
    proof {
        assert(svg@ =~= prefix);
    }

    let w: usize = grid.width;
    proof {
        assert(w * w <= 177 * 177) by (nonlinear_arith)
            requires
                0 <= w <= 177,
        ;
    }
    let total: usize = w * w;
    let mut i: usize = 0;
    while i < total
        invariant
            grid.wf(),
            w == grid.width,
            total == w * w,
            i <= total,
            m as int == m_s,
            qoff as int == q * m_s,
            1 <= m <= 0xFFFF_FFFFu64,
            qoff <= 0xFFFF_FFFFu64,
            fill@ == spec_svg_fill_attr(config.fg_color, config.gradient_color),
            svg@ == prefix + spec_svg_rects(grid.cells@, w as int, m_s, q * m_s, fill@, i as int),
        decreases total - i,
    {
        if grid.cells[i] {
            let col: u64 = (i % w) as u64;
            let row: u64 = (i / w) as u64;
            proof {
                assert(col < w && row < w) by {
                    assert(i / w < w) by (nonlinear_arith)
                        requires
                            0 <= i as int,
                            (i as int) < (w as int) * (w as int),
                            w >= 1,
                    ;
                }
                assert(col as int * m as int <= 176 * 0xFFFF_FFFF && row as int * m as int <= 176
                    * 0xFFFF_FFFF) by (nonlinear_arith)
                    requires
                        0 <= (col as int) && (col as int) <= 176,
                        0 <= (row as int) && (row as int) <= 176,
                        0 <= (m as int) && (m as int) <= 0xFFFF_FFFF,
                ;
            }
            let x: u64 = col * m + qoff;
            let y: u64 = row * m + qoff;
            push_module_rect(&mut svg, x, y, m, fill.as_str());
        }
        proof {
            assert(svg@ =~= prefix + spec_svg_rects(
                grid.cells@,
                w as int,
                m_s,
                q * m_s,
                fill@,
                i + 1,
            ));
        }
        i = i + 1;
    }
    let ghost prefix_rects = prefix + spec_svg_rects(
        grid.cells@,
        w as int,
        m_s,
        q * m_s,
        fill@,
        (w * w) as int,
    );
    proof {
        assert(svg@ =~= prefix_rects);
    }

    if let Some(logo_bytes) = &config.logo {
        let (lw, lh, px) = match image_decode_rgba(logo_bytes) {
            Ok(t) => t,
            Err(e) => {
                return Err(e);
            },
        };
        let side: u32 = layout.actual_size / 5;
        let resized = image_resize_rgba(&px, lw, lh, side);
        let png = match png_encode_rgba(&resized, side, side) {
            Ok(b) => b,
            Err(e) => {
                return Err(e);
            },
        };
        let b64 = base64_encode(&png);
        let cx: u32 = (layout.actual_size - side) / 2;
        svg.append("<image x=\"");
        push_u64_dec(&mut svg, cx as u64);
        svg.append("\" y=\"");
        push_u64_dec(&mut svg, cx as u64);
        svg.append("\" width=\"");
        push_u64_dec(&mut svg, side as u64);
        svg.append("\" height=\"");
        push_u64_dec(&mut svg, side as u64);
        svg.append("\" href=\"data:image/png;base64,");
        svg.append(b64.as_str());
        svg.append("\" />");
        proof {
            assert(svg@ =~= prefix_rects + spec_svg_logo_part(*config, a_s));
        }
    }
    proof {
        assert(svg@ =~= prefix_rects + spec_svg_logo_part(*config, a_s));
    }

    svg.append("</svg>");
    proof {
        assert(svg@ =~= spec_svg_document(grid.cells@, grid.width as int, *config));
    }
    Ok(svg)
}

} // verus!
