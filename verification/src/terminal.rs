//! The terminal emitter: maps the module grid to Unicode half-block glyphs
//! at 1:1 module resolution, two grid rows per text line.

use vstd::prelude::*;
use vstd::string::*;
use crate::error::QrError;
use crate::grid::{qr_encode, qr_encode_of, spec_ec_index, ModuleGrid};
use crate::renderer::RenderConfig;

verus! {

/// Whether the glyph cell at position `(x, y)` of the padded grid renders
/// with the block glyph. The polarity is inverted on purpose — dark modules
/// render as blanks and light modules and the quiet zone render as blocks —
/// so the symbol reads correctly on dark terminal backgrounds.
pub open spec fn spec_term_displayed(cells: Seq<bool>, w: int, qz: int, x: int, y: int) -> bool {
    if qz <= x < qz + w && qz <= y < qz + w {
        !cells[(y - qz) * w + (x - qz)]
    } else {
        true
    }
}

/// The half-block glyph for a pair of vertically adjacent cells: full block,
/// upper half, lower half, or space.
pub open spec fn spec_term_glyph(top: bool, bot: bool) -> char {
    if top && bot {
        '\u{2588}'
    } else if top {
        '\u{2580}'
    } else if bot {
        '\u{2584}'
    } else {
        ' '
    }
}

/// The first `upto` glyphs of text line `j`, which covers padded rows `2j`
/// and `2j + 1`; a row past the bottom counts as blank.
pub open spec fn spec_term_line(cells: Seq<bool>, w: int, qz: int, j: int, upto: int) -> Seq<char>
    decreases upto,
{
    if upto <= 0 {
        Seq::empty()
    } else {
        spec_term_line(cells, w, qz, j, upto - 1).push(
            spec_term_glyph(
                spec_term_displayed(cells, w, qz, upto - 1, 2 * j),
                if 2 * j + 1 < w + 2 * qz {
                    spec_term_displayed(cells, w, qz, upto - 1, 2 * j + 1)
                } else {
                    false
                },
            ),
        )
    }
}

/// The first `upto` text lines, joined by newlines.
pub open spec fn spec_term_lines(cells: Seq<bool>, w: int, qz: int, upto: int) -> Seq<char>
    decreases upto,
{
    if upto <= 0 {
        Seq::empty()
    } else if upto == 1 {
        spec_term_line(cells, w, qz, 0, w + 2 * qz)
    } else {
        spec_term_lines(cells, w, qz, upto - 1) + seq!['\n'] + spec_term_line(
            cells,
            w,
            qz,
            upto - 1,
            w + 2 * qz,
        )
    }
}

/// The whole terminal rendering of a grid of side `w` with a quiet zone of
/// `qz` padded cells on every side: `ceil((w + 2 qz) / 2)` glyph lines.
pub open spec fn spec_terminal_doc(cells: Seq<bool>, w: int, qz: int) -> Seq<char> {
    spec_term_lines(cells, w, qz, (w + 2 * qz + 1) / 2)
}

/// Reads the displayed state of the padded cell `(x, y)`.
fn term_displayed(grid: &ModuleGrid, qz: usize, x: usize, y: usize) -> (r: bool)
    requires
        grid.wf(),
        qz <= 4,
    ensures
        r == spec_term_displayed(grid.cells@, grid.width as int, qz as int, x as int, y as int),
{
    if x >= qz && x < qz + grid.width && y >= qz && y < qz + grid.width {
        !grid.is_dark(y - qz, x - qz)
    } else {
        true
    }
}

/// Renders the payload as terminal text with inverted polarity. The quiet
/// zone is a fixed four-cell border, present exactly when the configured
/// quiet zone width is positive. Fails exactly when the encoder rejects the
/// payload.
pub fn render_to_terminal(data: &str, config: &RenderConfig) -> (r: Result<String, QrError>)
    ensures
        ({
            let enc = qr_encode_of(data@, spec_ec_index(config.ec_level));
            match r {
                Ok(s) => enc matches Some(g) && s@ == spec_terminal_doc(
                    g.1,
                    g.0 as int,
                    if config.quiet_zone > 0 {
                        4int
                    } else {
                        0int
                    },
                ),
                Err(e) => enc is None && (e is DataTooLarge || e is QrGeneration),
            }
        }),
        qr_encode_of(data@, spec_ec_index(config.ec_level)) is Some ==> r is Ok,
{
    let grid: ModuleGrid = match qr_encode(data, &config.ec_level) {
        Ok(g) => g,
        Err(e) => {
            return Err(e);
        },
    };
    let qz: usize = if config.quiet_zone > 0 {
        4
    } else {
        0
    };
    let w = grid.width;
    let h: usize = w + 2 * qz;
    let nlines: usize = (h + 1) / 2;
    let ghost cells = grid.cells@;
    let mut out = String::new();
    let mut j: usize = 0;
    while j < nlines
        invariant
            grid.wf(),
            w == grid.width,
            cells == grid.cells@,
            qz <= 4,
            h == w + 2 * qz,
            nlines == (h + 1) / 2,
            j <= nlines,
            out@ == spec_term_lines(cells, w as int, qz as int, j as int),
        decreases nlines - j,
    {
        let ghost sep: Seq<char> = if j == 0 {
            Seq::empty()
        } else {
            seq!['\n']
        };
        if j > 0 {
            out.push('\n');
        }
        let mut x: usize = 0;
        while x < h
            invariant
                grid.wf(),
                w == grid.width,
                cells == grid.cells@,
                qz <= 4,
                h == w + 2 * qz,
                j < nlines,
                nlines == (h + 1) / 2,
                x <= h,
                sep == if j == 0 {
                    Seq::<char>::empty()
                } else {
                    seq!['\n']
                },
                out@ == spec_term_lines(cells, w as int, qz as int, j as int) + sep
                    + spec_term_line(cells, w as int, qz as int, j as int, x as int),
            decreases h - x,
        {
            let top = term_displayed(&grid, qz, x, 2 * j);
            let bot = if 2 * j + 1 < h {
                term_displayed(&grid, qz, x, 2 * j + 1)
            } else {
                false
            };
            let ch: char = if top && bot {
                '\u{2588}'
            } else if top {
                '\u{2580}'
            } else if bot {
                '\u{2584}'
            } else {
                ' '
            };
            out.push(ch);
            proof {
                assert(out@ =~= spec_term_lines(cells, w as int, qz as int, j as int) + sep
                    + spec_term_line(cells, w as int, qz as int, j as int, x as int + 1));
            }
            x = x + 1;
        }
        proof {
            assert(out@ =~= spec_term_lines(cells, w as int, qz as int, j as int + 1));
        }
        j = j + 1;
    }
    proof {
        assert(nlines >= 1);
    }
    Ok(out)
}

} // verus!
