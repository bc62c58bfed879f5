//! The logo compositor: alpha-over blending of a resized logo onto the
//! center of the pixel buffer.

use vstd::prelude::*;
use vstd::arithmetic::div_mod::{
    lemma_fundamental_div_mod, lemma_fundamental_div_mod_converse_div,
    lemma_fundamental_div_mod_converse_mod,
};

verus! {

/// One channel of standard alpha-over compositing onto an opaque
/// destination: the logo channel weighted by its alpha plus the destination
/// channel weighted by the rest, truncated.
pub open spec fn spec_blend_channel(lc: int, la: int, dc: int) -> int {
    (lc * la + dc * (255 - la)) / 255
}

/// Byte `i` of the composited buffer: inside the logo square the color
/// channels are blended by the logo's alpha and the alpha channel stays
/// opaque; outside it the destination byte stands unchanged.
pub open spec fn spec_composite_byte(
    dst: Seq<u8>,
    a: int,
    logo: Seq<u8>,
    side: int,
    off: int,
    i: int,
) -> u8 {
    let p = i / 4;
    let k = i % 4;
    let x = p % a;
    let y = p / a;
    if off <= x < off + side && off <= y < off + side {
        if k == 3 {
            255
        } else {
            let lp = 4 * ((y - off) * side + (x - off));
            spec_blend_channel(logo[lp + k] as int, logo[lp + 3] as int, dst[i] as int) as u8
        }
    } else {
        dst[i]
    }
}

/// The buffer after compositing the logo square at offset `(off, off)`.
pub open spec fn spec_composite(
    dst: Seq<u8>,
    a: int,
    logo: Seq<u8>,
    side: int,
    off: int,
) -> Seq<u8> {
    Seq::new(dst.len(), |i: int| spec_composite_byte(dst, a, logo, side, off, i))
}

/// A blended channel lies between zero and 255.
proof fn lemma_blend_channel_bounds(lc: int, la: int, dc: int)
    requires
        0 <= lc <= 255,
        0 <= la <= 255,
        0 <= dc <= 255,
    ensures
        0 <= spec_blend_channel(lc, la, dc) <= 255,
{
    assert(0 <= lc * la + dc * (255 - la) <= 255 * 255) by (nonlinear_arith)
        requires
            0 <= lc <= 255,
            0 <= la <= 255,
            0 <= dc <= 255,
    ;
    lemma_fundamental_div_mod(lc * la + dc * (255 - la), 255);
    assert((lc * la + dc * (255 - la)) / 255 <= 255) by (nonlinear_arith)
        requires
            0 <= lc * la + dc * (255 - la) <= 255 * 255,
    ;
}

/// One channel of alpha-over blending.
fn blend_channel(lc: u8, la: u8, dc: u8) -> (r: u8)
    ensures
        r as int == spec_blend_channel(lc as int, la as int, dc as int),
{
    proof {
        lemma_blend_channel_bounds(lc as int, la as int, dc as int);
    }
    let num: u32 = (lc as u32) * (la as u32) + (dc as u32) * (255 - la as u32);
    (num / 255) as u8
}

/// Splitting a byte index into its pixel and channel, and a pixel index into
/// its coordinates.
proof fn lemma_composite_indices(p: int, k: int, a: int, x: int, y: int)
    requires
        0 <= k < 4,
        p == y * a + x,
        0 <= x < a,
        0 <= y,
    ensures
        (4 * p + k) / 4 == p,
        (4 * p + k) % 4 == k,
        p % a == x,
        p / a == y,
{
    assert(4 * p + k == p * 4 + k) by (nonlinear_arith);
    lemma_fundamental_div_mod_converse_div(4 * p + k, 4, p, k);
    lemma_fundamental_div_mod_converse_mod(4 * p + k, 4, p, k);
    lemma_fundamental_div_mod_converse_div(p, a, y, x);
    lemma_fundamental_div_mod_converse_mod(p, a, y, x);
}

/// Composites the logo square onto the center region of the buffer with
/// standard alpha-over blending, leaving every pixel outside the square
/// unchanged.
#[verifier::rlimit(100)]
pub fn composite_logo(dst: &Vec<u8>, a: u32, logo: &Vec<u8>, side: u32, off: u32) -> (out: Vec<
    u8,
>)
    requires
        dst@.len() == 4 * a * a,
        logo@.len() == 4 * side * side,
        off as int + side as int <= a as int,
    ensures
        out@ == spec_composite(dst@, a as int, logo@, side as int, off as int),
{
    let ghost spec_out = spec_composite(dst@, a as int, logo@, side as int, off as int);
    let dlen: usize = dst.len();
    let llen: usize = logo.len();
    let mut out: Vec<u8> = Vec::new();
    let mut idx: usize = 0;
    let mut y: u32 = 0;
    proof {
        assert(4 * (y as int) * (a as int) == 0) by (nonlinear_arith)
            requires
                y == 0,
        ;
    }
    while y < a
        invariant
            dst@.len() == 4 * (a as int) * (a as int),
            logo@.len() == 4 * (side as int) * (side as int),
            off as int + side as int <= a as int,
            spec_out == spec_composite(dst@, a as int, logo@, side as int, off as int),
            dlen == dst@.len(),
            llen == logo@.len(),
            y <= a,
            idx == 4 * (y as int) * (a as int),
            out@.len() == idx,
            forall|j: int| 0 <= j < out@.len() ==> out@[j] == spec_out[j],
        decreases a - y,
    {
        let mut x: u32 = 0;
        while x < a
            invariant
                dst@.len() == 4 * (a as int) * (a as int),
                logo@.len() == 4 * (side as int) * (side as int),
                off as int + side as int <= a as int,
                spec_out == spec_composite(dst@, a as int, logo@, side as int, off as int),
                dlen == dst@.len(),
                llen == logo@.len(),
                y < a,
                x <= a,
                idx == 4 * (y as int) * (a as int) + 4 * (x as int),
                out@.len() == idx,
                forall|j: int| 0 <= j < out@.len() ==> out@[j] == spec_out[j],
            decreases a - x,
        {
            let ghost p = (y as int) * (a as int) + (x as int);
            proof {
                lemma_composite_indices(p, 0, a as int, x as int, y as int);
                lemma_composite_indices(p, 1, a as int, x as int, y as int);
                lemma_composite_indices(p, 2, a as int, x as int, y as int);
                lemma_composite_indices(p, 3, a as int, x as int, y as int);
                assert(0 <= p && 4 * p + 3 < 4 * (a as int) * (a as int)) by (nonlinear_arith)
                    requires
                        p == (y as int) * (a as int) + (x as int),
                        0 <= (x as int) < (a as int),
                        0 <= (y as int) < (a as int),
                ;
            }
            if x >= off && x < off + side && y >= off && y < off + side {
                let ghost dx: int = (x as int) - (off as int);
                let ghost dy: int = (y as int) - (off as int);
                let ghost lq: int = dy * (side as int) + dx;
                proof {
                    assert(0 <= lq && 4 * lq + 3 < 4 * (side as int) * (side as int))
                        by (nonlinear_arith)
                        requires
                            lq == dy * (side as int) + dx,
                            0 <= dx && dx < (side as int),
                            0 <= dy && dy < (side as int),
                    ;
                }
                let lrow: usize = (y - off) as usize;
                let lcol: usize = (x - off) as usize;
                proof {
                    assert((lrow as int) * (side as int) + (lcol as int) == lq);
                    assert(4 * ((side as int) * (side as int)) == llen as int)
                        by (nonlinear_arith)
                        requires
                            llen as int == 4 * (side as int) * (side as int),
                    ;
                    assert(idx == 4 * p && 4 * p + 3 < dlen as int) by (nonlinear_arith)
                        requires
                            idx == 4 * (y as int) * (a as int) + 4 * (x as int),
                            p == (y as int) * (a as int) + (x as int),
                            dlen as int == 4 * (a as int) * (a as int),
                            0 <= (x as int) && (x as int) < (a as int),
                            0 <= (y as int) && (y as int) < (a as int),
                    ;
                }
                let lp: usize = 4 * (lrow * (side as usize) + lcol);
                let la: u8 = logo[lp + 3];
                out.push(blend_channel(logo[lp], la, dst[idx]));
                out.push(blend_channel(logo[lp + 1], la, dst[idx + 1]));
                out.push(blend_channel(logo[lp + 2], la, dst[idx + 2]));
                out.push(255);
            } else {
                proof {
                    assert(idx == 4 * p && 4 * p + 3 < dlen as int) by (nonlinear_arith)
                        requires
                            idx == 4 * (y as int) * (a as int) + 4 * (x as int),
                            p == (y as int) * (a as int) + (x as int),
                            dlen as int == 4 * (a as int) * (a as int),
                            0 <= (x as int) && (x as int) < (a as int),
                            0 <= (y as int) && (y as int) < (a as int),
                    ;
                }
                out.push(dst[idx]);
                out.push(dst[idx + 1]);
                out.push(dst[idx + 2]);
                out.push(dst[idx + 3]);
            }
            idx = idx + 4;
            x = x + 1;
        }
        proof {
            assert(4 * (y as int) * (a as int) + 4 * (a as int) == 4 * ((y as int) + 1) * (
            a as int)) by (nonlinear_arith);
        }
        y = y + 1;
    }
    proof {
        assert(out@.len() == spec_out.len());
        assert(out@ =~= spec_out);
    }
    out
}

} // verus!
