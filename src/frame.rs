use vstd::prelude::*;
use vstd::arithmetic::div_mod::{lemma_fundamental_div_mod_converse, lemma_multiply_divide_lt};
use crate::pixel::{is_dot, pixel_color, pixel_of, black, Rgba, CHANNEL_MAX};

verus! {

/// Bytes per pixel in the frame buffer.
pub const BYTES_PER_PIXEL: usize = 4;

/// The colour of the pixel at row-major index `p` of a frame `w` pixels wide,
/// where `levels[p]` is the noise level sampled there.
pub open spec fn frame_pixel(w: nat, levels: Seq<u8>, p: int) -> Rgba {
    pixel_of((p % (w as int)) as nat, (p / (w as int)) as nat, levels[p])
}

/// Byte `i` of the frame buffer: channel `i % 4` of pixel `i / 4`.
pub open spec fn frame_byte(w: nat, levels: Seq<u8>, i: int) -> u8 {
    frame_pixel(w, levels, i / 4).channel(i % 4)
}

/// The whole `w` by `h` frame as RGBA8 bytes, rows top to bottom, pixels
/// left to right within a row.
pub open spec fn frame_bytes(w: nat, h: nat, levels: Seq<u8>) -> Seq<u8> {
    Seq::new(w * h * 4, |i: int| frame_byte(w, levels, i))
}

/// Builds the frame buffer of a `width` by `height` window from the noise
/// level of each pixel, given row-major.
pub fn compose_frame(width: u32, height: u32, levels: &Vec<u8>) -> (r: Vec<u8>)
    requires
        levels@.len() == width as nat * height as nat,
        width as nat * height as nat * 4 <= usize::MAX,
    ensures
        r@.len() == width as nat * height as nat * 4,
        r@ == frame_bytes(width as nat, height as nat, levels@),
{
    let total: usize = levels.len();
    let w: usize = width as usize;
    let mut out: Vec<u8> = Vec::new();
    let mut p: usize = 0;
    while p < total
        invariant
            total == levels@.len(),
            w == width as usize,
            total as nat == width as nat * height as nat,
            total * 4 <= usize::MAX,
            p <= total,
            out@.len() == 4 * p,
            forall|i: int| 0 <= i < 4 * p ==> out@[i] == #[trigger] frame_byte(w as nat, levels@, i),
        decreases total - p,
    {
        proof {
            assert(w > 0) by (nonlinear_arith)
                requires
                    p < total,
                    total as nat == w as nat * height as nat,
            ;
            lemma_multiply_divide_lt(p as int, w as int, height as int);
        }
        let x: u32 = (p % w) as u32;
        let y: u32 = (p / w) as u32;
        let c = pixel_color(x, y, levels[p]);
        let ghost before = out@;
        out.push(c.r);
        out.push(c.g);
        out.push(c.b);
        out.push(c.a);
        proof {
            assert forall|i: int| 0 <= i < 4 * (p + 1) implies out@[i] == #[trigger] frame_byte(
                w as nat,
                levels@,
                i,
            ) by {
                if i >= 4 * p {
                    lemma_fundamental_div_mod_converse(i, 4, p as int, i - 4 * p);
                } else {
                    assert(out@[i] == before[i]);
                }
            }
        }
        p = p + 1;
    }
    assert(out@ =~= frame_bytes(width as nat, height as nat, levels@));
    out
}

/// Every frame buffer holds exactly four bytes for each pixel of the window.
pub proof fn lemma_frame_size(w: nat, h: nat, levels: Seq<u8>)
    ensures
        frame_bytes(w, h, levels).len() == w * h * 4,
{
}

/// The four bytes of pixel `(x, y)` sit at offset `4 * (y * w + x)`: a dot
/// pixel reads `(n, n, 0, 255)` for its level `n`, every other pixel reads
/// `(0, 0, 0, 255)`.
pub proof fn lemma_frame_pixel(w: nat, h: nat, levels: Seq<u8>, x: nat, y: nat)
    requires
        levels.len() == w * h,
        x < w,
        y < h,
    ensures
        ({
            let f = frame_bytes(w, h, levels);
            let p: int = (y * w + x) as int;
            let n = levels[p];
            &&& 4 * p + 4 <= f.len()
            &&& is_dot(x, y) ==> f[4 * p] == n && f[4 * p + 1] == n && f[4 * p + 2] == 0 && f[4
                * p + 3] == CHANNEL_MAX
            &&& !is_dot(x, y) ==> f[4 * p] == 0 && f[4 * p + 1] == 0 && f[4 * p + 2] == 0 && f[4
                * p + 3] == CHANNEL_MAX
        }),
{
    let p: int = (y * w + x) as int;
    assert(p < w * h) by (nonlinear_arith)
        requires
            p == y * w + x,
            x < w,
            y < h,
    ;
    lemma_fundamental_div_mod_converse(p, w as int, y as int, x as int);
    assert forall|k: int| 0 <= k < 4 implies (#[trigger] frame_bytes(w, h, levels)[4 * p + k])
        == pixel_of(x, y, levels[p]).channel(k) by {
        lemma_fundamental_div_mod_converse(4 * p + k, 4, p, k);
    }
    let f = frame_bytes(w, h, levels);
    assert(f[4 * p + 0] == f[4 * p]);
}

/// A frame depends on the noise levels at the dot pixels alone: two level
/// grids that agree there, in particular two grids sampled at the same
/// time, give byte-identical frames.
pub proof fn lemma_frame_depends_on_dot_levels(w: nat, h: nat, a: Seq<u8>, b: Seq<u8>)
    requires
        a.len() == w * h,
        b.len() == w * h,
        forall|p: int|
            0 <= p < w * h && is_dot((p % (w as int)) as nat, (p / (w as int)) as nat) ==> a[p]
                == b[p],
    ensures
        frame_bytes(w, h, a) == frame_bytes(w, h, b),
{
    assert forall|i: int| 0 <= i < w * h * 4 implies #[trigger] frame_byte(w, a, i) == frame_byte(
        w,
        b,
        i,
    ) by {
        let p = i / 4;
        assert(0 <= p < w * h);
        if !is_dot((p % (w as int)) as nat, (p / (w as int)) as nat) {
            assert(frame_pixel(w, a, p) == black());
        }
    }
    assert(frame_bytes(w, h, a) =~= frame_bytes(w, h, b));
}

} // verus!
