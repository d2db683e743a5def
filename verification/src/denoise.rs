//! The denoise stage: a 3×3-neighborhood median filter applied
//! independently per channel, with window coordinates clamped to the
//! image edge.

use vstd::prelude::*;
use vstd::seq_lib::lemma_sorted_unique;
use vstd::relations::sorted_by;
use vstd::relations::total_ordering;
use crate::buffer::PixelBuffer;

verus! {

/// The ordering by which window samples are ranked.
pub open spec fn u8_le() -> spec_fn(u8, u8) -> bool {
    |a: u8, b: u8| a <= b
}

pub proof fn lemma_u8_le_total()
    ensures
        total_ordering(u8_le()),
{
    let r = u8_le();
    assert forall|a: u8| #[trigger] r(a, a) by {}
    assert forall|a: u8, b: u8| #[trigger] r(a, b) && r(b, a) implies a == b by {}
    assert forall|a: u8, b: u8, c: u8| #[trigger] r(a, b) && #[trigger] r(b, c) implies r(
        a,
        c,
    ) by {}
    assert forall|a: u8, b: u8| #[trigger] r(a, b) || r(b, a) by {}
}

/// Clamp a coordinate into 0..=hi.
pub open spec fn clampi(v: int, hi: int) -> int {
    if v < 0 {
        0
    } else if v > hi {
        hi
    } else {
        v
    }
}

/// The nine samples of channel `c` in the 3×3 window centred on
/// `(x, y)`, reading row by row, with coordinates clamped to the edge
/// (so edge pixels repeat their own samples).
pub open spec fn window9(data: Seq<u8>, w: int, h: int, x: int, y: int, c: int) -> Seq<u8> {
    Seq::new(
        9,
        |k: int|
            {
                let sx = clampi(x + k % 3 - 1, w - 1);
                let sy = clampi(y + k / 3 - 1, h - 1);
                data[(sy * w + sx) * 3 + c]
            },
    )
}

/// The median of a nine-sample window: the middle element of the
/// window sorted ascending.
pub open spec fn median9(s: Seq<u8>) -> u8 {
    s.sort_by(u8_le())[4]
}

/// Sample at flat index `i` of the median-filtered image.
pub open spec fn median_at(data: Seq<u8>, w: int, h: int, i: int) -> u8 {
    let p = i / 3;
    let c = i % 3;
    let y = p / w;
    let x = p % w;
    median9(window9(data, w, h, x, y, c))
}

/// The denoise stage over a whole three-channel sample sequence.
pub open spec fn median_filtered(data: Seq<u8>, w: int, h: int) -> Seq<u8>
    recommends
        data.len() == w * h * 3,
{
    Seq::new(data.len(), |i: int| median_at(data, w, h, i))
}

/// Clamped neighbor coordinate: `v + d - 1` held inside 0..n.
fn shifted_coord(v: usize, d: usize, n: usize) -> (r: usize)
    requires
        d < 3,
        v < n,
    ensures
        r == clampi(v + d - 1, n - 1),
{
    if d == 0 {
        if v == 0 {
            0
        } else {
            v - 1
        }
    } else if d == 1 {
        v
    } else {
        if v + 1 >= n {
            n - 1
        } else {
            v + 1
        }
    }
}

/// Collect the nine window samples of channel `c` around `(x, y)`.
fn gather_window(buf: &PixelBuffer, x: usize, y: usize, c: usize) -> (win: Vec<u8>)
    requires
        buf.wf(),
        buf.channels == 3,
        x < buf.width,
        y < buf.height,
        c < 3,
    ensures
        win@ == window9(
            buf.data@,
            buf.width as int,
            buf.height as int,
            x as int,
            y as int,
            c as int,
        ),
{
    let ghost w9 = window9(
        buf.data@,
        buf.width as int,
        buf.height as int,
        x as int,
        y as int,
        c as int,
    );
    let mut win: Vec<u8> = Vec::new();
    let mut k: usize = 0;
    while k < 9
        invariant
            buf.wf(),
            buf.channels == 3,
            x < buf.width,
            y < buf.height,
            c < 3,
            k <= 9,
            win@.len() == k,
            w9 == window9(
                buf.data@,
                buf.width as int,
                buf.height as int,
                x as int,
                y as int,
                c as int,
            ),
            forall|j: int| 0 <= j < k ==> win@[j] == w9[j],
        decreases 9 - k,
    {
        let sx = shifted_coord(x, k % 3, buf.width);
        let sy = shifted_coord(y, k / 3, buf.height);
        let v = buf.get(sx, sy, c);
        win.push(v);
        k = k + 1;
    }
    proof {
        assert(win@ =~= w9);
    }
    win
}

/// Sort window samples ascending by repeatedly extracting a least
/// element.
fn sort_window(v: Vec<u8>) -> (out: Vec<u8>)
    ensures
        out@.len() == v@.len(),
        sorted_by(out@, u8_le()),
        out@.to_multiset() == v@.to_multiset(),
{
    broadcast use vstd::seq_lib::group_to_multiset_ensures;

    let mut rest = v;
    let ghost orig = rest@;
    let mut out: Vec<u8> = Vec::new();
    proof {
        assert(out@.to_multiset().add(rest@.to_multiset()) =~= orig.to_multiset());
    }
    while rest.len() > 0
        invariant
            out@.len() + rest@.len() == orig.len(),
            sorted_by(out@, u8_le()),
            out@.to_multiset().add(rest@.to_multiset()) == orig.to_multiset(),
            forall|i: int, j: int|
                0 <= i < out@.len() && 0 <= j < rest@.len() ==> u8_le()(
                    #[trigger] out@[i],
                    #[trigger] rest@[j],
                ),
        decreases rest@.len(),
    {
        let mut mi: usize = 0;
        let mut k: usize = 1;
        while k < rest.len()
            invariant
                rest@.len() > 0,
                mi < k <= rest@.len(),
                forall|t: int| 0 <= t < k ==> rest@[mi as int] <= #[trigger] rest@[t],
            decreases rest@.len() - k,
        {
            if rest[k] < rest[mi] {
                mi = k;
            }
            k = k + 1;
        }
        let ghost old_out = out@;
        let ghost old_rest = rest@;
        let x = rest.remove(mi);
        out.push(x);
        proof {
            broadcast use vstd::seq_lib::group_to_multiset_ensures;

            assert(0 <= mi < old_rest.len() && old_rest[mi as int] == x);
            assert(old_rest.contains(x));
            assert(old_rest.to_multiset().count(x) > 0);
            assert(out@ == old_out.push(x));
            assert(old_out.push(x).to_multiset() =~= old_out.to_multiset().insert(x));
            assert(out@.to_multiset() =~= old_out.to_multiset().insert(x));
            assert(rest@ == old_rest.remove(mi as int));
            assert(old_rest.remove(mi as int).to_multiset() == old_rest.to_multiset().remove(x));
            assert(rest@.to_multiset() =~= old_rest.to_multiset().remove(x));
            assert(out@.to_multiset().add(rest@.to_multiset()) =~= orig.to_multiset()) by {
                assert forall|e: u8|
                    out@.to_multiset().add(rest@.to_multiset()).count(e) == orig.to_multiset()
                        .count(e) by {
                    assert(old_out.to_multiset().add(old_rest.to_multiset()).count(e)
                        == orig.to_multiset().count(e));
                }
            }
            assert forall|i: int, j: int|
                0 <= i < j < out@.len() implies u8_le()(out@[i], out@[j]) by {
                if j == out@.len() - 1 {
                    assert(u8_le()(old_out[i], old_rest[mi as int]));
                } else {
                    assert(u8_le()(old_out[i], old_out[j]));
                }
            }
            assert forall|i: int, j: int|
                0 <= i < out@.len() && 0 <= j < rest@.len() implies u8_le()(
                    out@[i],
                    rest@[j],
                ) by {
                let jo = if j < mi { j } else { j + 1 };
                assert(rest@[j] == old_rest[jo]);
                assert(rest@[j] >= old_rest[mi as int]);
                if i < out@.len() - 1 {
                    assert(u8_le()(old_out[i], old_rest[jo]));
                }
            }
        }
    }
    proof {
        assert(out@.to_multiset().add(rest@.to_multiset()) =~= out@.to_multiset());
    }
    out
}

/// The median of the 3×3 window of channel `c` centred on `(x, y)`.
fn median_of_window(buf: &PixelBuffer, x: usize, y: usize, c: usize) -> (r: u8)
    requires
        buf.wf(),
        buf.channels == 3,
        x < buf.width,
        y < buf.height,
        c < 3,
    ensures
        r == median9(
            window9(
                buf.data@,
                buf.width as int,
                buf.height as int,
                x as int,
                y as int,
                c as int,
            ),
        ),
{
    broadcast use vstd::seq_lib::group_to_multiset_ensures;

    let win = gather_window(buf, x, y, c);
    let sorted = sort_window(win);
    proof {
        let w9 = window9(
            buf.data@,
            buf.width as int,
            buf.height as int,
            x as int,
            y as int,
            c as int,
        );
        lemma_u8_le_total();
        w9.lemma_sort_by_ensures(u8_le());
        lemma_sorted_unique(sorted@, w9.sort_by(u8_le()), u8_le());
    }
    sorted[4]
}

/// One full pass over an RGB buffer replacing every sample by the
/// median of its 3×3 clamped neighborhood in the input.
pub fn denoise(buf: &PixelBuffer) -> (out: PixelBuffer)
    requires
        buf.wf(),
        buf.channels == 3,
    ensures
        out.wf(),
        out.width == buf.width,
        out.height == buf.height,
        out.channels == 3,
        out.data@ == median_filtered(buf.data@, buf.width as int, buf.height as int),
{
    proof {
        crate::buffer::lemma_grid_mul_bounds(buf.width as int, buf.height as int, 3);
    }
    let w: usize = buf.width;
    let n_px: usize = buf.width * buf.height;
    let mut data: Vec<u8> = Vec::new();
    let mut p: usize = 0;
    while p < n_px
        invariant
            buf.wf(),
            buf.channels == 3,
            w == buf.width,
            n_px == buf.width * buf.height,
            3 * n_px == buf.data.len(),
            p <= n_px,
            data@.len() == 3 * p,
            forall|i: int|
                0 <= i < data@.len() ==> #[trigger] data@[i] == median_at(
                    buf.data@,
                    buf.width as int,
                    buf.height as int,
                    i,
                ),
        decreases n_px - p,
    {
        proof {
            assert(0 < w && p / w < buf.height && p % w < w) by (nonlinear_arith)
                requires
                    0 <= p < n_px,
                    n_px == buf.width * buf.height,
                    w == buf.width,
                    0 <= w,
            ;
        }
        let y: usize = p / w;
        let x: usize = p % w;
        let m0 = median_of_window(buf, x, y, 0);
        let m1 = median_of_window(buf, x, y, 1);
        let m2 = median_of_window(buf, x, y, 2);
        proof {
            let i0 = 3 * (p as int);
            assert(i0 / 3 == p && i0 % 3 == 0 && (i0 + 1) / 3 == p && (i0 + 1) % 3 == 1 && (i0 + 2)
                / 3 == p && (i0 + 2) % 3 == 2) by (nonlinear_arith)
                requires
                    0 <= p,
                    i0 == 3 * p,
            ;
        }
        data.push(m0);
        data.push(m1);
        data.push(m2);
        p = p + 1;
    }
    proof {
        assert(data@ =~= median_filtered(buf.data@, buf.width as int, buf.height as int));
    }
    PixelBuffer { width: buf.width, height: buf.height, channels: 3, data }
}

/// The median of a window whose nine samples are all the same value is
/// that value.
pub proof fn lemma_median9_constant(s: Seq<u8>, v: u8)
    requires
        s.len() == 9,
        forall|k: int| 0 <= k < 9 ==> s[k] == v,
    ensures
        median9(s) == v,
{
    lemma_u8_le_total();
    s.lemma_sort_by_ensures(u8_le());
    assert(sorted_by(s, u8_le())) by {
        assert forall|i: int, j: int| 0 <= i < j < s.len() implies #[trigger] u8_le()(
            s[i],
            s[j],
        ) by {
            assert(s[i] == v && s[j] == v);
        }
    }
    lemma_sorted_unique(s, s.sort_by(u8_le()), u8_le());
    assert(s.sort_by(u8_le()) =~= s);
    assert(median9(s) == s[4]);
}

/// The sample a uniform-color image holds at flat index `j`: the `r`,
/// `g` or `b` component according to the channel `j` addresses.
pub open spec fn uniform_rgb(r: u8, g: u8, b: u8, j: int) -> u8 {
    if j % 3 == 0 {
        r
    } else if j % 3 == 1 {
        g
    } else {
        b
    }
}

/// Denoise is the identity on a uniform-color image: when every pixel
/// holds the same RGB triple, every 3×3 window is constant per channel
/// and each median reproduces the sample it replaces.
pub proof fn lemma_denoise_uniform(data: Seq<u8>, w: int, h: int, r: u8, g: u8, b: u8)
    requires
        data.len() == w * h * 3,
        0 <= w,
        0 <= h,
        forall|j: int| 0 <= j < data.len() ==> #[trigger] data[j] == uniform_rgb(r, g, b, j),
    ensures
        median_filtered(data, w, h) == data,
{
    let out = median_filtered(data, w, h);
    assert forall|i: int| 0 <= i < data.len() implies out[i] == data[i] by {
        assert(0 < w && 0 < h) by (nonlinear_arith)
            requires
                0 <= w,
                0 <= h,
                0 <= i < w * h * 3,
        ;
        vstd::arithmetic::div_mod::lemma_fundamental_div_mod(i, 3);
        vstd::arithmetic::div_mod::lemma_mod_division_less_than_divisor(i, 3);
        let p = i / 3;
        let c = i % 3;
        assert(0 <= p < w * h) by (nonlinear_arith)
            requires
                0 <= i < w * h * 3,
                i == 3 * p + c,
                0 <= c < 3,
        ;
        vstd::arithmetic::div_mod::lemma_fundamental_div_mod(p, w);
        vstd::arithmetic::div_mod::lemma_mod_division_less_than_divisor(p, w);
        let y = p / w;
        let x = p % w;
        assert(0 <= y < h) by (nonlinear_arith)
            requires
                0 <= p < w * h,
                p == w * y + x,
                0 <= x < w,
        ;
        let v = uniform_rgb(r, g, b, c);
        let win = window9(data, w, h, x, y, c);
        assert forall|k: int| 0 <= k < 9 implies win[k] == v by {
            let sx = clampi(x + k % 3 - 1, w - 1);
            let sy = clampi(y + k / 3 - 1, h - 1);
            assert(0 <= sx < w && 0 <= sy < h);
            let q = sy * w + sx;
            assert(0 <= q < w * h) by (nonlinear_arith)
                requires
                    0 <= sx < w,
                    0 <= sy < h,
                    q == sy * w + sx,
            ;
            let j = q * 3 + c;
            assert(0 <= j < w * h * 3) by (nonlinear_arith)
                requires
                    0 <= q < w * h,
                    0 <= c < 3,
                    j == q * 3 + c,
            ;
            vstd::arithmetic::div_mod::lemma_fundamental_div_mod_converse(j, 3, q, c);
            assert(win[k] == data[(sy * w + sx) * 3 + c]);
            assert(data[j] == uniform_rgb(r, g, b, j));
            assert(uniform_rgb(r, g, b, j) == v);
        }
        lemma_median9_constant(win, v);
        assert(out[i] == median9(win));
        assert(data[i] == uniform_rgb(r, g, b, i));
        assert(uniform_rgb(r, g, b, i) == v);
    }
    assert(out =~= data);
}

} // verus!
