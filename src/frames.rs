use vstd::arithmetic::div_mod::{lemma_fundamental_div_mod, lemma_mod_pos_bound};
use vstd::prelude::*;

use crate::config::StftConfig;

verus! {

/// Number of windows of `w` samples, `h` apart, that fit in `n` samples.
pub open spec fn frame_count_spec(n: nat, w: nat, h: nat) -> nat {
    if n < w {
        0
    } else {
        ((n - w) as nat / h + 1) as nat
    }
}

/// The windows of `s`: window `i` is `s[i*h .. i*h + w]`.
pub open spec fn windows_spec<T>(s: Seq<T>, w: nat, h: nat) -> Seq<Seq<T>> {
    Seq::new(frame_count_spec(s.len(), w, h), |i: int| s.subrange(i * h, i * h + w))
}

/// Every window counted by `frame_count_spec` lies inside the buffer.
pub proof fn lemma_window_in_bounds(i: nat, n: nat, w: nat, h: nat)
    requires
        h > 0,
        i < frame_count_spec(n, w, h),
    ensures
        i * h + w <= n,
{
    let q = (n - w) as nat / h;
    assert(i <= q);
    assert(i * h <= q * h) by (nonlinear_arith)
        requires
            i <= q,
            h > 0,
    ;
    lemma_fundamental_div_mod((n - w) as int, h as int);
    lemma_mod_pos_bound((n - w) as int, h as int);
    assert(q * h == h * q) by (nonlinear_arith);
}

/// The first window index that no longer fits lies past the buffer.
pub proof fn lemma_window_past_end(n: nat, w: nat, h: nat)
    requires
        h > 0,
        n >= w,
    ensures
        frame_count_spec(n, w, h) * h + w > n,
{
    let q = (n - w) as nat / h;
    lemma_fundamental_div_mod((n - w) as int, h as int);
    lemma_mod_pos_bound((n - w) as int, h as int);
    assert((q + 1) * h == h * q + h) by (nonlinear_arith);
}

/// Copies the `len` samples that start at `start`.
pub(crate) fn copy_window<T: Copy>(samples: &Vec<T>, start: usize, len: usize) -> (r: Vec<T>)
    requires
        start + len <= samples.len(),
    ensures
        r@ == samples@.subrange(start as int, start + len),
{
    let mut window: Vec<T> = Vec::with_capacity(len);
    let mut k: usize = 0;
    while k < len
        invariant
            start + len <= samples.len(),
            k <= len,
            window@ == samples@.subrange(start as int, start + k),
        decreases len - k,
    {
        window.push(samples[start + k]);
        k = k + 1;
        assert(window@ =~= samples@.subrange(start as int, start + k));
    }
    window
}

/// Number of frames a buffer of `n` samples yields: `floor((n - w) / h) + 1`
/// when `n >= w`, none otherwise. The subtraction is guarded, never wrapped.
pub fn frame_count(n: usize, config: &StftConfig) -> (r: usize)
    requires
        config.valid(),
    ensures
        r == frame_count_spec(n as nat, config.window_size as nat, config.hop_size as nat),
        n >= config.window_size ==> r * config.hop_size + config.window_size > n,
{
    proof {
        if n >= config.window_size {
            lemma_window_past_end(n as nat, config.window_size as nat, config.hop_size as nat);
        }
    }
    if n < config.window_size {
        0
    } else {
        (n - config.window_size) / config.hop_size + 1
    }
}

/// Cuts `samples` into overlapping windows: window `i` starts at `i * hop_size`
/// and holds `window_size` samples; no window reads past the end.
pub fn frame_windows<T: Copy>(samples: &Vec<T>, config: &StftConfig) -> (r: Vec<Vec<T>>)
    requires
        config.valid(),
    ensures
        r.len() == frame_count_spec(
            samples.len() as nat,
            config.window_size as nat,
            config.hop_size as nat,
        ),
        forall|i: int|
            0 <= i < r.len() ==> r[i]@ == windows_spec(
                samples@,
                config.window_size as nat,
                config.hop_size as nat,
            )[i],
{
    let n = samples.len();
    let w = config.window_size;
    let h = config.hop_size;
    let count = frame_count(n, config);
    let ghost spec_windows = windows_spec(samples@, w as nat, h as nat);
    let mut out: Vec<Vec<T>> = Vec::new();
    let mut f: usize = 0;
    while f < count
        invariant
            count == frame_count_spec(n as nat, w as nat, h as nat),
            spec_windows == windows_spec(samples@, w as nat, h as nat),
            n == samples.len(),
            w == config.window_size,
            h == config.hop_size,
            config.valid(),
            f <= count,
            out.len() == f,
            forall|i: int| 0 <= i < f ==> out[i]@ == spec_windows[i],
        decreases count - f,
    {
        proof {
            lemma_window_in_bounds(f as nat, n as nat, w as nat, h as nat);
        }
        let window = copy_window(samples, f * h, w);
        assert(window@ == spec_windows[f as int]);
        out.push(window);
        f = f + 1;
    }
    out
}

} // verus!
