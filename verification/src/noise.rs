use vstd::prelude::*;

verus! {

use core::ops::Range;
use crate::samplebits::{align_down, align_sample};

/// The one capability the noise injector needs: draw an integer uniformly
/// from a half-open range. Mock implementations pin the draw to an endpoint
/// so that the injector's boundary behaviour is exactly testable.
pub trait Randomizer: Sized {
    /// True for implementations whose next draw is fixed in advance; the
    /// production generator does not promise this.
    spec fn deterministic(&self) -> bool;

    /// The value a deterministic implementation draws from `[lo, hi)`.
    spec fn next_from(&self, lo: int, hi: int) -> int;

    fn gen_range(&mut self, range: Range<i32>) -> (r: i32)
        requires
            range.start < range.end,
        ensures
            range.start <= r < range.end,
            old(self).deterministic() ==> r == old(self).next_from(
                range.start as int,
                range.end as int,
            ),
            old(self).deterministic() ==> *final(self) == *old(self),
    ;
}

/// Test double that always draws the low end of the range.
pub struct MockerMin;

/// Test double that always draws the high end of the range.
pub struct MockerMax;

impl Randomizer for MockerMin {
    open spec fn deterministic(&self) -> bool {
        true
    }

    open spec fn next_from(&self, lo: int, hi: int) -> int {
        lo
    }

    fn gen_range(&mut self, range: Range<i32>) -> (r: i32) {
        range.start
    }
}

impl Randomizer for MockerMax {
    open spec fn deterministic(&self) -> bool {
        true
    }

    open spec fn next_from(&self, lo: int, hi: int) -> int {
        hi - 1
    }

    fn gen_range(&mut self, range: Range<i32>) -> (r: i32) {
        range.end - 1
    }
}

/// Exclusive upper bound of the noise drawn for width `noise_bits`.
pub open spec fn noise_top(noise_bits: u32) -> i32
    recommends
        noise_bits <= 30,
{
    1i32 << noise_bits
}

/// A sample whose low `noise_bits` bits were replaced by `noise`: the low
/// bits are masked off and the noise is merged in.
pub open spec fn spec_noisy(sample: i32, noise_bits: u32, noise: i32) -> i32
    recommends
        noise_bits <= 30,
        0 <= noise < noise_top(noise_bits),
{
    ((sample >> noise_bits) << noise_bits) | noise
}

/// Replace the least significant `noise_bits` bits of `sample` with a draw
/// from the randomizer. Width 0 leaves every sample unchanged. The bound on
/// the width keeps the draw's exclusive upper bound representable.
pub fn noisy<R: Randomizer>(sample: i32, noise_bits: u32, rng: &mut R) -> (r: i32)
    requires
        noise_bits <= 30,
    ensures
        exists|v: i32|
            0 <= v < noise_top(noise_bits) && r == #[trigger] spec_noisy(sample, noise_bits, v),
        r >> noise_bits == sample >> noise_bits,
        noise_bits == 0 ==> r == sample,
        old(rng).deterministic() ==> r == spec_noisy(
            sample,
            noise_bits,
            old(rng).next_from(0, noise_top(noise_bits) as int) as i32,
        ),
        old(rng).deterministic() ==> *final(rng) == *old(rng),
{
    let top: i32 = 1i32 << noise_bits;
    proof {
        assert(noise_bits <= 30 ==> 1i32 << noise_bits >= 1) by (bit_vector);
    }
    let v = rng.gen_range(0..top);
    let r = (sample >> noise_bits) << noise_bits | v;
    proof {
        let k = noise_bits;
        assert(k <= 30 && 0 <= v < (1i32 << k) ==> ((sample >> k) << k | v) >> k == sample >> k)
            by (bit_vector);
        assert((sample >> 0u32) << 0u32 | v == sample | v) by (bit_vector);
        assert(k == 0 ==> (1i32 << k) == 1) by (bit_vector);
        assert(0 <= v && v < 1 ==> sample | v == sample) by (bit_vector);
        assert(0 <= v < noise_top(noise_bits) && r == spec_noisy(sample, noise_bits, v));
    }
    r
}

/// The samples of one decoder packet in output order: frame by frame, the
/// channels interleaved as they arrived, each sample right-justified.
pub open spec fn interleaved(buf: Seq<Seq<i32>>, bits_per_sample: u32) -> Seq<i32>
    recommends
        buf.len() >= 1,
{
    Seq::new(
        (buf[0].len() * buf.len()) as nat,
        |j: int| align_down(buf[j % (buf.len() as int)][j / (buf.len() as int)], bits_per_sample),
    )
}

/// `outcol` is `samples` with at most the low `k` bits of each entry changed.
pub open spec fn masked_matches(outcol: Seq<i32>, samples: Seq<i32>, k: u32) -> bool {
    &&& outcol.len() == samples.len()
    &&& forall|j: int| 0 <= j < outcol.len() ==> (#[trigger] outcol[j]) >> k == samples[j] >> k
}

/// `samples` with the low `k` bits of every entry replaced by `v`.
pub open spec fn noised_with(samples: Seq<i32>, k: u32, v: i32) -> Seq<i32> {
    samples.map(|j: int, s: i32| spec_noisy(s, k, v))
}

/// Changing none of the low bits changes nothing at all.
pub proof fn lemma_masked_zero_is_equal(a: Seq<i32>, b: Seq<i32>)
    requires
        masked_matches(a, b, 0),
    ensures
        a == b,
{
    assert forall|j: int| 0 <= j < a.len() implies a[j] == b[j] by {
        let x = a[j];
        let y = b[j];
        assert(x >> 0u32 == y >> 0u32 ==> x == y) by (bit_vector);
    }
    assert(a =~= b);
}

proof fn lemma_div_mod_interleave(f: int, c: int, n: int)
    requires
        n >= 1,
        0 <= c < n,
        f >= 0,
    ensures
        (f * n + c) / n == f,
        (f * n + c) % n == c,
{
    assert((f * n + c) / n == f && (f * n + c) % n == c) by (nonlinear_arith)
        requires
            n >= 1,
            0 <= c < n,
            f >= 0,
    ;
}

/// Produce one output column per noise width `0 .. bits_per_sample` from one
/// packet of equally long channels. For each frame, every channel's sample is
/// handed to all widths before the next sample is taken, and channels are
/// interleaved per frame in arrival order, so frame alignment is kept across
/// all columns. Each column keeps its samples' high bits; a deterministic
/// randomizer pins every column exactly.
#[verifier::loop_isolation(false)]
#[verifier::rlimit(60)]
pub fn noise_packet<R: Randomizer>(
    buf: &Vec<Vec<i32>>,
    bits_per_sample: u32,
    rng: &mut R,
) -> (out: Vec<Vec<i32>>)
    requires
        1 <= bits_per_sample <= 31,
        buf@.len() >= 1,
        forall|c: int| 0 <= c < buf@.len() ==> (#[trigger] buf@[c])@.len() == buf@[0]@.len(),
    ensures
        out@.len() == bits_per_sample,
        forall|k: int|
            0 <= k < out@.len() ==> masked_matches(
                (#[trigger] out@[k])@,
                interleaved(buf.deep_view(), bits_per_sample),
                k as u32,
            ),
        out@.len() > 0 ==> out@[0]@ == interleaved(buf.deep_view(), bits_per_sample),
        old(rng).deterministic() ==> forall|k: int|
            0 <= k < out@.len() ==> (#[trigger] out@[k])@ == noised_with(
                interleaved(buf.deep_view(), bits_per_sample),
                k as u32,
                old(rng).next_from(0, noise_top(k as u32) as int) as i32,
            ),
        old(rng).deterministic() ==> *final(rng) == *old(rng),
{
    let ghost bufd = buf.deep_view();
    let ghost ilv = interleaved(bufd, bits_per_sample);
    proof {
        assert forall|c: int| 0 <= c < bufd.len() implies (#[trigger] bufd[c]).len()
            == buf@[0]@.len() by {
            assert(bufd[c] =~= buf@[c]@);
        }
    }
    let channels = buf.len();
    let frames = buf[0].len();
    let nwidths: usize = bits_per_sample as usize;
    let mut out: Vec<Vec<i32>> = Vec::new();
    let mut w: usize = 0;
    while w < nwidths
        invariant
            w <= nwidths,
            out@.len() == w,
            forall|k: int| 0 <= k < w ==> (#[trigger] out@[k])@.len() == 0,
        decreases nwidths - w,
    {
        out.push(Vec::new());
        w = w + 1;
    }
    let mut f: usize = 0;
    while f < frames
        invariant
            f <= frames,
            out@.len() == nwidths,
            old(rng).deterministic() ==> *rng == *old(rng),
            forall|k: int|
                0 <= k < nwidths ==> masked_matches(
                    (#[trigger] out@[k])@,
                    ilv.take((f * channels) as int),
                    k as u32,
                ),
            old(rng).deterministic() ==> forall|k: int|
                0 <= k < nwidths ==> (#[trigger] out@[k])@ == noised_with(
                    ilv.take((f * channels) as int),
                    k as u32,
                    old(rng).next_from(0, noise_top(k as u32) as int) as i32,
                ),
        decreases frames - f,
    {
        let mut c: usize = 0;
        while c < channels
            invariant
                c <= channels,
                f < frames,
                out@.len() == nwidths,
                old(rng).deterministic() ==> *rng == *old(rng),
                forall|k: int|
                    0 <= k < nwidths ==> masked_matches(
                        (#[trigger] out@[k])@,
                        ilv.take((f * channels + c) as int),
                        k as u32,
                    ),
                old(rng).deterministic() ==> forall|k: int|
                    0 <= k < nwidths ==> (#[trigger] out@[k])@ == noised_with(
                        ilv.take((f * channels + c) as int),
                        k as u32,
                        old(rng).next_from(0, noise_top(k as u32) as int) as i32,
                    ),
            decreases channels - c,
        {
            proof {
                assert(bufd[c as int] =~= buf@[c as int]@);
            }
            let raw = buf[c][f];
            let s = align_sample(raw, bits_per_sample);
            let ghost idx: int = f * channels + c;
            proof {
                lemma_div_mod_interleave(f as int, c as int, channels as int);
                assert(f * channels + c < frames * channels && f * channels + c + 1 <= frames
                    * channels && 0 <= f * channels) by (nonlinear_arith)
                    requires
                        0 <= f < frames,
                        0 <= c < channels,
                ;
                assert(ilv[idx] == s);
                assert(ilv.take(idx + 1) =~= ilv.take(idx).push(ilv[idx]));
            }
            let mut ki: usize = 0;
            while ki < nwidths
                invariant
                    ki <= nwidths,
                    c < channels,
                    f < frames,
                    out@.len() == nwidths,
                    old(rng).deterministic() ==> *rng == *old(rng),
                    s == align_down(bufd[c as int][f as int], bits_per_sample),
                    idx == f * channels + c,
                    0 <= idx,
                    idx + 1 <= ilv.len(),
                    ilv[idx] == s,
                    forall|k: int|
                        ki <= k < nwidths ==> masked_matches(
                            (#[trigger] out@[k])@,
                            ilv.take(idx),
                            k as u32,
                        ),
                    forall|k: int|
                        0 <= k < ki ==> masked_matches(
                            (#[trigger] out@[k])@,
                            ilv.take(idx + 1),
                            k as u32,
                        ),
                    old(rng).deterministic() ==> forall|k: int|
                        ki <= k < nwidths ==> (#[trigger] out@[k])@ == noised_with(
                            ilv.take(idx),
                            k as u32,
                            old(rng).next_from(0, noise_top(k as u32) as int) as i32,
                        ),
                    old(rng).deterministic() ==> forall|k: int|
                        0 <= k < ki ==> (#[trigger] out@[k])@ == noised_with(
                            ilv.take(idx + 1),
                            k as u32,
                            old(rng).next_from(0, noise_top(k as u32) as int) as i32,
                        ),
                decreases nwidths - ki,
            {
                let v = noisy(s, ki as u32, rng);
                let ghost col_before = out@[ki as int]@;
                out[ki].push(v);
                proof {
                    assert(out@[ki as int]@ =~= col_before.push(v));
                    assert(ilv.take(idx + 1).last() == s);
                    if old(rng).deterministic() {
                        assert(noised_with(ilv.take(idx + 1), ki as u32, old(rng).next_from(
                            0,
                            noise_top(ki as u32) as int,
                        ) as i32) =~= noised_with(ilv.take(idx), ki as u32, old(
                            rng,
                        ).next_from(0, noise_top(ki as u32) as int) as i32).push(
                            spec_noisy(s, ki as u32, old(rng).next_from(
                                0,
                                noise_top(ki as u32) as int,
                            ) as i32),
                        ));
                    }
                }
                ki = ki + 1;
            }
            c = c + 1;
            proof {
                assert(f * channels + c == idx + 1);
            }
        }
        f = f + 1;
        proof {
            assert(f * channels == (f - 1) * channels + channels) by (nonlinear_arith);
        }
    }
    proof {
        assert(frames * channels == ilv.len());
        assert(ilv.take(ilv.len() as int) =~= ilv);
        assert(out@.len() > 0 ==> masked_matches(out@[0]@, ilv, 0));
        if out@.len() > 0 {
            lemma_masked_zero_is_equal(out@[0]@, ilv);
        }
    }
    out
}

/// With the always-minimum randomizer the injected noise is zero, so the
/// transform is exactly hard truncation of the low bits.
pub proof fn lemma_noisy_always_min(sample: i32, noise_bits: u32)
    requires
        noise_bits <= 30,
    ensures
        spec_noisy(sample, noise_bits, (MockerMin {}).next_from(
            0,
            noise_top(noise_bits) as int,
        ) as i32) == (sample >> noise_bits) << noise_bits,
{
    let k = noise_bits;
    assert((sample >> k) << k | 0i32 == (sample >> k) << k) by (bit_vector);
}

/// With the always-maximum randomizer the injected noise is all ones, so the
/// transform is truncation with every discarded bit set.
pub proof fn lemma_noisy_always_max(sample: i32, noise_bits: u32)
    requires
        noise_bits <= 30,
    ensures
        spec_noisy(sample, noise_bits, (MockerMax {}).next_from(
            0,
            noise_top(noise_bits) as int,
        ) as i32) == ((sample >> noise_bits) << noise_bits) | (noise_top(noise_bits) - 1) as i32,
{
    let k = noise_bits;
    assert(k <= 30 ==> 1i32 << k >= 1) by (bit_vector);
    assert((MockerMax {}).next_from(0, noise_top(k) as int) == noise_top(k) - 1);
}

} // verus!
