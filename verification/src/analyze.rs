use vstd::prelude::*;

verus! {

use std::collections::BTreeSet;
use crate::samplebits::{
    align_down, align_sample, leading_redundant, sample_leading_redundant,
    sample_trailing_one_run, sample_trailing_zero_run, trailing_one_run, trailing_zero_run,
};
use crate::track::TrackInfo;

pub open spec fn spec_min_u32(a: u32, b: u32) -> u32 {
    if a < b {
        a
    } else {
        b
    }
}

pub open spec fn spec_max_u32(a: u32, b: u32) -> u32 {
    if a > b {
        a
    } else {
        b
    }
}

/// Fewest redundant leading bits seen over a history; the full sample width
/// when nothing was seen. A single sample using more bits sets the floor for
/// the whole stream.
pub open spec fn min_leading_of(hist: Seq<i32>) -> u32
    decreases hist.len(),
{
    if hist.len() == 0 {
        32
    } else {
        spec_min_u32(min_leading_of(hist.drop_last()), leading_redundant(hist.last()))
    }
}

/// Shortest trailing-zero run seen over a history; the full sample width when
/// nothing was seen.
pub open spec fn min_trailing_zero_of(hist: Seq<i32>) -> u32
    decreases hist.len(),
{
    if hist.len() == 0 {
        32
    } else {
        spec_min_u32(min_trailing_zero_of(hist.drop_last()), trailing_zero_run(hist.last()))
    }
}

/// Shortest trailing-one run seen over a history; the full sample width when
/// nothing was seen.
pub open spec fn min_trailing_one_of(hist: Seq<i32>) -> u32
    decreases hist.len(),
{
    if hist.len() == 0 {
        32
    } else {
        spec_min_u32(min_trailing_one_of(hist.drop_last()), trailing_one_run(hist.last()))
    }
}

/// Largest sample value seen, starting from zero so that silence reports a
/// degenerate zero-width range.
pub open spec fn max_value_of(hist: Seq<i32>) -> i32
    decreases hist.len(),
{
    if hist.len() == 0 {
        0
    } else if hist.last() > max_value_of(hist.drop_last()) {
        hist.last()
    } else {
        max_value_of(hist.drop_last())
    }
}

/// Smallest sample value seen, starting from zero.
pub open spec fn min_value_of(hist: Seq<i32>) -> i32
    decreases hist.len(),
{
    if hist.len() == 0 {
        0
    } else if hist.last() < min_value_of(hist.drop_last()) {
        hist.last()
    } else {
        min_value_of(hist.drop_last())
    }
}

/// Raw significant-bit count of a history: the sample width less the bits
/// every sample wastes repeating its sign.
pub open spec fn significant_bits_of(hist: Seq<i32>) -> u32 {
    (32 - min_leading_of(hist)) as u32
}

/// Low bits that carry no information because they are constantly zero, or
/// constantly one, across every sample.
pub open spec fn padding_of(hist: Seq<i32>) -> u32 {
    spec_max_u32(min_trailing_zero_of(hist), min_trailing_one_of(hist))
}

/// Refined bit count: the raw significant bits less constant low-bit
/// padding, floored at zero.
pub open spec fn actual_bits_of(hist: Seq<i32>) -> u32 {
    if significant_bits_of(hist) >= padding_of(hist) {
        (significant_bits_of(hist) - padding_of(hist)) as u32
    } else {
        0
    }
}

/// The minimum over a history never exceeds its starting value.
pub proof fn lemma_fold_bounds(hist: Seq<i32>)
    ensures
        min_leading_of(hist) <= 32,
        min_trailing_zero_of(hist) <= 32,
        min_trailing_one_of(hist) <= 32,
    decreases hist.len(),
{
    if hist.len() > 0 {
        lemma_fold_bounds(hist.drop_last());
    }
}

/// One decoded channel with every sample right-justified.
pub open spec fn aligned_channel(ch: Seq<i32>, bits_per_sample: u32) -> Seq<i32> {
    ch.map(|i: int, s: i32| align_down(s, bits_per_sample))
}

/// The samples of one decoder packet in observation order: channel after
/// channel, each right-justified.
pub open spec fn packet_history(buf: Seq<Seq<i32>>, bits_per_sample: u32) -> Seq<i32>
    decreases buf.len(),
{
    if buf.len() == 0 {
        Seq::empty()
    } else {
        packet_history(buf.drop_last(), bits_per_sample) + aligned_channel(
            buf.last(),
            bits_per_sample,
        )
    }
}

/// How many samples a packet holds over all channels.
pub open spec fn total_samples(buf: Seq<Seq<i32>>) -> nat
    decreases buf.len(),
{
    if buf.len() == 0 {
        0
    } else {
        total_samples(buf.drop_last()) + buf.last().len()
    }
}

/// A packet contributes exactly as many history entries as it holds samples.
pub proof fn lemma_packet_history_len(buf: Seq<Seq<i32>>, bits_per_sample: u32)
    ensures
        packet_history(buf, bits_per_sample).len() == total_samples(buf),
    decreases buf.len(),
{
    if buf.len() > 0 {
        lemma_packet_history_len(buf.drop_last(), bits_per_sample);
    }
}

/// Taking one more channel appends exactly that channel's aligned samples.
pub proof fn lemma_packet_history_take_step(buf: Seq<Seq<i32>>, bits_per_sample: u32, c: int)
    requires
        0 <= c < buf.len(),
    ensures
        packet_history(buf.take(c + 1), bits_per_sample) == packet_history(
            buf.take(c),
            bits_per_sample,
        ) + aligned_channel(buf[c], bits_per_sample),
        total_samples(buf.take(c + 1)) == total_samples(buf.take(c)) + buf[c].len(),
{
    assert(buf.take(c + 1).drop_last() =~= buf.take(c));
    assert(buf.take(c + 1).last() == buf[c]);
}

/// A prefix of a packet holds no more samples than the whole packet.
pub proof fn lemma_total_samples_take_le(buf: Seq<Seq<i32>>, c: int)
    requires
        0 <= c <= buf.len(),
    ensures
        total_samples(buf.take(c)) <= total_samples(buf),
    decreases buf.len() - c,
{
    if c == buf.len() {
        assert(buf.take(c) =~= buf);
    } else {
        lemma_packet_history_take_step(buf, 0, c);
        lemma_total_samples_take_le(buf, c + 1);
    }
}

/// The statistics the analyzer derives at end of stream.
#[derive(Clone, Copy, Debug, PartialEq, Eq)]
pub struct Report {
    pub channels: usize,
    pub stored_bits: u32,
    pub significant_bits: u32,
    pub actual_bits: u32,
    pub trailing_zero_run: u32,
    pub trailing_one_run: u32,
    pub expected_sample_count: u64,
    pub observed_sample_count: usize,
    pub distinct_count: Option<usize>,
    pub possible_min: i64,
    pub possible_max: i64,
    pub observed_min: i32,
    pub observed_max: i32,
}

/// Smallest value the stored width could carry, as the stream header
/// declares it.
pub open spec fn possible_min_of(bits_per_sample: u32) -> i64
    recommends
        1 <= bits_per_sample <= 32,
{
    (-(1i64 << ((bits_per_sample - 1) as u32))) as i64
}

/// Largest value the stored width could carry, as the stream header declares
/// it.
pub open spec fn possible_max_of(bits_per_sample: u32) -> i64
    recommends
        1 <= bits_per_sample <= 32,
{
    ((1i64 << ((bits_per_sample - 1) as u32)) - 1) as i64
}

/// The report is a function of the stream metadata, the analysis mode, and
/// the observed history alone.
pub open spec fn report_of(info: TrackInfo, deep: bool, hist: Seq<i32>) -> Report {
    Report {
        channels: info.channels,
        stored_bits: info.bits_per_sample,
        significant_bits: significant_bits_of(hist),
        actual_bits: actual_bits_of(hist),
        trailing_zero_run: min_trailing_zero_of(hist),
        trailing_one_run: min_trailing_one_of(hist),
        expected_sample_count: ((info.n_frames as int) * (info.channels as int)) as u64,
        observed_sample_count: hist.len() as usize,
        distinct_count: if deep {
            Some(hist.to_set().len() as usize)
        } else {
            None
        },
        possible_min: possible_min_of(info.bits_per_sample),
        possible_max: possible_max_of(info.bits_per_sample),
        observed_min: min_value_of(hist),
        observed_max: max_value_of(hist),
    }
}

/// Smallest value representable in `w` signed bits.
pub open spec fn width_min(w: u32) -> i32
    recommends
        1 <= w <= 32,
{
    (-(1i64 << ((w - 1) as u32))) as i32
}

/// Largest value representable in `w` signed bits.
pub open spec fn width_max(w: u32) -> i32
    recommends
        1 <= w <= 32,
{
    ((1i64 << ((w - 1) as u32)) - 1) as i32
}

/// Both extremes of a `w`-bit width waste exactly the bits above that width
/// repeating their sign.
pub proof fn lemma_width_extremes_redundancy(w: u32)
    requires
        1 <= w <= 32,
    ensures
        leading_redundant(width_min(w)) == 32 - w,
        leading_redundant(width_max(w)) == 32 - w,
    {
    broadcast use vstd::std_specs::bits::group_bits_axioms;

    let lo = width_min(w);
    let hi = width_max(w);
    assert(1 <= w <= 32 ==> ((-(1i64 << ((w - 1) as u32))) as i32) < 0) by (bit_vector);
    if w == 1 {
        assert(((1i64 << 0u32) - 1) as i32 == 0i32) by (bit_vector);
        assert((-(1i64 << 0u32)) as i32 as u32 == 0xffff_ffffu32) by (bit_vector);
        assert(vstd::std_specs::bits::u32_leading_ones(0xffff_ffffu32) == 32);
        assert(vstd::std_specs::bits::u32_leading_zeros(0u32) == 32);
    } else {
        assert(2 <= w <= 32 ==> (((1i64 << ((w - 1) as u32)) - 1) as i32) >= 0) by (bit_vector);
        assert(2 <= w <= 32 ==> ((((1i64 << ((w - 1) as u32)) - 1) as i32) as u32) >> ((w
            - 2) as u32) == 1u32) by (bit_vector);
        crate::samplebits::lemma_leading_zeros_at(hi as u32, (w - 2) as u32);
        assert(2 <= w <= 32 ==> (!(((-(1i64 << ((w - 1) as u32))) as i32) as u32)) >> ((w
            - 2) as u32) == 1u32) by (bit_vector);
        crate::samplebits::lemma_leading_ones_at(lo as u32, (w - 2) as u32);
    }
}

/// A stream of silence, of any length: at most one bit is significant and
/// the observed range is degenerate at zero.
pub proof fn lemma_all_zero_stream(hist: Seq<i32>)
    requires
        forall|i: int| 0 <= i < hist.len() ==> hist[i] == 0i32,
    ensures
        hist.len() == 0 ==> significant_bits_of(hist) == 0,
        hist.len() > 0 ==> significant_bits_of(hist) == 1,
        min_value_of(hist) == 0,
        max_value_of(hist) == 0,
    decreases hist.len(),
{
    broadcast use vstd::std_specs::bits::group_bits_axioms;

    if hist.len() > 0 {
        lemma_all_zero_stream(hist.drop_last());
        assert(vstd::std_specs::bits::u32_leading_zeros(0u32) == 32);
        assert(hist.last() == 0i32);
    }
}

/// Every sample that fits the declared width keeps at least the bits above
/// that width redundant.
pub proof fn lemma_in_range_redundancy(s: i32, w: u32)
    requires
        1 <= w <= 32,
        width_min(w) <= s <= width_max(w),
    ensures
        leading_redundant(s) >= 32 - w,
{
    crate::samplebits::lemma_leading_redundant_bound(s);
    if w < 32 {
        let wm1: u32 = ((w - 1) as u32);
        if s >= 0 {
            assert(0 <= s && s <= ((1i64 << wm1) - 1) as i32 && wm1 <= 30 ==> (s as u32) >> wm1
                == 0u32) by (bit_vector);
            crate::samplebits::lemma_low_value_leading_zeros(s as u32, wm1);
        } else {
            assert((-(1i64 << wm1)) as i32 <= s && s < 0 && wm1 <= 30 ==> (!(s as u32)) >> wm1
                == 0u32) by (bit_vector);
            crate::samplebits::lemma_low_value_leading_zeros(!(s as u32), wm1);
        }
    }
}

/// The fold's minimum respects a lower bound that every sample meets.
proof fn lemma_min_leading_at_least(hist: Seq<i32>, b: u32)
    requires
        b <= 32,
        forall|i: int| 0 <= i < hist.len() ==> leading_redundant(#[trigger] hist[i]) >= b,
    ensures
        min_leading_of(hist) >= b,
    decreases hist.len(),
{
    if hist.len() > 0 {
        assert(forall|i: int|
            0 <= i < hist.drop_last().len() ==> hist.drop_last()[i] == hist[i]);
        lemma_min_leading_at_least(hist.drop_last(), b);
        assert(hist.last() == hist[hist.len() - 1]);
    }
}

/// The fold's minimum never exceeds any one sample's redundancy.
proof fn lemma_min_leading_at_most(hist: Seq<i32>, i: int)
    requires
        0 <= i < hist.len(),
    ensures
        min_leading_of(hist) <= leading_redundant(hist[i]),
    decreases hist.len(),
{
    if i == hist.len() - 1 {
        assert(hist.last() == hist[i]);
    } else {
        lemma_min_leading_at_most(hist.drop_last(), i);
        assert(hist.drop_last()[i] == hist[i]);
    }
}

/// A stream that stays within the declared width and reaches both of its
/// extreme values uses every bit of that width.
pub proof fn lemma_full_scale_stream(hist: Seq<i32>, w: u32)
    requires
        1 <= w <= 32,
        forall|i: int|
            0 <= i < hist.len() ==> width_min(w) <= #[trigger] hist[i] <= width_max(w),
        exists|i: int| 0 <= i < hist.len() && hist[i] == width_min(w),
        exists|i: int| 0 <= i < hist.len() && hist[i] == width_max(w),
    ensures
        significant_bits_of(hist) == w,
{
    lemma_width_extremes_redundancy(w);
    lemma_fold_bounds(hist);
    let i = choose|i: int| 0 <= i < hist.len() && hist[i] == width_min(w);
    lemma_min_leading_at_most(hist, i);
    assert forall|j: int|
        0 <= j < hist.len() implies leading_redundant(#[trigger] hist[j]) >= ((32
        - w) as u32) by {
        lemma_in_range_redundancy(hist[j], w);
    }
    lemma_min_leading_at_least(hist, ((32 - w) as u32));
    assert(min_leading_of(hist) == 32 - w);
}

/// Analysis is a pure function of what was observed: two analyzers over the
/// same metadata, mode, and sample sequence derive the same report.
pub proof fn lemma_analysis_deterministic(a: &Analyzer, b: &Analyzer)
    requires
        a.wf(),
        b.wf(),
        a.info() == b.info(),
        a.deep() == b.deep(),
        a.history() == b.history(),
    ensures
        a.spec_report() == b.spec_report(),
{
}

/// The observed sample count in a report is the length of the observation
/// history, whatever the samples hold.
pub proof fn lemma_observed_count(info: TrackInfo, deep: bool, hist: Seq<i32>)
    requires
        hist.len() <= usize::MAX,
    ensures
        report_of(info, deep, hist).observed_sample_count == hist.len(),
{
}

/// Streaming accumulator for the bit-depth statistics: one update per decoded
/// sample, one report at end of stream.
pub struct Analyzer {
    track_info: TrackInfo,
    min_leading: u32,
    min_trailing0: u32,
    min_trailing1: u32,
    max_value: i32,
    min_value: i32,
    deep: bool,
    values: BTreeSet<i32>,
    samples: usize,
    hist: Ghost<Seq<i32>>,
}

impl Analyzer {
    /// The aligned samples observed so far, in arrival order.
    pub closed spec fn history(&self) -> Seq<i32> {
        self.hist@
    }

    /// The metadata this analyzer was constructed with.
    pub closed spec fn info(&self) -> TrackInfo {
        self.track_info
    }

    /// Whether distinct-value tracking is on.
    pub closed spec fn deep(&self) -> bool {
        self.deep
    }

    /// Every running statistic agrees with the recursive fold over the
    /// observation history.
    pub closed spec fn wf(&self) -> bool {
        &&& self.track_info.wf()
        &&& self.min_leading == min_leading_of(self.hist@)
        &&& self.min_trailing0 == min_trailing_zero_of(self.hist@)
        &&& self.min_trailing1 == min_trailing_one_of(self.hist@)
        &&& self.max_value == max_value_of(self.hist@)
        &&& self.min_value == min_value_of(self.hist@)
        &&& self.samples == self.hist@.len()
        &&& (self.deep ==> self.values@ == self.hist@.to_set())
    }

    /// The report this analyzer would derive from what it has seen.
    pub open spec fn spec_report(&self) -> Report {
        report_of(self.info(), self.deep(), self.history())
    }

    /// A fresh analyzer that has observed nothing.
    pub fn new(track_info: TrackInfo, deep: bool) -> (r: Analyzer)
        requires
            track_info.wf(),
        ensures
            r.wf(),
            r.history() == Seq::<i32>::empty(),
            r.info() == track_info,
            r.deep() == deep,
    {
        proof {
            broadcast use vstd::set::group_set_axioms;

            assert(Seq::<i32>::empty().to_set() =~= Set::<i32>::empty());
        }
        Analyzer {
            track_info,
            min_leading: 32,
            min_trailing0: 32,
            min_trailing1: 32,
            max_value: 0,
            min_value: 0,
            deep,
            values: BTreeSet::new(),
            samples: 0,
            hist: Ghost(Seq::empty()),
        }
    }

    /// Fold one aligned sample into the running statistics. The observed
    /// count always equals the number of calls made, whatever the content.
    pub fn observe(&mut self, sample: i32)
        requires
            old(self).wf(),
            old(self).history().len() < usize::MAX,
        ensures
            final(self).wf(),
            final(self).history() == old(self).history().push(sample),
            final(self).info() == old(self).info(),
            final(self).deep() == old(self).deep(),
    {
        let leading = sample_leading_redundant(sample);
        if leading < self.min_leading {
            self.min_leading = leading;
        }
        let t0 = sample_trailing_zero_run(sample);
        if t0 < self.min_trailing0 {
            self.min_trailing0 = t0;
        }
        let t1 = sample_trailing_one_run(sample);
        if t1 < self.min_trailing1 {
            self.min_trailing1 = t1;
        }
        if sample > self.max_value {
            self.max_value = sample;
        }
        if sample < self.min_value {
            self.min_value = sample;
        }
        if self.deep {
            self.values.insert(sample);
        }
        self.samples = self.samples + 1;
        self.hist = Ghost(self.hist@.push(sample));
        proof {
            broadcast use vstd::laws_cmp::group_laws_cmp;
            broadcast use vstd::std_specs::btree::group_btree_axioms;
            broadcast use vstd::seq_lib::group_seq_properties;
            broadcast use vstd::set::group_set_axioms;

            let h = old(self).hist@;
            assert(h.push(sample).drop_last() =~= h);
            assert(h.push(sample).last() == sample);
            if self.deep {
                assert(h.push(sample).to_set() =~= h.to_set().insert(sample));
            }
        }
    }

    /// Fold one decoder packet into the statistics: channel after channel in
    /// declared order, each sample right-justified first, since the decoder
    /// delivers its values left-justified in the stored width.
    #[verifier::loop_isolation(false)]
    #[verifier::rlimit(30)]
    pub fn process_packet(&mut self, buf: &Vec<Vec<i32>>)
        requires
            old(self).wf(),
            buf@.len() == old(self).info().channels,
            old(self).history().len() + total_samples(buf.deep_view()) <= usize::MAX,
        ensures
            final(self).wf(),
            final(self).history() == old(self).history() + packet_history(
                buf.deep_view(),
                old(self).info().bits_per_sample,
            ),
            final(self).info() == old(self).info(),
            final(self).deep() == old(self).deep(),
    {
        let ghost bufd = buf.deep_view();
        let ghost hist0 = old(self).history();
        let bits = self.track_info.bits_per_sample;
        let mut c: usize = 0;
        while c < buf.len()
            invariant
                c <= buf.len(),
                self.wf(),
                self.info() == old(self).info(),
                self.deep() == old(self).deep(),
                self.history() == hist0 + packet_history(bufd.take(c as int), bits),
            decreases buf.len() - c,
        {
            proof {
                assert(bufd[c as int] =~= buf@[c as int]@);
            }
            let mut i: usize = 0;
            while i < buf[c].len()
                invariant
                    c < buf.len(),
                    i <= buf@[c as int]@.len(),
                    self.wf(),
                    self.info() == old(self).info(),
                    self.deep() == old(self).deep(),
                    self.history() == hist0 + packet_history(bufd.take(c as int), bits)
                        + aligned_channel(bufd[c as int].take(i as int), bits),
                decreases buf@[c as int]@.len() - i,
            {
                let raw = buf[c][i];
                let s = align_sample(raw, bits);
                proof {
                    lemma_packet_history_len(bufd.take(c as int), bits);
                    lemma_packet_history_take_step(bufd, bits, c as int);
                    lemma_total_samples_take_le(bufd, c as int + 1);
                    assert(aligned_channel(bufd[c as int].take(i as int), bits).len()
                        == i as int);
                    assert(self.history().len() < usize::MAX);
                }
                self.observe(s);
                i = i + 1;
                proof {
                    let ch = bufd[c as int];
                    assert(ch.take(i as int) =~= ch.take(i - 1).push(ch[i - 1]));
                    assert(aligned_channel(ch.take(i as int), bits) =~= aligned_channel(
                        ch.take(i - 1),
                        bits,
                    ).push(align_down(ch[i - 1], bits)));
                    assert(self.history() == hist0 + packet_history(bufd.take(c as int), bits)
                        + aligned_channel(ch.take(i as int), bits));
                }
            }
            c = c + 1;
            proof {
                lemma_packet_history_take_step(bufd, bits, c as int - 1);
                assert(bufd[c as int - 1].take(bufd[c as int - 1].len() as int) =~= bufd[c as int
                    - 1]);
            }
        }
        proof {
            assert(bufd.take(buf.len() as int) =~= bufd);
        }
    }

    /// Derive the final statistics. The result is fully determined by the
    /// metadata, the mode, and the observation history.
    pub fn finalize(self) -> (r: Report)
        requires
            self.wf(),
        ensures
            r == self.spec_report(),
    {
        proof {
            broadcast use vstd::laws_cmp::group_laws_cmp;
            broadcast use vstd::std_specs::btree::group_btree_axioms;

            lemma_fold_bounds(self.hist@);
            let bits = self.track_info.bits_per_sample;
            assert(1 <= bits <= 32 ==> 0 < (1i64 << ((bits - 1) as u32)) <= 0x8000_0000i64)
                by (bit_vector);
        }
        let expected = self.track_info.expected_samples();
        let sig = 32 - self.min_leading;
        let pad = if self.min_trailing0 > self.min_trailing1 {
            self.min_trailing0
        } else {
            self.min_trailing1
        };
        let actual = if sig >= pad {
            sig - pad
        } else {
            0
        };
        let half_span = 1i64 << ((self.track_info.bits_per_sample - 1) as u32);
        let distinct = if self.deep {
            Some(self.values.len())
        } else {
            None
        };
        Report {
            channels: self.track_info.channels,
            stored_bits: self.track_info.bits_per_sample,
            significant_bits: sig,
            actual_bits: actual,
            trailing_zero_run: self.min_trailing0,
            trailing_one_run: self.min_trailing1,
            expected_sample_count: expected,
            observed_sample_count: self.samples,
            distinct_count: distinct,
            possible_min: -half_span,
            possible_max: half_span - 1,
            observed_min: self.min_value,
            observed_max: self.max_value,
        }
    }
}

} // verus!
