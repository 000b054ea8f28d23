use bitnoise::analyze::Analyzer;
use bitnoise::track::{ConfigError, TrackInfo};

fn info16() -> TrackInfo {
    TrackInfo::new(2, 16, 44100, 4).unwrap()
}

#[test]
fn empty_stream_reports_zero_bits() {
    let report = Analyzer::new(info16(), false).finalize();
    assert_eq!(report.significant_bits, 0);
    assert_eq!(report.actual_bits, 0);
    assert_eq!(report.observed_sample_count, 0);
    assert_eq!(report.observed_min, 0);
    assert_eq!(report.observed_max, 0);
    assert_eq!(report.distinct_count, None);
}

#[test]
fn silence_needs_at_most_one_bit() {
    let mut a = Analyzer::new(info16(), true);
    for _ in 0..100 {
        a.observe(0);
    }
    let report = a.finalize();
    assert_eq!(report.significant_bits, 1);
    assert_eq!(report.observed_min, 0);
    assert_eq!(report.observed_max, 0);
    assert_eq!(report.distinct_count, Some(1));
}

#[test]
fn full_scale_mix_uses_the_whole_width() {
    // The two extremes representable in 16 bits.
    let mut a = Analyzer::new(info16(), false);
    a.observe(-0x8000);
    a.observe(5);
    a.observe(0x7FFF);
    a.observe(-0x8000);
    let report = a.finalize();
    assert_eq!(report.significant_bits, 16);
}

#[test]
fn observed_count_is_number_of_observe_calls() {
    let mut a = Analyzer::new(info16(), false);
    for i in 0..37 {
        a.observe(if i % 2 == 0 { 0 } else { -1 });
    }
    let report = a.finalize();
    assert_eq!(report.observed_sample_count, 37);
    assert_eq!(report.expected_sample_count, 8);
}

#[test]
fn analysis_is_idempotent_over_a_sequence() {
    let samples = [0i32, 1, -5, 0x4000, -0x8000, 0x7FFF, 64, 64];
    let mut a = Analyzer::new(info16(), true);
    let mut b = Analyzer::new(info16(), true);
    for &s in &samples {
        a.observe(s);
    }
    for &s in &samples {
        b.observe(s);
    }
    assert_eq!(a.finalize(), b.finalize());
}

#[test]
fn small_positive_samples() {
    // Samples 0x0000 and 0x0001: no trailing-zero guarantee, range [0, 1];
    // the positive sample needs one magnitude bit beside the sign.
    let mut a = Analyzer::new(info16(), true);
    a.observe(0x0000);
    a.observe(0x0001);
    let report = a.finalize();
    assert_eq!(report.trailing_zero_run, 0);
    assert_eq!(report.observed_min, 0);
    assert_eq!(report.observed_max, 1);
    assert_eq!(report.significant_bits, 2);
    assert_eq!(report.distinct_count, Some(2));
}

#[test]
fn isolated_high_magnitude_sample() {
    // Samples 0x4000 and 0x0000: one value near the top of the 16-bit range.
    let mut a = Analyzer::new(info16(), false);
    a.observe(0x4000);
    a.observe(0x0000);
    let report = a.finalize();
    assert_eq!(report.significant_bits, 16);
    assert_eq!(report.observed_min, 0);
    assert_eq!(report.observed_max, 0x4000);
}

#[test]
fn trailing_runs_and_refined_bits() {
    // 0x0010 and 0x0030 both keep their low four bits zero.
    let mut a = Analyzer::new(info16(), false);
    a.observe(0x0010);
    a.observe(0x0030);
    let report = a.finalize();
    assert_eq!(report.trailing_zero_run, 4);
    assert_eq!(report.trailing_one_run, 0);
    assert_eq!(report.significant_bits, 7);
    assert_eq!(report.actual_bits, 3);
}

#[test]
fn mixture_of_zero_and_all_ones() {
    let mut a = Analyzer::new(info16(), true);
    a.observe(0);
    a.observe(-1);
    a.observe(0);
    let report = a.finalize();
    assert_eq!(report.significant_bits, 1);
    assert_eq!(report.observed_min, -1);
    assert_eq!(report.observed_max, 0);
    assert_eq!(report.distinct_count, Some(2));
}

#[test]
fn packets_align_and_interleave_channel_after_channel() {
    // Two channels of 16-bit samples, left-justified in 32 bits.
    let mut a = Analyzer::new(info16(), true);
    a.process_packet(&vec![
        vec![0x0001 << 16, 0x0002 << 16],
        vec![0x4000 << 16, (-0x8000) << 16],
    ]);
    let report = a.finalize();
    assert_eq!(report.observed_sample_count, 4);
    assert_eq!(report.observed_min, -0x8000);
    assert_eq!(report.observed_max, 0x4000);
    assert_eq!(report.significant_bits, 16);
    assert_eq!(report.distinct_count, Some(4));
}

#[test]
fn report_carries_the_declared_metadata() {
    let report = Analyzer::new(info16(), false).finalize();
    assert_eq!(report.channels, 2);
    assert_eq!(report.stored_bits, 16);
    assert_eq!(report.expected_sample_count, 8);
    assert_eq!(report.possible_min, -0x8000);
    assert_eq!(report.possible_max, 0x7FFF);
}

#[test]
fn metadata_validation_rejects_each_bad_field() {
    assert_eq!(
        TrackInfo::new(0, 16, 44100, 10),
        Err(ConfigError::NoChannels)
    );
    assert_eq!(
        TrackInfo::new(2, 0, 44100, 10),
        Err(ConfigError::InvalidBitsPerSample)
    );
    assert_eq!(
        TrackInfo::new(2, 33, 44100, 10),
        Err(ConfigError::InvalidBitsPerSample)
    );
    assert_eq!(
        TrackInfo::new(2, 16, 0, 10),
        Err(ConfigError::InvalidSampleRate)
    );
    assert_eq!(
        TrackInfo::new(2, 16, 44100, u64::MAX),
        Err(ConfigError::SampleCountOverflow)
    );
    let info = TrackInfo::new(2, 16, 44100, 10).unwrap();
    assert_eq!(info.channels, 2);
    assert_eq!(info.bits_per_sample, 16);
    assert_eq!(info.sample_rate, 44100);
    assert_eq!(info.n_frames, 10);
}
