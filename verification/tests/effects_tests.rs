use gaucho_tracker::effects::{FadeIn, FadeOut, SampleEffect, SampleProcessor};
use gaucho_tracker::fxkey::{parse_fx_key, parse_usize_digits};
use gaucho_tracker::names::is_pattern_file_name;

#[test]
fn lib_test_sample_processor() {
    let mut processor = SampleProcessor::new();

    // Test adding effects
    processor.add_effect(0, SampleEffect::Reverse);
    processor.add_effect(0, SampleEffect::FadeIn(500));
    processor.add_effect(1, SampleEffect::FadeOut(200));

    // Test clearing effects
    processor.clear_effects(0);

    // No assertions needed as we're just testing the API doesn't panic
}

#[test]
fn tests_test_sample_processor() {
    let mut processor = SampleProcessor::new();

    processor.add_effect(0, SampleEffect::Reverse);
    processor.add_effect(0, SampleEffect::FadeIn(500));
    processor.add_effect(1, SampleEffect::FadeOut(200));

    processor.clear_effects(0);
}

#[test]
fn test_get_effects_reports_chains() {
    let mut processor = SampleProcessor::new();
    assert!(processor.get_effects(&0).is_none());

    processor.add_effect(0, SampleEffect::Reverse);
    processor.add_effect(0, SampleEffect::FadeIn(100));
    let chain = processor.get_effects(&0).unwrap();
    assert_eq!(chain.len(), 2);
    assert!(matches!(chain[0], SampleEffect::Reverse));
    assert!(matches!(chain[1], SampleEffect::FadeIn(100)));

    processor.clear_effects(0);
    assert!(processor.get_effects(&0).is_none());
}

#[test]
fn test_no_effects_passes_samples_through() {
    let processor = SampleProcessor::new();
    let samples: Vec<i16> = vec![3, -7, 12000];
    let out = processor.process_sample(5, samples.clone(), 2, 44100);
    assert_eq!(out, samples);
}

#[test]
fn test_reverse_effect() {
    let mut processor = SampleProcessor::new();
    processor.add_effect(0, SampleEffect::Reverse);
    let out = processor.process_sample(0, vec![1, 2, 3], 1, 44100);
    assert_eq!(out, vec![3, 2, 1]);
}

#[test]
fn test_fade_in_exact_ramp() {
    // At 1000 frames per second, mono, a 2 ms fade covers 2 samples:
    // factors 0/2 and 1/2, then the buffer is untouched.
    let mut processor = SampleProcessor::new();
    processor.add_effect(0, SampleEffect::FadeIn(2));
    let out = processor.process_sample(0, vec![1000, 1000, 1000, 1000], 1, 1000);
    assert_eq!(out, vec![0, 500, 1000, 1000]);
}

#[test]
fn test_fade_in_negative_samples_truncate_toward_zero() {
    let mut processor = SampleProcessor::new();
    processor.add_effect(0, SampleEffect::FadeIn(2));
    let out = processor.process_sample(0, vec![-1000, -999], 1, 1000);
    // Factor 0/2 silences, factor 1/2 of -999 truncates toward zero.
    assert_eq!(out, vec![0, -499]);
}

#[test]
fn test_fade_in_extreme_samples_stay_in_range() {
    let mut processor = SampleProcessor::new();
    processor.add_effect(0, SampleEffect::FadeIn(4));
    let out = processor.process_sample(0, vec![i16::MIN, i16::MAX, i16::MIN, i16::MAX], 1, 1000);
    assert_eq!(out, vec![0, 8191, -16384, 24575]);
}

#[test]
fn test_fade_out_exact_ramp() {
    // A 2 ms fade at 1000 frames per second, mono: the last two samples
    // are scaled by 2/2 and 1/2.
    let mut processor = SampleProcessor::new();
    processor.add_effect(0, SampleEffect::FadeOut(2));
    let out = processor.process_sample(0, vec![1000, 1000, 1000, 1000], 1, 1000);
    assert_eq!(out, vec![1000, 1000, 1000, 500]);
}

#[test]
fn test_partial_window() {
    // A window of [250, 750) permille of an 8-sample buffer keeps
    // samples 2 through 5.
    let mut processor = SampleProcessor::new();
    processor.add_effect(0, SampleEffect::Partial(250, 750));
    let out = processor.process_sample(0, vec![0, 1, 2, 3, 4, 5, 6, 7], 1, 44100);
    assert_eq!(out, vec![2, 3, 4, 5]);
}

#[test]
fn test_partial_clamps_bounds() {
    let mut processor = SampleProcessor::new();
    // End below start and both beyond full scale: clamped to an empty
    // then full-scale-bounded window [1000, 1000) — nothing survives.
    processor.add_effect(0, SampleEffect::Partial(1500, 200));
    let out = processor.process_sample(0, vec![1, 2, 3, 4], 1, 44100);
    assert_eq!(out, Vec::<i16>::new());
}

#[test]
fn test_effects_apply_in_declared_order() {
    // Reverse then fade in differs from fade in then reverse.
    let mut p1 = SampleProcessor::new();
    p1.add_effect(0, SampleEffect::Reverse);
    p1.add_effect(0, SampleEffect::FadeIn(1));
    // 1 ms at 1000 Hz mono = 1 sample faded: first sample of the
    // reversed buffer is silenced.
    let out1 = p1.process_sample(0, vec![100, 200], 1, 1000);
    assert_eq!(out1, vec![0, 100]);

    let mut p2 = SampleProcessor::new();
    p2.add_effect(0, SampleEffect::FadeIn(1));
    p2.add_effect(0, SampleEffect::Reverse);
    let out2 = p2.process_sample(0, vec![100, 200], 1, 1000);
    assert_eq!(out2, vec![200, 0]);
}

#[test]
fn test_zero_length_fade_is_noop() {
    let mut processor = SampleProcessor::new();
    processor.add_effect(0, SampleEffect::FadeIn(0));
    processor.add_effect(0, SampleEffect::FadeOut(0));
    let out = processor.process_sample(0, vec![5, -5, 7], 1, 44100);
    assert_eq!(out, vec![5, -5, 7]);
}

#[test]
fn test_fade_in_stream_yields_ramp() {
    let mut stream = FadeIn::new(vec![1000, 1000, 1000, 1000], 2, 1, 44100);
    assert_eq!(stream.get_channels(), 1);
    assert_eq!(stream.get_sample_rate(), 44100);
    assert_eq!(stream.next(), Some(0));
    assert_eq!(stream.next(), Some(500));
    assert_eq!(stream.next(), Some(1000));
    assert_eq!(stream.next(), Some(1000));
    assert_eq!(stream.next(), None);
}

#[test]
fn test_fade_out_stream_yields_ramp() {
    let mut stream = FadeOut::new(vec![1000, 1000, 1000, 1000], 2, 2, 22050);
    assert_eq!(stream.get_channels(), 2);
    assert_eq!(stream.get_sample_rate(), 22050);
    assert_eq!(stream.next(), Some(1000));
    assert_eq!(stream.next(), Some(1000));
    assert_eq!(stream.next(), Some(1000));
    assert_eq!(stream.next(), Some(500));
    assert_eq!(stream.next(), None);
}

#[test]
fn test_parse_fx_key_accepts_track_step() {
    assert_eq!(parse_fx_key("3:12"), Some((3, 12)));
    assert_eq!(parse_fx_key("0:0"), Some((0, 0)));
    assert_eq!(parse_fx_key("007:5"), Some((7, 5)));
}

#[test]
fn test_parse_fx_key_rejects_malformed_keys() {
    assert_eq!(parse_fx_key(""), None);
    assert_eq!(parse_fx_key("12"), None);
    assert_eq!(parse_fx_key(":1"), None);
    assert_eq!(parse_fx_key("1:"), None);
    assert_eq!(parse_fx_key("1:2:3"), None);
    assert_eq!(parse_fx_key("a:1"), None);
    assert_eq!(parse_fx_key("1:b"), None);
    assert_eq!(parse_fx_key("1 :2"), None);
    assert_eq!(parse_fx_key("99999999999999999999999999:1"), None);
}

#[test]
fn test_parse_usize_digits_cases() {
    assert_eq!(parse_usize_digits("42"), Some(42));
    assert_eq!(parse_usize_digits("0"), Some(0));
    assert_eq!(parse_usize_digits(""), None);
    assert_eq!(parse_usize_digits("4a"), None);
    assert_eq!(parse_usize_digits("+4"), None);
    assert_eq!(parse_usize_digits("99999999999999999999999999"), None);
}

#[test]
fn test_pattern_file_names() {
    assert!(is_pattern_file_name("groove.json"));
    assert!(is_pattern_file_name("0.json"));
    assert!(!is_pattern_file_name("groove.meta.json"));
    assert!(!is_pattern_file_name("groove.toml"));
    assert!(!is_pattern_file_name(".json"));
    assert!(!is_pattern_file_name("json"));
}
