use autkit::analyzer::{analyze_window, calc_scope_channel, peak, DISPLAY_LENGTH, WINDOW_FRAMES};
use autkit::scalar::Scalar;
use autkit::scope::{Scope, ScopeChannel};
use autkit::trigger::find_trigger;
use autkit::window::{channel_samples, frames_in};

fn s(x: f32) -> Scalar {
    Scalar::from_bits(x.to_bits())
}

fn window(samples: &[f32]) -> Vec<Scalar> {
    samples.iter().map(|x| s(*x)).collect()
}

fn f(x: Scalar) -> f32 {
    f32::from_bits(x.to_bits())
}

fn sine(amplitude: f32, periods: usize, per_period: usize) -> Vec<f32> {
    (0..periods * per_period)
        .map(|i| amplitude * (2.0 * std::f32::consts::PI * i as f32 / per_period as f32).sin())
        .collect()
}

fn rms(samples: &[Scalar]) -> f32 {
    let mut sum = 0.0f32;
    for x in samples {
        sum += f(*x) * f(*x);
    }
    (sum / samples.len() as f32).sqrt()
}

#[test]
fn defaults() {
    assert_eq!(DISPLAY_LENGTH, 512);
    assert_eq!(WINDOW_FRAMES, 4096);
}

#[test]
fn whole_frames_are_counted() {
    assert_eq!(frames_in(0, 2), 0);
    assert_eq!(frames_in(1, 2), 0);
    assert_eq!(frames_in(2, 2), 1);
    assert_eq!(frames_in(7, 2), 3);
    assert_eq!(frames_in(4096, 1), 4096);
}

#[test]
fn a_channel_is_every_stride_th_sample() {
    let w = window(&[0.0, 1.0, 2.0, 3.0, 4.0, 5.0, 6.0]);
    assert_eq!(channel_samples(&w, 0, 3), window(&[0.0, 3.0]));
    assert_eq!(channel_samples(&w, 1, 3), window(&[1.0, 4.0]));
    assert_eq!(channel_samples(&w, 2, 3), window(&[2.0, 5.0]));
    assert_eq!(channel_samples(&w, 0, 1), w);
    assert_eq!(channel_samples(&w, 0, 8), vec![]);
}

#[test]
fn peak_is_the_largest_magnitude() {
    assert_eq!(f(peak(&window(&[0.25, -0.75, 0.5]))), 0.75);
    assert_eq!(f(peak(&window(&[-0.0, 0.0]))), 0.0);
    assert_eq!(peak(&window(&[-0.0])).to_bits(), 0);
    assert_eq!(f(peak(&window(&[]))), 0.0);
    assert_eq!(f(peak(&window(&[f32::NEG_INFINITY, 1.0]))), f32::INFINITY);
}

#[test]
fn peak_passes_over_what_is_no_number() {
    assert_eq!(f(peak(&window(&[0.5, f32::NAN, -0.25]))), 0.5);
    assert_eq!(f(peak(&window(&[f32::NAN]))), 0.0);
}

#[test]
fn peak_matches_a_fold_over_native_numbers() {
    let mut bits: u32 = 7;
    let mut samples = Vec::new();
    for _ in 0..500 {
        bits = bits.wrapping_mul(1664525).wrapping_add(1013904223);
        samples.push(f32::from_bits(bits));
    }
    let mut expected = 0.0f32;
    for x in &samples {
        if x.abs() > expected {
            expected = x.abs();
        }
    }
    assert_eq!(peak(&window(&samples)).to_bits(), expected.to_bits());
}

#[test]
fn levels_of_a_sine_over_whole_periods() {
    for amplitude in [1.0f32, 0.5, 0.125] {
        let w = window(&sine(amplitude, 8, 512));
        let d = calc_scope_channel(&w, 0, 1, DISPLAY_LENGTH, 0);
        let samples = channel_samples(&w, 0, 1);
        assert!((f(d.peak) - amplitude).abs() <= 0.01 * amplitude);
        assert!((rms(&samples) - amplitude / 2.0f32.sqrt()).abs() <= 0.01 * amplitude);
    }
}

#[test]
fn display_starts_at_the_trigger() {
    let w = window(&[-1.0, -0.5, 0.5, 1.0, 0.5, -0.5, -1.0, -0.5]);
    let trigger = find_trigger(&w, 0, 1);
    assert_eq!(trigger, 2);
    let d = calc_scope_channel(&w, 0, 1, 4, trigger);
    assert_eq!(d.samples, vec![(0, s(0.5)), (1, s(1.0)), (2, s(0.5)), (3, s(-0.5))]);
}

#[test]
fn display_is_cut_short_at_the_end_of_the_window() {
    let w = window(&[0.0, 1.0, 2.0, 3.0, 4.0, 5.0, 6.0, 7.0]);
    let d = calc_scope_channel(&w, 0, 1, 512, 5);
    assert_eq!(d.samples, vec![(0, s(5.0)), (1, s(6.0)), (2, s(7.0))]);
    let d = calc_scope_channel(&w, 0, 1, 3, 5);
    assert_eq!(d.samples.len(), 3);
    let d = calc_scope_channel(&w, 0, 1, 2, 5);
    assert_eq!(d.samples, vec![(0, s(5.0)), (1, s(6.0))]);
}

#[test]
fn display_length_is_the_smaller_of_length_and_what_is_left() {
    let w = window(&sine(1.0, 1, 100));
    for trigger in 0..=100usize {
        for length in [0usize, 1, 10, 99, 100, 101, 512] {
            let d = calc_scope_channel(&w, 0, 1, length, trigger);
            assert_eq!(d.samples.len(), length.min(100 - trigger));
        }
    }
}

#[test]
fn display_past_the_window_is_empty() {
    let w = window(&[1.0, 2.0, 3.0]);
    assert!(calc_scope_channel(&w, 0, 1, 512, 3).samples.is_empty());
    assert!(calc_scope_channel(&w, 0, 1, 512, 4).samples.is_empty());
    assert!(calc_scope_channel(&w, 0, 1, 512, usize::MAX).samples.is_empty());
    assert!(calc_scope_channel(&w, 0, 1, usize::MAX, usize::MAX).samples.is_empty());
}

#[test]
fn display_of_the_default_length() {
    let w = window(&sine(1.0, 8, 512));
    let d = calc_scope_channel(&w, 0, 1, DISPLAY_LENGTH, 100);
    assert_eq!(d.samples.len(), 512);
    assert_eq!(d.samples[0], (0, w[100]));
    assert_eq!(d.samples[511], (511, w[611]));
}

#[test]
fn channels_of_one_window_share_the_trigger() {
    // channel 0 rises at frame 2; channel 1 is a ramp
    let w = window(&[-1.0, 10.0, -1.0, 11.0, 1.0, 12.0, 1.0, 13.0, -1.0, 14.0]);
    let trigger = find_trigger(&w, 0, 2);
    assert_eq!(trigger, 2);
    let a = calc_scope_channel(&w, 0, 2, 2, trigger);
    let b = calc_scope_channel(&w, 1, 2, 2, trigger);
    assert_eq!(a.samples, vec![(0, s(1.0)), (1, s(1.0))]);
    assert_eq!(b.samples, vec![(0, s(12.0)), (1, s(13.0))]);
    assert_eq!(f(a.peak), 1.0);
    assert_eq!(f(b.peak), 14.0);
}

#[test]
fn peak_is_taken_over_the_whole_window() {
    let w = window(&[9.0, 0.0, 1.0, 2.0, -8.0]);
    let d = calc_scope_channel(&w, 0, 1, 2, 1);
    assert_eq!(d.samples, vec![(0, s(0.0)), (1, s(1.0))]);
    assert_eq!(f(d.peak), 9.0);
}

#[test]
fn analysis_has_no_label_no_spectrum_and_no_mean() {
    let w = window(&[0.5, -0.5]);
    let d = calc_scope_channel(&w, 0, 1, 512, 0);
    assert_eq!(d.name, "");
    assert!(d.fft.is_empty());
    assert_eq!(d.rms.to_bits(), 0);
}

#[test]
fn new_channel_is_blank() {
    let c = ScopeChannel::new("ch3");
    assert_eq!(c.name, "ch3");
    assert!(c.samples.is_empty());
    assert!(c.fft.is_empty());
    assert_eq!(c.rms.to_bits(), 0);
    assert_eq!(c.peak.to_bits(), 0);
}

#[test]
fn snapshot_is_a_copy() {
    let mut c = ScopeChannel::new("left");
    c.samples = vec![(0, s(0.5)), (1, s(-0.5))];
    c.fft = vec![(s(440.0), s(1.0))];
    c.rms = s(0.5);
    c.peak = s(0.75);
    let copy = c.snapshot();
    assert_eq!(copy.name, "left");
    assert_eq!(copy.samples, c.samples);
    assert_eq!(copy.fft, c.fft);
    assert_eq!(copy.rms, c.rms);
    assert_eq!(copy.peak, c.peak);
}

#[test]
fn publish_overwrites_one_channel() {
    let mut scope = Scope::new();
    assert_eq!(scope.len(), 0);
    scope.push(ScopeChannel::new("ch0"));
    scope.push(ScopeChannel::new("ch1"));
    assert_eq!(scope.len(), 2);
    let w = window(&[-1.0, 1.0, 0.5]);
    scope.publish(1, calc_scope_channel(&w, 0, 1, 512, 1));
    let untouched = scope.read(0);
    assert_eq!(untouched.name, "ch0");
    assert!(untouched.samples.is_empty());
    let fresh = scope.read(1);
    assert_eq!(fresh.samples, vec![(0, s(1.0)), (1, s(0.5))]);
    assert_eq!(f(fresh.peak), 1.0);
    let w = window(&[2.0]);
    scope.publish(1, calc_scope_channel(&w, 0, 1, 512, 0));
    let fresh = scope.read(1);
    assert_eq!(fresh.samples, vec![(0, s(2.0))]);
    assert_eq!(f(fresh.peak), 2.0);
    assert_eq!(scope.len(), 2);
}

#[test]
fn read_leaves_the_scope_as_it_was() {
    let mut scope = Scope::new();
    let mut c = ScopeChannel::new("ch0");
    c.peak = s(0.25);
    scope.push(c);
    let first = scope.read(0);
    let second = scope.read(0);
    assert_eq!(first.peak, second.peak);
    assert_eq!(first.name, second.name);
}

#[test]
fn a_window_is_analysed_channel_by_channel() {
    // channel 0 rises at frame 2; channel 1 is a ramp; channel 2 is silent
    let w = window(&[
        -1.0, 10.0, 0.0, -1.0, 11.0, 0.0, 1.0, 12.0, 0.0, 1.0, 13.0, 0.0, -1.0, 14.0, 0.0,
    ]);
    let results = analyze_window(&w, 3, 2);
    assert_eq!(results.len(), 3);
    assert_eq!(results[0].samples, vec![(0, s(1.0)), (1, s(1.0))]);
    assert_eq!(results[1].samples, vec![(0, s(12.0)), (1, s(13.0))]);
    assert_eq!(results[2].samples, vec![(0, s(0.0)), (1, s(0.0))]);
    assert_eq!(f(results[0].peak), 1.0);
    assert_eq!(f(results[1].peak), 14.0);
    assert_eq!(f(results[2].peak), 0.0);
    for (ch, result) in results.iter().enumerate() {
        let alone = calc_scope_channel(&w, ch, 3, 2, 2);
        assert_eq!(result.samples, alone.samples);
        assert_eq!(result.peak, alone.peak);
        assert_eq!(result.name, "");
        assert_eq!(result.rms.to_bits(), 0);
    }
}

#[test]
fn a_window_without_a_crossing_is_shown_from_its_start() {
    let w = window(&[0.5, 0.25, 0.75, 1.0]);
    let results = analyze_window(&w, 1, 3);
    assert_eq!(results.len(), 1);
    assert_eq!(results[0].samples, vec![(0, s(0.5)), (1, s(0.25)), (2, s(0.75))]);
}

#[test]
fn a_window_of_no_channels_has_no_analysis() {
    let w = window(&[0.5, 0.25]);
    assert!(analyze_window(&w, 0, 512).is_empty());
    assert_eq!(analyze_window(&[], 2, 512).len(), 2);
    assert!(analyze_window(&[], 2, 512)[1].samples.is_empty());
}

#[test]
fn default_scope_has_no_channels() {
    assert_eq!(Scope::default().len(), 0);
    assert_eq!(Scope::new().len(), 0);
}
