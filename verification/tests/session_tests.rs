use autkit::analyzer::{analyze_window, peak, DISPLAY_LENGTH};
use autkit::capture::CaptureBuffer;
use autkit::command::{parse_input, parse_scope, parse_sinout};
use autkit::datum::{Datum, Number};
use autkit::generator::SignalGenerator;
use autkit::router::{sinout_cb, Slot};
use autkit::scalar::Scalar;
use autkit::scope::{Scope, ScopeChannel};
use autkit::window::channel_samples;
use std::sync::{Arc, Mutex};

fn s(x: f32) -> Scalar {
    Scalar::from_bits(x.to_bits())
}

fn f(x: Scalar) -> f32 {
    f32::from_bits(x.to_bits())
}

fn symbol(name: &str) -> Datum {
    Datum::Symbol(name.to_string())
}

fn number(n: u64) -> Datum {
    Datum::Number(Number { unsigned: Some(n), single: s(n as f32) })
}

fn channel_list(channels: &[u64]) -> Datum {
    Datum::List(vec![
        symbol("ch"),
        Datum::List(channels.iter().map(|c| number(*c)).collect()),
    ])
}

fn can_cross_threads<T: Send + 'static>(_: &T) {}

/// Plays `frames` frames of a tone into a buffer of `channels` hardware
/// channels, as the output callback does.
fn play(args: &Datum, rate: u32, channels: usize, frames: usize) -> Vec<f32> {
    let mut params = parse_sinout(args).unwrap();
    params.route_to_all_if_unset(channels);
    let mut generator = SignalGenerator::new(rate);
    let mut plan = vec![Slot { phase: 0, gain: None }; frames * channels];
    sinout_cb(&mut plan, channels, &params, &mut generator);
    plan.iter()
        .map(|slot| match slot.gain {
            None => 0.0,
            Some(gain) => {
                let tone = (slot.phase as f32 * f(params.freq) * 2.0 * std::f32::consts::PI
                    / rate as f32)
                    .sin()
                    * f(params.ampl);
                tone * f(gain)
            }
        })
        .collect()
}

#[test]
fn a_tone_goes_to_its_channels_only() {
    let args = Datum::List(vec![
        symbol("freq"),
        number(1000),
        symbol("ch"),
        Datum::List(vec![number(1)]),
    ]);
    let out = play(&args, 48000, 4, 48);
    for (t, x) in out.iter().enumerate() {
        if t % 4 == 1 {
            let k = (t / 4 + 1) as f32;
            let expected = (k * 1000.0 * 2.0 * std::f32::consts::PI / 48000.0).sin();
            assert!((x - expected).abs() < 1.0e-6);
        } else if t % 4 == 0 {
            // gain zero: the tone is scaled to a zero of its own sign
            assert_eq!(*x, 0.0);
        } else {
            // past the end of the route: silence
            assert_eq!(x.to_bits(), 0.0f32.to_bits());
        }
    }
}

#[test]
fn a_tone_without_channels_goes_everywhere() {
    let out = play(&Datum::List(vec![]), 48000, 2, 100);
    for frame in out.chunks(2) {
        assert_eq!(frame[0], frame[1]);
    }
    assert!(out.iter().any(|x| *x != 0.0));
}

#[test]
fn a_played_tone_is_captured_and_shown() {
    let rate = 48000u32;
    // 480 Hz: a hundred frames to the period
    let tone = Datum::List(vec![symbol("freq"), number(480), symbol("ampl"), number(1)]);
    let played = play(&tone, rate, 2, 4096 + 200);
    let heard: Vec<Scalar> = played.iter().map(|x| s(*x)).collect();

    let input = parse_input(&channel_list(&[1, 0])).unwrap();
    let scope_cmd = parse_scope(&channel_list(&[0, 1])).unwrap();
    let queue = CaptureBuffer::for_one_second(rate, input.channels.len()).unwrap();
    can_cross_threads(&queue);
    let queue = Arc::new(Mutex::new(queue));

    let overrun = queue.lock().unwrap().push_frames(&heard, 2, &input.channels);
    assert!(!overrun);

    let scope = Arc::new(Mutex::new(Scope::new()));
    for ch in &scope_cmd.channels {
        scope.lock().unwrap().push(ScopeChannel::new(&format!("ch{ch}")));
    }

    let mut window: Vec<Scalar> = Vec::new();
    let shown = scope_cmd.channels.len();
    let full = queue.lock().unwrap().drain_into(
        &mut window,
        4096 * shown,
        input.channels.len(),
        &scope_cmd.channels,
    );
    assert!(full);
    assert_eq!(window.len(), 4096 * shown);

    let results = analyze_window(&window, shown, DISPLAY_LENGTH);
    for (index, mut result) in results.into_iter().enumerate() {
        let samples = channel_samples(&window, index, shown);
        let mean_square: f32 = samples.iter().map(|x| f(*x) * f(*x)).sum::<f32>() / samples.len() as f32;
        result.rms = s(mean_square.sqrt());
        scope.lock().unwrap().publish(index, result);
    }

    for index in 0..shown {
        let shown_channel = scope.lock().unwrap().read(index);
        assert_eq!(shown_channel.samples.len(), DISPLAY_LENGTH);
        // the window starts where the tone rises through zero
        assert!(f(shown_channel.samples[0].1) > 0.0);
        assert!(f(shown_channel.samples[0].1) < 0.1);
        assert_eq!(shown_channel.samples[0].0, 0);
        assert_eq!(shown_channel.samples[511].0, 511);
        assert!((f(shown_channel.peak) - 1.0).abs() < 0.01);
        assert!((f(shown_channel.rms) - 1.0 / 2.0f32.sqrt()).abs() < 0.01);
    }
    let left = scope.lock().unwrap().read(0);
    let right = scope.lock().unwrap().read(1);
    assert_eq!(left.samples, right.samples);
}

#[test]
fn the_level_of_one_channel_is_monitored() {
    let rate = 48000u32;
    let tone = Datum::List(vec![symbol("freq"), number(480), symbol("ampl"), number(1)]);
    let played = play(&tone, rate, 1, 4000);
    let heard: Vec<Scalar> = played.iter().map(|x| s(0.5 * *x)).collect();
    let mut queue = CaptureBuffer::for_one_second(rate, 1).unwrap();
    assert!(!queue.push_frames(&heard, 1, &vec![0]));
    let mut window: Vec<Scalar> = Vec::new();
    assert!(!queue.drain_into(&mut window, 4096, 1, &vec![0]));
    assert_eq!(window.len(), 4000);
    assert!(!queue.push_frames(&heard, 1, &vec![0]));
    assert!(queue.drain_into(&mut window, 4096, 1, &vec![0]));
    assert_eq!(window.len(), 4096);
    assert_eq!(queue.occupied_len(), 4000 - 96);
    assert!((f(peak(&window)) - 0.5).abs() < 0.005);
}

#[test]
fn a_second_of_capture_overruns_after_a_second() {
    let mut queue = CaptureBuffer::for_one_second(1000, 2).unwrap();
    let second: Vec<Scalar> = (0..2000).map(|i| s(i as f32)).collect();
    assert!(!queue.push_frames(&second, 2, &vec![0, 1]));
    assert_eq!(queue.occupied_len(), 2000);
    assert!(queue.push_frames(&second[..2], 2, &vec![0, 1]));
    assert_eq!(queue.occupied_len(), 2000);
    let frame = queue.pop_frame(2).unwrap();
    assert_eq!(frame, vec![s(0.0), s(1.0)]);
    assert!(!queue.push_frames(&second[..2], 2, &vec![0, 1]));
    assert!(queue.push_frames(&second[..2], 2, &vec![0]));
}
