use autkit::capture::CaptureBuffer;
use autkit::scalar::Scalar;

fn s(x: f32) -> Scalar {
    Scalar::from_bits(x.to_bits())
}

fn ramp(n: usize) -> Vec<Scalar> {
    (0..n).map(|i| s(i as f32 + 1.0)).collect()
}

#[test]
fn new_queue_is_empty() {
    let q = CaptureBuffer::new(8);
    assert_eq!(q.occupied_len(), 0);
}

#[test]
fn pushes_count_up_to_the_capacity() {
    let mut q = CaptureBuffer::new(3);
    assert!(q.try_push(s(1.0)));
    assert_eq!(q.occupied_len(), 1);
    assert!(q.try_push(s(2.0)));
    assert!(q.try_push(s(3.0)));
    assert_eq!(q.occupied_len(), 3);
    assert!(!q.try_push(s(4.0)));
    assert_eq!(q.occupied_len(), 3);
}

#[test]
fn samples_come_out_in_the_order_they_went_in() {
    let mut q = CaptureBuffer::new(4);
    for x in ramp(4) {
        assert!(q.try_push(x));
    }
    assert_eq!(q.pop_frame(3), Some(vec![s(1.0), s(2.0), s(3.0)]));
    assert_eq!(q.occupied_len(), 1);
    assert!(q.try_push(s(9.0)));
    assert!(q.try_push(s(10.0)));
    assert_eq!(q.pop_frame(3), Some(vec![s(4.0), s(9.0), s(10.0)]));
    assert_eq!(q.occupied_len(), 0);
}

#[test]
fn a_frame_is_taken_whole_or_not_at_all() {
    let mut q = CaptureBuffer::new(4);
    assert!(q.try_push(s(1.0)));
    assert_eq!(q.pop_frame(2), None);
    assert_eq!(q.occupied_len(), 1);
    assert!(q.try_push(s(2.0)));
    assert_eq!(q.pop_frame(2), Some(vec![s(1.0), s(2.0)]));
}

#[test]
fn a_frame_of_nothing_is_always_there() {
    let mut q = CaptureBuffer::new(4);
    assert_eq!(q.pop_frame(0), Some(vec![]));
    assert!(q.try_push(s(1.0)));
    assert_eq!(q.pop_frame(0), Some(vec![]));
    assert_eq!(q.occupied_len(), 1);
}

#[test]
fn overfilling_sets_the_overrun_and_keeps_the_first_samples() {
    let mut q = CaptureBuffer::new(5);
    let data = ramp(8);
    let overrun = q.push_frames(&data, 1, &vec![0]);
    assert!(overrun);
    assert_eq!(q.occupied_len(), 5);
    assert_eq!(q.pop_frame(5), Some(ramp(5)));
}

#[test]
fn filling_to_the_brim_is_no_overrun() {
    let mut q = CaptureBuffer::new(8);
    let overrun = q.push_frames(&ramp(8), 1, &vec![0]);
    assert!(!overrun);
    assert_eq!(q.occupied_len(), 8);
    let overrun = q.push_frames(&ramp(1), 1, &vec![0]);
    assert!(overrun);
    assert_eq!(q.occupied_len(), 8);
}

#[test]
fn overrun_is_reported_for_its_own_push_only() {
    let mut q = CaptureBuffer::new(4);
    assert!(q.push_frames(&ramp(6), 1, &vec![0]));
    assert_eq!(q.pop_frame(4), Some(ramp(4)));
    assert!(!q.push_frames(&ramp(2), 1, &vec![0]));
    assert_eq!(q.occupied_len(), 2);
}

#[test]
fn only_the_selected_channels_are_pushed() {
    let mut q = CaptureBuffer::new(16);
    // three frames of four channels
    let data: Vec<Scalar> = (0..12).map(|i| s(i as f32)).collect();
    let overrun = q.push_frames(&data, 4, &vec![3, 1]);
    assert!(!overrun);
    assert_eq!(
        q.pop_frame(6),
        Some(vec![s(3.0), s(1.0), s(7.0), s(5.0), s(11.0), s(9.0)])
    );
}

#[test]
fn a_channel_selected_twice_is_pushed_twice() {
    let mut q = CaptureBuffer::new(16);
    let data: Vec<Scalar> = (0..4).map(|i| s(i as f32)).collect();
    assert!(!q.push_frames(&data, 2, &vec![0, 0]));
    assert_eq!(q.pop_frame(4), Some(vec![s(0.0), s(0.0), s(2.0), s(2.0)]));
}

#[test]
fn samples_after_the_last_whole_frame_are_not_pushed() {
    let mut q = CaptureBuffer::new(16);
    let data: Vec<Scalar> = (0..7).map(|i| s(i as f32)).collect();
    assert!(!q.push_frames(&data, 3, &vec![0]));
    assert_eq!(q.occupied_len(), 2);
    assert_eq!(q.pop_frame(2), Some(vec![s(0.0), s(3.0)]));
}

#[test]
fn no_selection_pushes_nothing() {
    let mut q = CaptureBuffer::new(4);
    assert!(!q.push_frames(&ramp(8), 2, &vec![]));
    assert_eq!(q.occupied_len(), 0);
    assert!(!q.push_frames(&ramp(8), 0, &vec![]));
}

#[test]
fn one_second_of_two_channels() {
    let q = CaptureBuffer::for_one_second(48000, 2).unwrap();
    assert_eq!(q.occupied_len(), 0);
    let mut q = CaptureBuffer::for_one_second(3, 2).unwrap();
    assert!(q.push_frames(&ramp(7), 1, &vec![0]));
    assert_eq!(q.occupied_len(), 6);
}

#[test]
fn one_second_of_nothing_is_no_queue() {
    assert!(CaptureBuffer::for_one_second(48000, 0).is_none());
    assert!(CaptureBuffer::for_one_second(0, 2).is_none());
    assert!(CaptureBuffer::for_one_second(u32::MAX, usize::MAX).is_none());
    assert!(CaptureBuffer::for_one_second(2, usize::MAX / 8).is_none());
}

#[test]
fn drain_fills_the_window_to_its_target() {
    let mut q = CaptureBuffer::new(32);
    let data: Vec<Scalar> = (0..12).map(|i| s(i as f32)).collect();
    assert!(!q.push_frames(&data, 1, &vec![0]));
    let mut window = Vec::new();
    // frames of two samples, both shown, four samples wanted
    let full = q.drain_into(&mut window, 4, 2, &vec![0, 1]);
    assert!(full);
    assert_eq!(window, vec![s(0.0), s(1.0), s(2.0), s(3.0)]);
    assert_eq!(q.occupied_len(), 8);
}

#[test]
fn drain_stops_when_no_whole_frame_is_left() {
    let mut q = CaptureBuffer::new(32);
    let data: Vec<Scalar> = (0..5).map(|i| s(i as f32)).collect();
    assert!(!q.push_frames(&data, 1, &vec![0]));
    let mut window = Vec::new();
    let full = q.drain_into(&mut window, 100, 2, &vec![1]);
    assert!(!full);
    assert_eq!(window, vec![s(1.0), s(3.0)]);
    assert_eq!(q.occupied_len(), 1);
    // the rest of the frame arrives
    assert!(q.try_push(s(5.0)));
    let full = q.drain_into(&mut window, 3, 2, &vec![1]);
    assert!(full);
    assert_eq!(window, vec![s(1.0), s(3.0), s(5.0)]);
    assert_eq!(q.occupied_len(), 0);
}

#[test]
fn drain_of_a_full_window_takes_nothing() {
    let mut q = CaptureBuffer::new(8);
    assert!(!q.push_frames(&ramp(4), 1, &vec![0]));
    let mut window = ramp(2);
    assert!(q.drain_into(&mut window, 2, 1, &vec![0]));
    assert_eq!(window, ramp(2));
    assert_eq!(q.occupied_len(), 4);
}

#[test]
fn drain_picks_in_the_order_given() {
    let mut q = CaptureBuffer::new(8);
    let data: Vec<Scalar> = (0..6).map(|i| s(i as f32)).collect();
    assert!(!q.push_frames(&data, 1, &vec![0]));
    let mut window = Vec::new();
    assert!(q.drain_into(&mut window, 4, 3, &vec![2, 0]));
    assert_eq!(window, vec![s(2.0), s(0.0), s(5.0), s(3.0)]);
}

#[test]
fn drain_with_frames_of_nothing_takes_nothing() {
    let mut q = CaptureBuffer::new(8);
    assert!(!q.push_frames(&ramp(4), 1, &vec![0]));
    let mut window = Vec::new();
    assert!(!q.drain_into(&mut window, 2, 0, &vec![]));
    assert!(window.is_empty());
    assert_eq!(q.occupied_len(), 4);
}

#[test]
fn drain_without_picks_empties_the_queue_of_whole_frames() {
    let mut q = CaptureBuffer::new(8);
    assert!(!q.push_frames(&ramp(5), 1, &vec![0]));
    let mut window = Vec::new();
    assert!(!q.drain_into(&mut window, 1, 2, &vec![]));
    assert!(window.is_empty());
    assert_eq!(q.occupied_len(), 1);
}
