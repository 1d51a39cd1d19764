use audio_cable::consumer::{fill_frames, frame_or_silence};
use audio_cable::producer::enqueue_scaled;
use audio_cable::queue::{sample_queue, MAX_WAIT_MS, RECEIVE_TIMEOUT_MS};

#[test]
fn samples_arrive_in_the_order_sent() {
    let (mut sender, mut receiver) = sample_queue::<i32>();
    assert!(sender.send(7));
    assert!(sender.send(-3));
    assert!(sender.send(11));
    assert_eq!(receiver.receive(), Some(7));
    assert_eq!(receiver.receive(), Some(-3));
    assert_eq!(receiver.receive(), Some(11));
    assert_eq!(receiver.receive(), None);
}

#[test]
fn empty_queue_is_an_underrun() {
    let (_sender, mut receiver) = sample_queue::<u8>();
    assert_eq!(receiver.receive(), None);
    assert_eq!(receiver.receive(), None);
}

#[test]
fn queue_without_sender_is_an_underrun() {
    let (sender, mut receiver) = sample_queue::<u8>();
    drop(sender);
    assert_eq!(receiver.receive(), None);
}

#[test]
fn samples_outlive_their_sender() {
    let (mut sender, mut receiver) = sample_queue::<u8>();
    assert!(sender.send(1));
    assert!(sender.send(2));
    drop(sender);
    assert_eq!(receiver.receive(), Some(1));
    assert_eq!(receiver.receive(), Some(2));
    assert_eq!(receiver.receive(), None);
}

#[test]
fn send_is_refused_without_receiver() {
    let (mut sender, receiver) = sample_queue::<i32>();
    drop(receiver);
    assert!(!sender.send(1));
    assert!(!sender.send(2));
}

#[test]
fn receive_waits_one_millisecond() {
    assert_eq!(RECEIVE_TIMEOUT_MS, 1);
    assert_eq!(MAX_WAIT_MS, 60_000);
    assert!(RECEIVE_TIMEOUT_MS <= MAX_WAIT_MS);
}

fn letter(sample: i32) -> char {
    char::from(b'a' + sample as u8)
}

#[test]
fn enqueue_sends_every_sample_in_order() {
    let (mut sender, mut receiver) = sample_queue::<i32>();
    assert_eq!(enqueue_scaled(&mut sender, &[4, 5, 6, 7], |sample| sample), 4);
    assert_eq!(enqueue_scaled(&mut sender, &[], |sample| sample), 0);
    assert_eq!(enqueue_scaled(&mut sender, &[8], |sample| sample), 1);
    for expected in [4, 5, 6, 7, 8] {
        assert_eq!(receiver.receive(), Some(expected));
    }
    assert_eq!(receiver.receive(), None);
}

#[test]
fn enqueue_scales_each_sample() {
    let (mut sender, mut receiver) = sample_queue::<i64>();
    let native = [1, -2, i32::MAX, i32::MIN];
    assert_eq!(enqueue_scaled(&mut sender, &native, |sample| 3 * i64::from(sample)), 4);
    for expected in [3, -6, 3 * i64::from(i32::MAX), 3 * i64::from(i32::MIN)] {
        assert_eq!(receiver.receive(), Some(expected));
    }
    assert_eq!(receiver.receive(), None);
}

#[test]
fn enqueue_stops_without_receiver() {
    let (mut sender, receiver) = sample_queue::<i32>();
    drop(receiver);
    assert_eq!(enqueue_scaled(&mut sender, &[1, 2, 3], |sample| sample), 0);
}

#[test]
fn three_samples_come_out_as_sent() {
    let (mut sender, mut receiver) = sample_queue::<char>();
    assert_eq!(enqueue_scaled(&mut sender, &[0, 1, 2], letter), 3);
    let mut frames = ['-'; 3];
    assert_eq!(fill_frames(&mut frames, &mut receiver, '-'), 0);
    assert_eq!(frames, ['a', 'b', 'c']);
}

#[test]
fn partial_reads_keep_the_order() {
    let (mut sender, mut receiver) = sample_queue::<char>();
    assert_eq!(enqueue_scaled(&mut sender, &[0, 1], letter), 2);
    let mut first = ['?'; 3];
    assert_eq!(fill_frames(&mut first, &mut receiver, '-'), 1);
    assert_eq!(first, ['a', 'b', '-']);
    assert_eq!(enqueue_scaled(&mut sender, &[2], letter), 1);
    let mut second = ['?'; 2];
    assert_eq!(fill_frames(&mut second, &mut receiver, '-'), 1);
    assert_eq!(second, ['c', '-']);
}

#[test]
fn reads_interleaved_with_sends_keep_the_order() {
    let (mut sender, mut receiver) = sample_queue::<i32>();
    let mut played: Vec<i32> = Vec::new();
    for round in 0..5 {
        let batch = [3 * round, 3 * round + 1, 3 * round + 2];
        assert_eq!(enqueue_scaled(&mut sender, &batch, |sample| sample), 3);
        let mut frames = [-1; 2];
        assert_eq!(fill_frames(&mut frames, &mut receiver, -1), 0);
        played.extend_from_slice(&frames);
    }
    let mut rest = [-1; 6];
    assert_eq!(fill_frames(&mut rest, &mut receiver, -1), 1);
    played.extend_from_slice(&rest);
    let mut expected: Vec<i32> = (0..15).collect();
    expected.push(-1);
    assert_eq!(played, expected);
}

#[test]
fn frame_is_the_sample_or_silence() {
    assert_eq!(frame_or_silence(Some(5), 0), 5);
    assert_eq!(frame_or_silence(None, 0), 0);
    assert_eq!(frame_or_silence(Some(0), 9), 0);
    assert_eq!(frame_or_silence(None, 9), 9);
    assert_eq!(frame_or_silence(Some(-1.5f32), 0.0f32), -1.5f32);
    assert_eq!(frame_or_silence(None, 0.0f32), 0.0f32);
}

#[test]
fn empty_queue_fills_the_buffer_with_silence() {
    let (_sender, mut receiver) = sample_queue::<f32>();
    for _ in 0..4 {
        let mut frames = [1.0f32; 16];
        assert_eq!(fill_frames(&mut frames, &mut receiver, 0.0), 16);
        assert_eq!(frames, [0.0f32; 16]);
    }
}

#[test]
fn abandoned_queue_fills_the_buffer_with_silence() {
    let (sender, mut receiver) = sample_queue::<i16>();
    drop(sender);
    let mut frames = [7i16; 8];
    assert_eq!(fill_frames(&mut frames, &mut receiver, 0), 8);
    assert_eq!(frames, [0i16; 8]);
}

#[test]
fn empty_buffer_takes_nothing() {
    let (mut sender, mut receiver) = sample_queue::<i32>();
    assert!(sender.send(1));
    let mut frames: [i32; 0] = [];
    assert_eq!(fill_frames(&mut frames, &mut receiver, 0), 0);
    assert_eq!(receiver.receive(), Some(1));
}

#[test]
fn underruns_are_counted() {
    let (mut sender, mut receiver) = sample_queue::<i32>();
    assert_eq!(enqueue_scaled(&mut sender, &[1, 2, 3], |sample| sample), 3);
    let mut frames = [9; 5];
    assert_eq!(fill_frames(&mut frames, &mut receiver, 0), 2);
    assert_eq!(frames, [1, 2, 3, 0, 0]);
}

#[test]
fn sample_equal_to_silence_is_no_underrun() {
    let (mut sender, mut receiver) = sample_queue::<i32>();
    assert_eq!(enqueue_scaled(&mut sender, &[0, 0], |sample| sample), 2);
    let mut frames = [9; 2];
    assert_eq!(fill_frames(&mut frames, &mut receiver, 0), 0);
    assert_eq!(frames, [0, 0]);
}
