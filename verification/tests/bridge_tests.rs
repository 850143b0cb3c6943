use audio_pipeline::bridge::latest_of;
use audio_pipeline::bridge::AudioBridge;

/// The render loop's remap of a raw loudness sample into the unit range.
fn remap(sample: f32) -> f32 {
    (sample + 1.0) / 2.0
}

/// The audio callback's reduction: the arithmetic mean of a delivered buffer.
fn mean(buffer: &[f32]) -> f32 {
    buffer.iter().copied().sum::<f32>() / buffer.len() as f32
}

#[test]
fn empty_drain_yields_nothing() {
    let mut bridge = AudioBridge::new();
    assert_eq!(bridge.drain(), Vec::<u32>::new());
    // Draining is not destructive of anything but the queue: it stays usable.
    assert_eq!(bridge.drain(), Vec::<u32>::new());
    assert_eq!(bridge.pending(), 0);
}

#[test]
fn empty_buffer_emits_no_sample() {
    let mut bridge = AudioBridge::new();
    bridge.on_buffer(0, 123);
    assert_eq!(bridge.pending(), 0);
    assert_eq!(bridge.drain(), Vec::<u32>::new());
}

#[test]
fn samples_drain_in_production_order() {
    let mut bridge = AudioBridge::new();
    bridge.on_buffer(1, 10);
    bridge.on_buffer(1, 20);
    bridge.on_buffer(1, 30);
    assert_eq!(bridge.pending(), 3);
    assert_eq!(bridge.drain(), vec![10, 20, 30]);
    assert_eq!(bridge.pending(), 0);
}

#[test]
fn end_to_end_three_callbacks() {
    // Buffers delivered to the callback: mean 0.0, then empty, then mean 1.0.
    let first = [0.2f32, -0.2, 0.4, -0.4];
    let third = [1.0f32, 1.0];

    let mut bridge = AudioBridge::new();
    bridge.on_buffer(first.len(), mean(&first).to_bits());
    bridge.on_buffer(0, 0);
    bridge.on_buffer(third.len(), mean(&third).to_bits());

    let drained = bridge.drain();
    assert_eq!(drained.len(), 2);
    assert_eq!(f32::from_bits(drained[0]), 0.0);
    assert_eq!(f32::from_bits(drained[1]), 1.0);
    assert_eq!(remap(f32::from_bits(drained[0])), 0.5);
    assert_eq!(remap(f32::from_bits(drained[1])), 1.0);
    assert_eq!(latest_of(&drained), Some(1.0f32.to_bits()));
}

#[test]
fn repeated_start_is_idempotent() {
    let mut bridge = AudioBridge::new();
    assert!(!bridge.is_playing());
    // Only the first request actually starts the stream.
    assert!(bridge.ensure_playing());
    assert!(bridge.is_playing());

    bridge.on_buffer(1, 11);
    // Per-frame re-starts neither restart the stream nor touch the queue.
    assert!(!bridge.ensure_playing());
    assert!(!bridge.ensure_playing());
    bridge.on_buffer(1, 22);
    assert!(!bridge.ensure_playing());

    assert_eq!(bridge.drain(), vec![11, 22]);
    assert!(bridge.is_playing());
}

#[test]
fn remap_endpoints() {
    assert_eq!(remap(-1.0), 0.0);
    assert_eq!(remap(1.0), 1.0);
    assert_eq!(remap(0.0), 0.5);
}

#[test]
fn latest_of_takes_the_last_sample() {
    assert_eq!(latest_of(&Vec::new()), None);
    assert_eq!(latest_of(&vec![5]), Some(5));
    assert_eq!(latest_of(&vec![1, 2, 3]), Some(3));
}
