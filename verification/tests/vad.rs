use typr_lib::vad::{SilenceClock, VadDecision, SILENCE_WINDOW_MS};

const SILENCE_RMS_THRESHOLD: f32 = 0.01;

fn rms(amp: f32, n: usize) -> Vec<f32> {
    (0..n).map(|_| amp).collect()
}

/// Whether a chunk is loud: its RMS energy reaches `threshold`.
fn loud(samples: &[f32], threshold: f32) -> bool {
    if samples.is_empty() {
        return false;
    }
    let sum_sq: f64 = samples.iter().map(|s| (*s as f64) * (*s as f64)).sum();
    let r = (sum_sq / samples.len() as f64).sqrt() as f32;
    r >= threshold
}

fn tick(clock: &mut SilenceClock, samples: &[f32], rate: u32, threshold: f32) -> VadDecision {
    clock.tick(samples.len(), rate, loud(samples, threshold))
}

#[test]
fn pure_silence_accumulates_then_auto_stops() {
    let mut vad = SilenceClock::new();
    for _ in 0..3 {
        assert_eq!(tick(&mut vad, &rms(0.0, 3200), 16_000, SILENCE_RMS_THRESHOLD), VadDecision::Silence);
    }
    assert_eq!(tick(&mut vad, &rms(0.0, 3200), 16_000, SILENCE_RMS_THRESHOLD), VadDecision::AutoStop);
}

#[test]
fn loud_burst_returns_speech_and_resets_accumulator() {
    let mut vad = SilenceClock::new();
    tick(&mut vad, &rms(0.0, 3200), 16_000, SILENCE_RMS_THRESHOLD);
    let decision = tick(&mut vad, &rms(0.5, 3200), 16_000, SILENCE_RMS_THRESHOLD);
    assert_eq!(decision, VadDecision::Speech);
    for _ in 0..3 {
        assert_eq!(tick(&mut vad, &rms(0.0, 3200), 16_000, SILENCE_RMS_THRESHOLD), VadDecision::Silence);
    }
}

#[test]
fn reset_clears_accumulator() {
    let mut vad = SilenceClock::new();
    for _ in 0..3 {
        tick(&mut vad, &rms(0.0, 3200), 16_000, SILENCE_RMS_THRESHOLD);
    }
    vad.reset();
    assert_eq!(tick(&mut vad, &rms(0.0, 3200), 16_000, SILENCE_RMS_THRESHOLD), VadDecision::Silence);
}

#[test]
fn threshold_just_below_speech_counts_as_silence() {
    let mut vad = SilenceClock::with_window(800);
    assert_eq!(tick(&mut vad, &rms(0.04, 3200), 16_000, 0.05), VadDecision::Silence);
}

#[test]
fn empty_chunk_is_silence_and_counts_nothing() {
    let mut vad = SilenceClock::new();
    assert_eq!(vad.tick(0, 16_000, false), VadDecision::Silence);
    assert_eq!(vad.accumulated_silence_ms, 0);
    assert_eq!(vad.silence_window_ms, SILENCE_WINDOW_MS);
}

#[test]
fn chunk_length_is_rounded_down_and_saturates() {
    let mut vad = SilenceClock::with_window(u32::MAX);
    assert_eq!(vad.tick(15, 16_000, false), VadDecision::Silence);
    assert_eq!(vad.accumulated_silence_ms, 0);
    assert_eq!(vad.tick(16_001, 16_000, false), VadDecision::Silence);
    assert_eq!(vad.accumulated_silence_ms, 1000);
    vad.accumulated_silence_ms = u32::MAX - 10;
    assert_eq!(vad.tick(16_000, 16_000, false), VadDecision::AutoStop);
    assert_eq!(vad.accumulated_silence_ms, u32::MAX);
}
