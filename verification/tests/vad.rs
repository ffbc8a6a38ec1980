use voca::audio::vad::{EnergyVad, FrameLevel, VadParams};

const SPEECH_THRESHOLD: f32 = 0.010;
const SILENCE_THRESHOLD: f32 = 0.005;

fn rms(samples: &[f32]) -> f32 {
    if samples.is_empty() {
        return 0.0;
    }
    let mean_sq = samples.iter().map(|&s| s * s).sum::<f32>() / samples.len() as f32;
    mean_sq.sqrt()
}

fn level(frame: &[f32]) -> FrameLevel {
    let energy = rms(frame);
    FrameLevel {
        below_silence: energy < SILENCE_THRESHOLD,
        above_speech: energy >= SPEECH_THRESHOLD,
    }
}

fn silence(n: usize) -> Vec<f32> {
    vec![0.0f32; n]
}

fn tone(n: usize) -> Vec<f32> {
    vec![0.5f32; n]
}

#[test]
fn silence_produces_no_segments() {
    let cfg = VadParams { sample_rate: 16_000, ..Default::default() };
    let mut vad = EnergyVad::new(cfg);
    // 2 seconds of silence
    let segs = vad.push(&silence(cfg.sample_rate as usize * 2), level);
    assert!(segs.is_empty());
    assert!(vad.flush().is_none());
}

#[test]
fn speech_followed_by_silence_yields_one_segment() {
    let cfg = VadParams {
        sample_rate: 16_000,
        speech_hold_frames: 1,
        silence_hold_frames: 2,
    };
    let mut vad = EnergyVad::new(cfg);

    let speech_samples = tone(cfg.sample_rate as usize / 10 * 3); // 300 ms
    let silence_samples = silence(cfg.sample_rate as usize / 10 * 2); // 200 ms

    let mut segs = vad.push(&speech_samples, level);
    segs.extend(vad.push(&silence_samples, level));

    assert_eq!(segs.len(), 1, "expected exactly one speech segment");
    assert!(!segs[0].audio.is_empty());
}

#[test]
fn flush_returns_in_progress_segment() {
    let cfg = VadParams {
        sample_rate: 16_000,
        speech_hold_frames: 1,
        ..Default::default()
    };
    let mut vad = EnergyVad::new(cfg);
    // feed only speech, never silence
    let _segs = vad.push(&tone(cfg.sample_rate as usize / 2), level); // 500 ms
    let seg = vad.flush();
    assert!(seg.is_some(), "flush should return the in-progress segment");
}

#[test]
fn default_timing_values() {
    let p = VadParams::default();
    assert_eq!(p.sample_rate, 16_000);
    assert_eq!(p.speech_hold_frames, 3);
    assert_eq!(p.silence_hold_frames, 20);
}

#[test]
fn segment_is_a_slice_of_the_stream() {
    // 100 Hz: 3 samples per frame
    let cfg = VadParams { sample_rate: 100, speech_hold_frames: 1, silence_hold_frames: 1 };
    let mut vad = EnergyVad::new(cfg);
    let stream = [0.5, 0.4, 0.5, 0.0, 0.0, 0.001];
    let segs = vad.push(&stream, level);
    assert_eq!(segs.len(), 1);
    // the loud frame once, then the quiet frame
    assert_eq!(segs[0].audio, stream.to_vec());
}

#[test]
fn pre_roll_leads_into_the_segment() {
    let cfg = VadParams { sample_rate: 100, speech_hold_frames: 2, silence_hold_frames: 1 };
    let mut vad = EnergyVad::new(cfg);
    // quiet, loud, loud (onset), quiet (end)
    let stream = [0.0, 0.0, 0.0, 0.5, 0.5, 0.5, 0.3, 0.3, 0.3, 0.0, 0.0, 0.0];
    let segs = vad.push(&stream, level);
    assert_eq!(segs.len(), 1);
    // the pre-roll holds up to 2 * 3 * 2 samples: the whole stream so far
    assert_eq!(segs[0].audio, stream.to_vec());
}

#[test]
fn partial_frames_wait_for_more_samples() {
    let cfg = VadParams { sample_rate: 100, speech_hold_frames: 1, silence_hold_frames: 1 };
    let mut vad = EnergyVad::new(cfg);
    assert!(vad.push(&[0.5, 0.5], level).is_empty());
    // completes the loud frame: speech starts, nothing completed yet
    assert!(vad.push(&[0.5, 0.0, 0.0], level).is_empty());
    // completes a quiet frame: speech ends
    let segs = vad.push(&[0.0], level);
    assert_eq!(segs.len(), 1);
    assert_eq!(segs[0].audio, vec![0.5, 0.5, 0.5, 0.0, 0.0, 0.0]);
}

#[test]
fn speech_needs_the_hold_frames() {
    let cfg = VadParams { sample_rate: 100, speech_hold_frames: 2, silence_hold_frames: 1 };
    let mut vad = EnergyVad::new(cfg);
    // loud, quiet, loud: the run of loud frames never reaches two
    let segs = vad.push(&[0.5, 0.5, 0.5, 0.0, 0.0, 0.0, 0.5, 0.5, 0.5], level);
    assert!(segs.is_empty());
    assert!(vad.flush().is_none());
}

#[test]
fn reset_drops_speech_in_progress() {
    let cfg = VadParams { sample_rate: 100, speech_hold_frames: 1, silence_hold_frames: 5 };
    let mut vad = EnergyVad::new(cfg);
    assert!(vad.push(&[0.5, 0.5, 0.5], level).is_empty());
    vad.reset();
    assert!(vad.flush().is_none());
}

#[test]
fn segment_ends_with_the_quiet_frames() {
    let cfg = VadParams { sample_rate: 100, speech_hold_frames: 1, silence_hold_frames: 2 };
    let mut vad = EnergyVad::new(cfg);
    assert!(vad.push(&[0.5, 0.5, 0.5], level).is_empty());
    assert!(vad.push(&[0.0, 0.0, 0.0], level).is_empty());
    let segs = vad.push(&[0.0, 0.0, 0.0], level);
    assert_eq!(segs.len(), 1);
    assert_eq!(
        segs[0].audio,
        vec![0.5, 0.5, 0.5, 0.0, 0.0, 0.0, 0.0, 0.0, 0.0]
    );
    assert!(vad.flush().is_none());
}

#[test]
fn energetic_frame_resets_the_silence_count() {
    let cfg = VadParams { sample_rate: 100, speech_hold_frames: 1, silence_hold_frames: 2 };
    let mut vad = EnergyVad::new(cfg);
    let mut samples = vec![0.5; 3];
    samples.extend([0.0; 3]);
    samples.extend([0.5; 3]);
    samples.extend([0.0; 3]);
    assert!(vad.push(&samples, level).is_empty());
    let seg = vad.flush().expect("still in speech");
    assert_eq!(seg.audio, samples);
}

#[test]
fn zero_hold_starts_speech_on_the_first_loud_frame() {
    let cfg = VadParams { sample_rate: 100, speech_hold_frames: 0, silence_hold_frames: 5 };
    let mut vad = EnergyVad::new(cfg);
    assert!(vad.push(&[0.5, 0.4, 0.5], level).is_empty());
    let seg = vad.flush().expect("speech started on the loud frame");
    assert_eq!(seg.audio, vec![0.5, 0.4, 0.5]);
}

#[test]
fn zero_hold_segment_has_no_pre_roll() {
    let cfg = VadParams { sample_rate: 100, speech_hold_frames: 0, silence_hold_frames: 1 };
    let mut vad = EnergyVad::new(cfg);
    // quiet, loud (onset), quiet (end)
    let stream = [0.0, 0.0, 0.0, 0.5, 0.5, 0.5, 0.0, 0.0, 0.0];
    let segs = vad.push(&stream, level);
    assert_eq!(segs.len(), 1);
    assert_eq!(segs[0].audio, vec![0.5, 0.5, 0.5, 0.0, 0.0, 0.0]);
}

#[test]
fn chunk_boundaries_do_not_matter() {
    let cfg = VadParams { sample_rate: 100, speech_hold_frames: 1, silence_hold_frames: 2 };
    let stream = [0.0, 0.0, 0.0, 0.5, 0.5, 0.5, 0.0, 0.0, 0.0, 0.0, 0.0, 0.0, 0.5, 0.5];
    let mut whole = EnergyVad::new(cfg);
    let segs_whole = whole.push(&stream, level);
    let mut split = EnergyVad::new(cfg);
    let mut segs_split = Vec::new();
    for chunk in [&stream[..2], &stream[2..7], &stream[7..8], &stream[8..]] {
        segs_split.extend(split.push(chunk, level));
    }
    assert_eq!(segs_whole.len(), 1);
    assert_eq!(segs_split.len(), segs_whole.len());
    assert_eq!(segs_split[0].audio, segs_whole[0].audio);
    // the quiet frame before the onset comes in with the pre-roll
    assert_eq!(segs_whole[0].audio, stream[0..12].to_vec());
    // the two detectors answer the next calls alike
    let tail = [0.5, 0.0, 0.0, 0.0];
    assert!(whole.push(&tail, level).is_empty());
    assert!(split.push(&tail, level).is_empty());
    let a = whole.flush().expect("in speech");
    let b = split.flush().expect("in speech");
    assert_eq!(a.audio, b.audio);
    assert_eq!(a.audio, vec![0.5, 0.5, 0.5, 0.0, 0.0, 0.0]);
}

#[test]
fn session_segments_are_disjoint_slices_in_order() {
    let cfg = VadParams { sample_rate: 100, speech_hold_frames: 1, silence_hold_frames: 1 };
    let mut vad = EnergyVad::new(cfg);
    let a = [0.5, 0.5, 0.5, 0.0, 0.0];
    let b = [0.0, 0.0, 0.0, 0.0, 0.5, 0.5, 0.5];
    let mut segs = vad.push(&a, level);
    segs.extend(vad.push(&b, level));
    if let Some(g) = vad.flush() {
        segs.push(g);
    }
    let stream: Vec<f32> = a.iter().chain(b.iter()).copied().collect();
    assert_eq!(segs.len(), 2);
    // loud + quiet frame, then (after a quiet frame that only fills the
    // pre-roll) the pre-roll and the loud frame returned by flush
    assert_eq!(segs[0].audio, stream[0..6].to_vec());
    assert_eq!(segs[1].audio, stream[6..12].to_vec());
}
