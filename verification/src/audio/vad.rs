//! Energy-based voice activity detection (VAD).
//!
//! Splits a continuous sample stream into speech segments.  Samples are
//! buffered and processed in 30 ms frames; each frame is classified by its
//! energy (below the silence threshold, at or above the speech threshold)
//! by a caller-supplied classifier, and a small state machine turns the
//! classified frames into segments:
//! - `speech_hold_frames` consecutive energetic frames confirm speech start;
//! - `silence_hold_frames` consecutive quiet frames confirm speech end;
//! - a pre-roll window keeps the frames just before speech was confirmed.
//!
//! The detector is generic over the sample type; the energy measure and the
//! thresholds live in the classifier.
use vstd::prelude::*;
use crate::audio::ring_buffer::keep_last;

verus! {

/// How a frame's energy compares with the two thresholds.
#[derive(Clone, Copy, Debug, PartialEq, Eq, Structural)]
pub struct FrameLevel {
    /// The energy is below the silence threshold.
    pub below_silence: bool,
    /// The energy is at or above the speech threshold.
    pub above_speech: bool,
}

/// Frame timing of the detector.
#[derive(Clone, Copy, Debug)]
pub struct VadParams {
    /// Sample rate of the audio fed in (Hz).  Usually 16 000.
    pub sample_rate: u32,
    /// Consecutive speech frames required to declare speech started.
    pub speech_hold_frames: usize,
    /// Consecutive silent frames required to declare speech ended.
    pub silence_hold_frames: usize,
}

impl Default for VadParams {
    /// The default timing: 16 kHz, 3 frames (90 ms) onset confirmation,
    /// 20 frames (600 ms) trailing silence.
    fn default() -> (p: Self)
        ensures
            p.sample_rate == 16_000,
            p.speech_hold_frames == 3,
            p.silence_hold_frames == 20,
    {
        VadParams { sample_rate: 16_000, speech_hold_frames: 3, silence_hold_frames: 20 }
    }
}

/// A completed speech utterance.
pub struct SpeechSegment<T> {
    /// The samples of the utterance.
    pub audio: Vec<T>,
}

/// Samples per 30 ms frame at `sample_rate`.
pub open spec fn frame_len(sample_rate: u32) -> nat {
    (sample_rate as nat * 30) / 1000
}

/// The detector's state apart from buffered partial frames.
pub struct VadSnapshot<T> {
    /// Recent frames before speech was confirmed.
    pub pre_roll: Seq<T>,
    /// Speech has started and not ended.
    pub in_speech: bool,
    /// Consecutive energetic frames seen.
    pub speech_hold: nat,
    /// Consecutive quiet frames seen while in speech.
    pub silence_hold: nat,
    /// The speech accumulated so far.
    pub speech_buf: Seq<T>,
}

/// Adds one to a counter that stops at `usize::MAX`.
pub open spec fn bump(n: nat) -> nat {
    if n < usize::MAX {
        n + 1
    } else {
        n
    }
}

/// One frame through the state machine: the next state and, when speech
/// ended on this frame, the completed segment.
pub open spec fn step<T>(p: VadParams, fs: nat, s: VadSnapshot<T>, frame: Seq<T>, level: FrameLevel) -> (
    VadSnapshot<T>,
    Option<Seq<T>>,
) {
    if s.in_speech {
        let buf = s.speech_buf + frame;
        if level.below_silence {
            let sh = s.silence_hold + 1;
            if sh >= p.silence_hold_frames {
                (
                    VadSnapshot {
                        pre_roll: Seq::empty(),
                        in_speech: false,
                        speech_hold: 0,
                        silence_hold: 0,
                        speech_buf: Seq::empty(),
                    },
                    Some(buf),
                )
            } else {
                (VadSnapshot { silence_hold: sh, speech_buf: buf, ..s }, None)
            }
        } else {
            (VadSnapshot { silence_hold: 0, speech_buf: buf, ..s }, None)
        }
    } else {
        let pr = keep_last(s.pre_roll + frame, p.speech_hold_frames as nat * fs * 2);
        if level.above_speech {
            let h = bump(s.speech_hold);
            if h >= p.speech_hold_frames {
                // the pre-roll, which ends with this frame, becomes the
                // speech buffer; with no pre-roll window the buffer starts
                // with this frame alone
                (
                    VadSnapshot {
                        pre_roll: Seq::empty(),
                        in_speech: true,
                        speech_hold: h,
                        silence_hold: 0,
                        speech_buf: if p.speech_hold_frames == 0 {
                            frame
                        } else {
                            pr
                        },
                    },
                    None,
                )
            } else {
                (VadSnapshot { pre_roll: pr, speech_hold: h, ..s }, None)
            }
        } else {
            (VadSnapshot { pre_roll: pr, speech_hold: 0, ..s }, None)
        }
    }
}

/// The whole frames at the front of `s`, `fs` samples each.
pub open spec fn frames<T>(s: Seq<T>, fs: nat) -> Seq<Seq<T>>
    decreases s.len(),
{
    if fs == 0 || s.len() < fs {
        Seq::empty()
    } else {
        seq![s.take(fs as int)] + frames(s.skip(fs as int), fs)
    }
}

/// What is left of `s` after its whole frames.
pub open spec fn remainder<T>(s: Seq<T>, fs: nat) -> Seq<T>
    decreases s.len(),
{
    if fs == 0 || s.len() < fs {
        s
    } else {
        remainder(s.skip(fs as int), fs)
    }
}

/// A run of frames with their levels through the state machine: the final
/// state and the completed segments, in order.
pub open spec fn run<T>(
    p: VadParams,
    fs: nat,
    s: VadSnapshot<T>,
    fr: Seq<Seq<T>>,
    levels: Seq<FrameLevel>,
) -> (VadSnapshot<T>, Seq<Seq<T>>)
    decreases fr.len(),
{
    if fr.len() == 0 || levels.len() != fr.len() {
        (s, Seq::empty())
    } else {
        let prev = run(p, fs, s, fr.drop_last(), levels.drop_last());
        let next = step(p, fs, prev.0, fr.last(), levels.last());
        match next.1 {
            Some(seg) => (next.0, prev.1.push(seg)),
            None => (next.0, prev.1),
        }
    }
}

/// The classifier `f` can answer `level` for a frame holding `frame`.
pub open spec fn classified<T, F: Fn(&[T]) -> FrameLevel>(
    f: F,
    frame: Seq<T>,
    level: FrameLevel,
) -> bool {
    exists|sl: &[T]| sl@ == frame && #[trigger] call_ensures(f, (sl,), level)
}

/// `levels` are answers of the classifier `f` for the frames of `input`,
/// and running those frames with those levels from `s0` gives the state
/// `s1` and the segments `out`.
pub open spec fn explains<T, F: Fn(&[T]) -> FrameLevel>(
    f: F,
    p: VadParams,
    fs: nat,
    s0: VadSnapshot<T>,
    input: Seq<T>,
    levels: Seq<FrameLevel>,
    s1: VadSnapshot<T>,
    out: Seq<Seq<T>>,
) -> bool {
    let fr = frames(input, fs);
    &&& levels.len() == fr.len()
    &&& forall|i: int| 0 <= i < fr.len() ==> classified(f, #[trigger] fr[i], levels[i])
    &&& run(p, fs, s0, fr, levels) == (s1, out)
}

/// The audio of each segment.
pub open spec fn segment_audio<T>(segs: Seq<SpeechSegment<T>>) -> Seq<Seq<T>> {
    segs.map_values(|g: SpeechSegment<T>| g.audio@)
}

/// What `flush` does to a state: the next state and the segment returned.
pub open spec fn flush_spec<T>(s: VadSnapshot<T>) -> (VadSnapshot<T>, Option<Seq<T>>) {
    if s.in_speech && s.speech_buf.len() > 0 {
        (VadSnapshot { in_speech: false, speech_buf: Seq::empty(), ..s }, Some(s.speech_buf))
    } else {
        (s, None)
    }
}

/// The start state: nothing buffered, not in speech.
pub open spec fn initial<T>() -> VadSnapshot<T> {
    VadSnapshot {
        pre_roll: Seq::empty(),
        in_speech: false,
        speech_hold: 0,
        silence_hold: 0,
        speech_buf: Seq::empty(),
    }
}

/// Every frame of `s` holds exactly `fs` samples.
pub proof fn lemma_frames_len<T>(s: Seq<T>, fs: nat)
    ensures
        forall|i: int| 0 <= i < frames(s, fs).len() ==> (#[trigger] frames(s, fs)[i]).len() == fs,
    decreases s.len(),
{
    if fs > 0 && s.len() >= fs {
        lemma_frames_len(s.skip(fs as int), fs);
        let f = frames(s, fs);
        assert forall|i: int| 0 <= i < f.len() implies (#[trigger] f[i]).len() == fs by {
            if i > 0 {
                assert(f[i] == frames(s.skip(fs as int), fs)[i - 1]);
            }
        }
    }
}

/// Frames with no energetic frame among them, fed to a detector that is not
/// in speech, complete no segment and never start speech.
pub proof fn lemma_quiet_frames_no_segment<T>(
    p: VadParams,
    fs: nat,
    s: VadSnapshot<T>,
    fr: Seq<Seq<T>>,
    levels: Seq<FrameLevel>,
)
    requires
        !s.in_speech,
        levels.len() == fr.len(),
        forall|i: int| 0 <= i < levels.len() ==> !(#[trigger] levels[i]).above_speech,
    ensures
        !run(p, fs, s, fr, levels).0.in_speech,
        run(p, fs, s, fr, levels).1.len() == 0,
    decreases fr.len(),
{
    if fr.len() > 0 {
        let ls = levels.drop_last();
        assert forall|i: int| 0 <= i < ls.len() implies !(#[trigger] ls[i]).above_speech by {
            assert(ls[i] == levels[i]);
        }
        lemma_quiet_frames_no_segment(p, fs, s, fr.drop_last(), ls);
        assert(!levels.last().above_speech);
    }
}

/// With frames of `fs > 0` samples, every completed segment holds at least
/// one frame, and a detector in speech always has buffered audio (so `flush`
/// then returns a segment).
pub proof fn lemma_segments_hold_a_frame<T>(
    p: VadParams,
    fs: nat,
    s: VadSnapshot<T>,
    fr: Seq<Seq<T>>,
    levels: Seq<FrameLevel>,
)
    requires
        fs > 0,
        s.in_speech ==> s.speech_buf.len() >= fs,
        levels.len() == fr.len(),
        forall|i: int| 0 <= i < fr.len() ==> (#[trigger] fr[i]).len() == fs,
    ensures
        forall|j: int|
            0 <= j < run(p, fs, s, fr, levels).1.len() ==> (#[trigger] run(
                p,
                fs,
                s,
                fr,
                levels,
            ).1[j]).len() >= fs,
        run(p, fs, s, fr, levels).0.in_speech ==> run(p, fs, s, fr, levels).0.speech_buf.len()
            >= fs,
    decreases fr.len(),
{
    if fr.len() > 0 {
        let f2 = fr.drop_last();
        assert forall|i: int| 0 <= i < f2.len() implies (#[trigger] f2[i]).len() == fs by {
            assert(f2[i] == fr[i]);
        }
        lemma_segments_hold_a_frame(p, fs, s, f2, levels.drop_last());
        assert(fr.last().len() == fs);
        let keep = p.speech_hold_frames as nat * fs * 2;
        if p.speech_hold_frames >= 1 {
            assert(keep >= fs) by (nonlinear_arith)
                requires
                    p.speech_hold_frames >= 1,
                    keep == p.speech_hold_frames as nat * fs * 2,
            ;
        }
    }
}

/// The pre-roll never holds more than `speech_hold_frames * fs * 2` samples
/// once a frame has been through the state machine.
pub proof fn lemma_pre_roll_bounded<T>(
    p: VadParams,
    fs: nat,
    s: VadSnapshot<T>,
    frame: Seq<T>,
    level: FrameLevel,
)
    requires
        s.pre_roll.len() <= p.speech_hold_frames as nat * fs * 2,
    ensures
        step(p, fs, s, frame, level).0.pre_roll.len() <= p.speech_hold_frames as nat * fs * 2,
{
}

/// `flush` on a detector that is not in speech returns nothing and changes
/// nothing.
pub proof fn lemma_flush_outside_speech<T>(s: VadSnapshot<T>)
    requires
        !s.in_speech,
    ensures
        flush_spec(s) == (s, Option::<Seq<T>>::None),
{
}

/// The frames of `fr` joined end to end.
pub open spec fn concat<T>(fr: Seq<Seq<T>>) -> Seq<T>
    decreases fr.len(),
{
    if fr.len() == 0 {
        Seq::empty()
    } else {
        concat(fr.drop_last()) + fr.last()
    }
}

/// Speech onset: from a detector outside speech with no energetic frame
/// counted, `speech_hold_frames` consecutive energetic frames start speech
/// on the last of them, and fewer do not; no segment is completed.
pub proof fn lemma_onset<T>(
    p: VadParams,
    fs: nat,
    s: VadSnapshot<T>,
    fr: Seq<Seq<T>>,
    levels: Seq<FrameLevel>,
)
    requires
        !s.in_speech,
        s.speech_hold == 0,
        p.speech_hold_frames >= 1,
        levels.len() == fr.len(),
        fr.len() <= p.speech_hold_frames,
        forall|i: int| 0 <= i < levels.len() ==> (#[trigger] levels[i]).above_speech,
    ensures
        run(p, fs, s, fr, levels).1.len() == 0,
        run(p, fs, s, fr, levels).0.in_speech == (fr.len() == p.speech_hold_frames),
        !run(p, fs, s, fr, levels).0.in_speech ==> run(p, fs, s, fr, levels).0.speech_hold
            == fr.len(),
    decreases fr.len(),
{
    if fr.len() > 0 {
        let ls = levels.drop_last();
        assert forall|i: int| 0 <= i < ls.len() implies (#[trigger] ls[i]).above_speech by {
            assert(ls[i] == levels[i]);
        }
        lemma_onset(p, fs, s, fr.drop_last(), ls);
        assert(levels.last().above_speech);
    }
}

/// Outside speech, a frame that is not energetic starts nothing, completes
/// nothing, and resets the count of energetic frames to zero — whether it is
/// quiet or between the two thresholds.
pub proof fn lemma_non_energetic_frame_resets<T>(
    p: VadParams,
    fs: nat,
    s: VadSnapshot<T>,
    frame: Seq<T>,
    level: FrameLevel,
)
    requires
        !s.in_speech,
        !level.above_speech,
    ensures
        !step(p, fs, s, frame, level).0.in_speech,
        step(p, fs, s, frame, level).0.speech_hold == 0,
        step(p, fs, s, frame, level).1 is None,
{
}

/// Outside speech, an energetic frame adds one to the count of energetic
/// frames, and speech starts exactly when the count reaches
/// `speech_hold_frames`.
pub proof fn lemma_energetic_frame_counts<T>(
    p: VadParams,
    fs: nat,
    s: VadSnapshot<T>,
    frame: Seq<T>,
    level: FrameLevel,
)
    requires
        !s.in_speech,
        level.above_speech,
        s.speech_hold < usize::MAX,
    ensures
        step(p, fs, s, frame, level).1 is None,
        step(p, fs, s, frame, level).0.in_speech == (s.speech_hold + 1 >= p.speech_hold_frames),
        !step(p, fs, s, frame, level).0.in_speech ==> step(p, fs, s, frame, level).0.speech_hold
            == s.speech_hold + 1,
{
}

/// Some frame among `levels[i..i + k]` is not energetic.
pub open spec fn has_non_energetic(levels: Seq<FrameLevel>, i: int, k: int) -> bool {
    exists|j: int| i <= j < i + k && !(#[trigger] levels[j]).above_speech
}

/// No `k` consecutive levels are all energetic.
pub open spec fn no_energetic_run(levels: Seq<FrameLevel>, k: int) -> bool {
    forall|i: int| 0 <= i && i + k <= levels.len() ==> #[trigger] has_non_energetic(levels, i, k)
}

/// The number of energetic levels at the end of `levels`.
pub open spec fn trailing_energetic(levels: Seq<FrameLevel>) -> nat
    decreases levels.len(),
{
    if levels.len() == 0 {
        0
    } else if levels.last().above_speech {
        trailing_energetic(levels.drop_last()) + 1
    } else {
        0
    }
}

proof fn lemma_trailing_energetic(levels: Seq<FrameLevel>)
    ensures
        trailing_energetic(levels) <= levels.len(),
        forall|j: int|
            levels.len() - trailing_energetic(levels) <= j < levels.len()
                ==> (#[trigger] levels[j]).above_speech,
    decreases levels.len(),
{
    if levels.len() > 0 {
        let l2 = levels.drop_last();
        lemma_trailing_energetic(l2);
        assert forall|j: int|
            levels.len() - trailing_energetic(levels) <= j < levels.len()
                implies (#[trigger] levels[j]).above_speech by {
            if j < levels.len() - 1 {
                assert(levels[j] == l2[j]);
            }
        }
    }
}

/// Speech starts only on `speech_hold_frames` consecutive energetic frames:
/// from a detector outside speech with no energetic frame counted, frames
/// whose levels never hold that many energetic frames in a row never start
/// speech and complete no segment; the count is the number of energetic
/// frames at the end.
pub proof fn lemma_onset_needs_consecutive<T>(
    p: VadParams,
    fs: nat,
    s: VadSnapshot<T>,
    fr: Seq<Seq<T>>,
    levels: Seq<FrameLevel>,
)
    requires
        !s.in_speech,
        s.speech_hold == 0,
        p.speech_hold_frames >= 1,
        levels.len() == fr.len(),
        no_energetic_run(levels, p.speech_hold_frames as int),
    ensures
        !run(p, fs, s, fr, levels).0.in_speech,
        run(p, fs, s, fr, levels).1.len() == 0,
        run(p, fs, s, fr, levels).0.speech_hold == trailing_energetic(levels),
    decreases fr.len(),
{
    let k = p.speech_hold_frames as int;
    if fr.len() > 0 {
        let l2 = levels.drop_last();
        assert forall|i: int| 0 <= i && i + k <= l2.len() implies #[trigger] has_non_energetic(
            l2,
            i,
            k,
        ) by {
            assert(has_non_energetic(levels, i, k));
            let j = choose|j: int| i <= j < i + k && !(#[trigger] levels[j]).above_speech;
            assert(l2[j] == levels[j]);
        }
        lemma_onset_needs_consecutive(p, fs, s, fr.drop_last(), l2);
        lemma_trailing_energetic(levels);
        let t = trailing_energetic(levels);
        if t >= k {
            let i = levels.len() - k;
            assert(has_non_energetic(levels, i, k));
            let j = choose|j: int| i <= j < i + k && !(#[trigger] levels[j]).above_speech;
            assert(levels[j].above_speech);
        }
        assert(t < k);
    }
}

/// Speech end: from a detector in speech with no quiet frame counted,
/// `silence_hold_frames` consecutive quiet frames end speech on the last of
/// them and complete exactly one segment — the speech buffer followed by
/// those quiet frames; fewer keep the detector in speech, buffering them.
pub proof fn lemma_speech_end<T>(
    p: VadParams,
    fs: nat,
    s: VadSnapshot<T>,
    fr: Seq<Seq<T>>,
    levels: Seq<FrameLevel>,
)
    requires
        s.in_speech,
        s.silence_hold == 0,
        p.silence_hold_frames >= 1,
        levels.len() == fr.len(),
        fr.len() <= p.silence_hold_frames,
        forall|i: int| 0 <= i < levels.len() ==> (#[trigger] levels[i]).below_silence,
    ensures
        fr.len() < p.silence_hold_frames ==> {
            &&& run(p, fs, s, fr, levels).0.in_speech
            &&& run(p, fs, s, fr, levels).0.silence_hold == fr.len()
            &&& run(p, fs, s, fr, levels).0.speech_buf == s.speech_buf + concat(fr)
            &&& run(p, fs, s, fr, levels).1.len() == 0
        },
        fr.len() == p.silence_hold_frames ==> {
            &&& !run(p, fs, s, fr, levels).0.in_speech
            &&& run(p, fs, s, fr, levels).1 == seq![s.speech_buf + concat(fr)]
        },
    decreases fr.len(),
{
    if fr.len() > 0 {
        let ls = levels.drop_last();
        let f2 = fr.drop_last();
        assert forall|i: int| 0 <= i < ls.len() implies (#[trigger] ls[i]).below_silence by {
            assert(ls[i] == levels[i]);
        }
        lemma_speech_end(p, fs, s, f2, ls);
        assert(levels.last().below_silence);
        assert(s.speech_buf + concat(f2) + fr.last() =~= s.speech_buf + concat(fr));
        assert(Seq::<Seq<T>>::empty().push(s.speech_buf + concat(fr)) =~= seq![
            s.speech_buf + concat(fr),
        ]);
    } else {
        assert(s.speech_buf + concat(fr) =~= s.speech_buf);
    }
}

/// `x` is a suffix of `c` that starts at or after position `m`.
pub open spec fn suffix_from<T>(x: Seq<T>, c: Seq<T>, m: int) -> bool {
    &&& x.len() <= c.len() - m
    &&& x == c.subrange(c.len() - x.len(), c.len() as int)
}

/// The state is what consuming the samples `c` leaves, the last segment
/// having ended at position `m`: outside speech the pre-roll is a suffix of
/// `c` after `m` and nothing is buffered; in speech the speech buffer is a
/// suffix of `c` after `m` and the pre-roll is empty.
pub open spec fn tracks<T>(s: VadSnapshot<T>, c: Seq<T>, m: int) -> bool {
    &&& 0 <= m <= c.len()
    &&& !s.in_speech ==> s.speech_buf.len() == 0 && suffix_from(s.pre_roll, c, m)
    &&& s.in_speech ==> s.pre_roll.len() == 0 && suffix_from(s.speech_buf, c, m)
}

/// `segs[i]` is the non-empty slice `stream[starts[i]..ends[i]]`, the slices
/// come in stream order without overlapping, and all end by `m`.
pub open spec fn slices_in_order<T>(
    stream: Seq<T>,
    segs: Seq<Seq<T>>,
    starts: Seq<int>,
    ends: Seq<int>,
    m: int,
) -> bool {
    &&& starts.len() == segs.len()
    &&& ends.len() == segs.len()
    &&& 0 <= m <= stream.len()
    &&& forall|i: int|
        0 <= i < segs.len() ==> 0 <= #[trigger] starts[i] < ends[i] <= m && segs[i]
            == stream.subrange(starts[i], ends[i])
    &&& forall|i: int| 0 < i < segs.len() ==> ends[i - 1] <= #[trigger] starts[i]
}

proof fn lemma_slices_extend<T>(
    c: Seq<T>,
    f: Seq<T>,
    segs: Seq<Seq<T>>,
    starts: Seq<int>,
    ends: Seq<int>,
    m: int,
)
    requires
        slices_in_order(c, segs, starts, ends, m),
    ensures
        slices_in_order(c + f, segs, starts, ends, m),
{
    assert forall|i: int| 0 <= i < segs.len() implies 0 <= #[trigger] starts[i] < ends[i] <= m
        && segs[i] == (c + f).subrange(starts[i], ends[i]) by {
        assert((c + f).subrange(starts[i], ends[i]) =~= c.subrange(starts[i], ends[i]));
    }
}

/// One frame through the state machine keeps the state tracking the
/// consumed samples and the completed segments in-order slices of them.
pub proof fn lemma_step_slices<T>(
    p: VadParams,
    fs: nat,
    s: VadSnapshot<T>,
    c: Seq<T>,
    frame: Seq<T>,
    level: FrameLevel,
    segs: Seq<Seq<T>>,
    starts: Seq<int>,
    ends: Seq<int>,
    m: int,
) -> (w: (Seq<int>, Seq<int>, int))
    requires
        frame.len() > 0,
        tracks(s, c, m),
        slices_in_order(c, segs, starts, ends, m),
    ensures
        ({
            let (s2, o) = step(p, fs, s, frame, level);
            let segs2 = match o {
                Some(g) => segs.push(g),
                None => segs,
            };
            &&& tracks(s2, c + frame, w.2)
            &&& slices_in_order(c + frame, segs2, w.0, w.1, w.2)
        }),
{
    let c2 = c + frame;
    let n = c.len() as int;
    let e = c2.len() as int;
    lemma_slices_extend(c, frame, segs, starts, ends, m);
    let (s2, o) = step(p, fs, s, frame, level);
    if s.in_speech {
        let a = n - s.speech_buf.len();
        let buf = s.speech_buf + frame;
        assert(buf =~= c2.subrange(a, e));
        if level.below_silence && s.silence_hold + 1 >= p.silence_hold_frames {
            let st2 = starts.push(a);
            let en2 = ends.push(e);
            let segs2 = segs.push(buf);
            assert(Seq::<T>::empty() =~= c2.subrange(e, e));
            assert forall|i: int| 0 <= i < segs2.len() implies 0 <= #[trigger] st2[i] < en2[i]
                <= e && segs2[i] == c2.subrange(st2[i], en2[i]) by {
                if i < segs.len() {
                    assert(st2[i] == starts[i]);
                }
            }
            assert forall|i: int| 0 < i < segs2.len() implies en2[i - 1] <= #[trigger] st2[i] by {
                assert(en2[i - 1] == ends[i - 1]);
                if i < segs.len() {
                    assert(st2[i] == starts[i]);
                } else {
                    let j = i - 1;
                    assert(0 <= j < segs.len());
                    assert(0 <= starts[j] < ends[j] <= m);
                }
            }
            (st2, en2, e)
        } else {
            (starts, ends, m)
        }
    } else {
        let a = n - s.pre_roll.len();
        let x = s.pre_roll + frame;
        assert(x =~= c2.subrange(a, e));
        let keep = p.speech_hold_frames as nat * fs * 2;
        let pr = keep_last(x, keep);
        if x.len() > keep {
            assert(pr =~= c2.subrange(e - pr.len(), e));
        }
        assert(pr =~= c2.subrange(e - pr.len(), e));
        assert(frame =~= c2.subrange(n, e));
        (starts, ends, m)
    }
}

/// Frames run through the detector from its start state: the completed
/// segments are non-empty, non-overlapping slices of the samples consumed,
/// in stream order (witnessed by the returned starts and ends), and the state
/// keeps tracking the samples consumed.
pub proof fn lemma_run_slices<T>(
    p: VadParams,
    fs: nat,
    fr: Seq<Seq<T>>,
    levels: Seq<FrameLevel>,
) -> (w: (Seq<int>, Seq<int>, int))
    requires
        levels.len() == fr.len(),
        forall|i: int| 0 <= i < fr.len() ==> (#[trigger] fr[i]).len() > 0,
    ensures
        tracks(run(p, fs, initial::<T>(), fr, levels).0, concat(fr), w.2),
        slices_in_order(concat(fr), run(p, fs, initial::<T>(), fr, levels).1, w.0, w.1, w.2),
    decreases fr.len(),
{
    if fr.len() == 0 {
        let c = concat(fr);
        assert(Seq::<T>::empty() =~= c.subrange(0, 0));
        (Seq::empty(), Seq::empty(), 0)
    } else {
        let f2 = fr.drop_last();
        let l2 = levels.drop_last();
        assert forall|i: int| 0 <= i < f2.len() implies (#[trigger] f2[i]).len() > 0 by {
            assert(f2[i] == fr[i]);
        }
        let w0 = lemma_run_slices(p, fs, f2, l2);
        let prev = run(p, fs, initial::<T>(), f2, l2);
        assert(fr.last().len() > 0);
        lemma_step_slices(
            p,
            fs,
            prev.0,
            concat(f2),
            fr.last(),
            levels.last(),
            prev.1,
            w0.0,
            w0.1,
            w0.2,
        )
    }
}

/// What `flush` returns from a state that tracks the consumed samples `c`
/// is the slice of `c` after the last segment up to its end, so it extends
/// the in-order slices.
pub proof fn lemma_flush_slice<T>(
    s: VadSnapshot<T>,
    c: Seq<T>,
    segs: Seq<Seq<T>>,
    starts: Seq<int>,
    ends: Seq<int>,
    m: int,
) -> (w: (Seq<int>, Seq<int>))
    requires
        tracks(s, c, m),
        slices_in_order(c, segs, starts, ends, m),
    ensures
        flush_spec(s).1 matches Some(g) ==> slices_in_order(
            c,
            segs.push(g),
            w.0,
            w.1,
            c.len() as int,
        ),
{
    match flush_spec(s).1 {
        Some(g) => {
            let n = c.len() as int;
            let st2 = starts.push(n - g.len());
            let en2 = ends.push(n);
            let segs2 = segs.push(g);
            assert forall|i: int| 0 <= i < segs2.len() implies 0 <= #[trigger] st2[i] < en2[i]
                <= n && segs2[i] == c.subrange(st2[i], en2[i]) by {
                if i < segs.len() {
                    assert(st2[i] == starts[i]);
                }
            }
            assert forall|i: int| 0 < i < segs2.len() implies en2[i - 1] <= #[trigger] st2[i] by {
                assert(en2[i - 1] == ends[i - 1]);
                if i < segs.len() {
                    assert(st2[i] == starts[i]);
                } else {
                    let j = i - 1;
                    assert(0 <= j < segs.len());
                    assert(0 <= starts[j] < ends[j] <= m);
                }
            }
            (st2, en2)
        },
        None => (starts, ends),
    }
}

/// The whole frames of `s` followed by its remainder are `s` itself.
pub proof fn lemma_frames_concat<T>(s: Seq<T>, fs: nat)
    ensures
        concat(frames(s, fs)) + remainder(s, fs) == s,
    decreases s.len(),
{
    if fs == 0 || s.len() < fs {
        assert(concat(frames(s, fs)) =~= Seq::<T>::empty());
        assert(Seq::<T>::empty() + s =~= s);
    } else {
        let t = s.skip(fs as int);
        lemma_frames_concat(t, fs);
        lemma_concat_prepend(s.take(fs as int), frames(t, fs));
        assert(s.take(fs as int) + t =~= s);
        assert(s.take(fs as int) + concat(frames(t, fs)) + remainder(t, fs) =~= s.take(fs as int) + (
        concat(frames(t, fs)) + remainder(t, fs)));
    }
}

proof fn lemma_concat_prepend<T>(x: Seq<T>, fr: Seq<Seq<T>>)
    ensures
        concat(seq![x] + fr) == x + concat(fr),
    decreases fr.len(),
{
    if fr.len() == 0 {
        assert(seq![x] + fr =~= seq![x]);
        assert(seq![x].drop_last() =~= Seq::<Seq<T>>::empty());
        assert(concat(Seq::<Seq<T>>::empty()) =~= Seq::<T>::empty());
        assert(Seq::<T>::empty() + x =~= x);
        assert(x + Seq::<T>::empty() =~= x);
    } else {
        lemma_concat_prepend(x, fr.drop_last());
        assert((seq![x] + fr).drop_last() =~= seq![x] + fr.drop_last());
        assert((seq![x] + fr).last() == fr.last());
        assert(x + concat(fr.drop_last()) + fr.last() =~= x + (concat(fr.drop_last()) + fr.last()));
    }
}

/// A stream fed to a fresh detector is split into segments that are
/// non-empty, non-overlapping slices of the stream, in stream order — also
/// counting the segment that `flush` returns at the end.  The returned
/// starts and ends locate the segments; all of them end by the last
/// component.
pub proof fn lemma_segments_are_slices<T>(p: VadParams, fs: nat, stream: Seq<T>, levels: Seq<FrameLevel>) -> (w: (
    Seq<int>,
    Seq<int>,
    int,
))
    requires
        fs > 0,
        levels.len() == frames(stream, fs).len(),
    ensures
        ({
            let (s, segs) = run(p, fs, initial::<T>(), frames(stream, fs), levels);
            let all = match flush_spec(s).1 {
                Some(g) => segs.push(g),
                None => segs,
            };
            slices_in_order(stream, all, w.0, w.1, w.2)
        }),
{
    let fr = frames(stream, fs);
    lemma_frames_len(stream, fs);
    let w0 = lemma_run_slices(p, fs, fr, levels);
    let res = run(p, fs, initial::<T>(), fr, levels);
    let s = res.0;
    let segs = res.1;
    let c = concat(fr);
    lemma_frames_concat(stream, fs);
    let r = remainder(stream, fs);
    assert(c + r == stream);
    lemma_slices_extend(c, r, segs, w0.0, w0.1, w0.2);
    let w1 = lemma_flush_slice(s, c, segs, w0.0, w0.1, w0.2);
    let all = match flush_spec(s).1 {
        Some(g) => segs.push(g),
        None => segs,
    };
    if flush_spec(s).1 is Some {
        let g = flush_spec(s).1->0;
        assert(all == segs.push(g));
        lemma_slices_extend(c, r, segs.push(g), w1.0, w1.1, c.len() as int);
        assert(slices_in_order(stream, all, w1.0, w1.1, c.len() as int));
        (w1.0, w1.1, c.len() as int)
    } else {
        assert(all == segs);
        assert(slices_in_order(stream, all, w0.0, w0.1, w0.2));
        w0
    }
}

/// Splitting a stream in two: the whole frames of `x + y` are those of `x`
/// followed by those of what `x` leaves over joined with `y`, and the
/// remainders agree.
pub proof fn lemma_frames_append<T>(x: Seq<T>, y: Seq<T>, fs: nat)
    ensures
        frames(x + y, fs) == frames(x, fs) + frames(remainder(x, fs) + y, fs),
        remainder(x + y, fs) == remainder(remainder(x, fs) + y, fs),
    decreases x.len(),
{
    if fs == 0 || x.len() < fs {
        assert(frames(x, fs) + frames(remainder(x, fs) + y, fs) =~= frames(x + y, fs));
    } else {
        let t = x.skip(fs as int);
        lemma_frames_append(t, y, fs);
        assert((x + y).take(fs as int) =~= x.take(fs as int));
        assert((x + y).skip(fs as int) =~= t + y);
        assert(seq![x.take(fs as int)] + (frames(t, fs) + frames(remainder(t, fs) + y, fs)) =~= (seq![
            x.take(fs as int),
        ] + frames(t, fs)) + frames(remainder(t, fs) + y, fs));
    }
}

/// Running two batches of frames one after the other is running them
/// together: the state is the same and the segments are those of the first
/// batch followed by those of the second.
pub proof fn lemma_run_append<T>(
    p: VadParams,
    fs: nat,
    s: VadSnapshot<T>,
    f1: Seq<Seq<T>>,
    l1: Seq<FrameLevel>,
    f2: Seq<Seq<T>>,
    l2: Seq<FrameLevel>,
)
    requires
        l1.len() == f1.len(),
        l2.len() == f2.len(),
    ensures
        run(p, fs, s, f1 + f2, l1 + l2) == ({
            let r1 = run(p, fs, s, f1, l1);
            let r2 = run(p, fs, r1.0, f2, l2);
            (r2.0, r1.1 + r2.1)
        }),
    decreases f2.len(),
{
    let r1 = run(p, fs, s, f1, l1);
    if f2.len() == 0 {
        assert(f1 + f2 =~= f1);
        assert(l1 + l2 =~= l1);
        assert(r1.1 + Seq::<Seq<T>>::empty() =~= r1.1);
    } else {
        lemma_run_append(p, fs, s, f1, l1, f2.drop_last(), l2.drop_last());
        assert((f1 + f2).drop_last() =~= f1 + f2.drop_last());
        assert((l1 + l2).drop_last() =~= l1 + l2.drop_last());
        assert((f1 + f2).last() == f2.last());
        assert((l1 + l2).last() == l2.last());
        let r2p = run(p, fs, r1.0, f2.drop_last(), l2.drop_last());
        let st = step(p, fs, r2p.0, f2.last(), l2.last());
        match st.1 {
            Some(g) => {
                assert((r1.1 + r2p.1).push(g) =~= r1.1 + r2p.1.push(g));
            },
            None => {},
        }
    }
}

/// Feeding the detector in two chunks is feeding it the two chunks joined:
/// if one `push` of `a` and then one of `b` are explained by the classifier
/// answering `l1` and then `l2`, the single push of `a` followed by `b` is
/// explained by `l1 + l2`, with the same final state, the same segments in
/// the same order, and the same samples left over.
pub proof fn lemma_push_chunks<T, F: Fn(&[T]) -> FrameLevel>(
    f: F,
    p: VadParams,
    fs: nat,
    s0: VadSnapshot<T>,
    pending: Seq<T>,
    a: Seq<T>,
    b: Seq<T>,
    l1: Seq<FrameLevel>,
    s1: VadSnapshot<T>,
    o1: Seq<Seq<T>>,
    l2: Seq<FrameLevel>,
    s2: VadSnapshot<T>,
    o2: Seq<Seq<T>>,
)
    requires
        explains(f, p, fs, s0, pending + a, l1, s1, o1),
        explains(f, p, fs, s1, remainder(pending + a, fs) + b, l2, s2, o2),
    ensures
        explains(f, p, fs, s0, pending + a + b, l1 + l2, s2, o1 + o2),
        remainder(remainder(pending + a, fs) + b, fs) == remainder(pending + a + b, fs),
{
    let x = pending + a;
    let y = b;
    lemma_frames_append(x, y, fs);
    let fr1 = frames(x, fs);
    let fr2 = frames(remainder(x, fs) + y, fs);
    let fr = frames(x + y, fs);
    assert(fr == fr1 + fr2);
    let ls = l1 + l2;
    assert forall|i: int| 0 <= i < fr.len() implies classified(f, #[trigger] fr[i], ls[i]) by {
        if i < fr1.len() {
            assert(fr[i] == fr1[i]);
            assert(ls[i] == l1[i]);
        } else {
            assert(fr[i] == fr2[i - fr1.len()]);
            assert(ls[i] == l2[i - fr1.len()]);
        }
    }
    lemma_run_append(p, fs, s0, fr1, l1, fr2, l2);
}

/// The classifier answers the same level for frames with the same samples.
pub open spec fn deterministic<T, F: Fn(&[T]) -> FrameLevel>(f: F) -> bool {
    forall|fr: Seq<T>, x: FrameLevel, y: FrameLevel|
        #![trigger classified(f, fr, x), classified(f, fr, y)]
        classified(f, fr, x) && classified(f, fr, y) ==> x == y
}

/// With a deterministic classifier, a push has one possible outcome: two
/// explanations of the same input from the same state agree on the levels,
/// the final state and the segments.
pub proof fn lemma_explains_unique<T, F: Fn(&[T]) -> FrameLevel>(
    f: F,
    p: VadParams,
    fs: nat,
    s0: VadSnapshot<T>,
    input: Seq<T>,
    l: Seq<FrameLevel>,
    s1: VadSnapshot<T>,
    o1: Seq<Seq<T>>,
    m: Seq<FrameLevel>,
    s2: VadSnapshot<T>,
    o2: Seq<Seq<T>>,
)
    requires
        deterministic(f),
        explains(f, p, fs, s0, input, l, s1, o1),
        explains(f, p, fs, s0, input, m, s2, o2),
    ensures
        l == m,
        s1 == s2,
        o1 == o2,
{
    let fr = frames(input, fs);
    assert forall|i: int| 0 <= i < l.len() implies l[i] == m[i] by {
        assert(classified(f, fr[i], l[i]));
        assert(classified(f, fr[i], m[i]));
    }
    assert(l =~= m);
}

/// What is left pending after pushing `chunks`, one per call, onto a
/// detector holding `q`.
pub open spec fn pending_after<T>(fs: nat, q: Seq<T>, chunks: Seq<Seq<T>>) -> Seq<T>
    decreases chunks.len(),
{
    if chunks.len() == 0 {
        q
    } else {
        remainder(pending_after(fs, q, chunks.drop_last()) + chunks.last(), fs)
    }
}

/// A series of `push` calls, one per chunk, from the state `s0` with `q`
/// pending: call `i` starts from `states[i]`, is explained by the levels
/// `levels[i]`, ends in `states[i + 1]` and returns the segments `outs[i]`.
pub open spec fn explains_pushes<T, F: Fn(&[T]) -> FrameLevel>(
    f: F,
    p: VadParams,
    fs: nat,
    s0: VadSnapshot<T>,
    q: Seq<T>,
    chunks: Seq<Seq<T>>,
    levels: Seq<Seq<FrameLevel>>,
    states: Seq<VadSnapshot<T>>,
    outs: Seq<Seq<Seq<T>>>,
) -> bool {
    &&& states.len() == chunks.len() + 1
    &&& levels.len() == chunks.len()
    &&& outs.len() == chunks.len()
    &&& states[0] == s0
    &&& forall|i: int|
        #![trigger outs[i]]
        0 <= i < chunks.len() ==> explains(
            f,
            p,
            fs,
            states[i],
            pending_after(fs, q, chunks.take(i)) + chunks[i],
            levels[i],
            states[i + 1],
            outs[i],
        )
}

/// A series of pushes is one push of the chunks joined: it is explained by
/// the levels of the calls joined, ends in the same state with the same
/// samples pending, and returns the segments of the calls joined, in order.
pub proof fn lemma_pushes_join<T, F: Fn(&[T]) -> FrameLevel>(
    f: F,
    p: VadParams,
    fs: nat,
    s0: VadSnapshot<T>,
    q: Seq<T>,
    chunks: Seq<Seq<T>>,
    levels: Seq<Seq<FrameLevel>>,
    states: Seq<VadSnapshot<T>>,
    outs: Seq<Seq<Seq<T>>>,
)
    requires
        chunks.len() >= 1,
        explains_pushes(f, p, fs, s0, q, chunks, levels, states, outs),
    ensures
        explains(f, p, fs, s0, q + concat(chunks), concat(levels), states.last(), concat(outs)),
        pending_after(fs, q, chunks) == remainder(q + concat(chunks), fs),
    decreases chunks.len(),
{
    let n = chunks.len() as int;
    let last = n - 1;
    assert(explains(
        f,
        p,
        fs,
        states[last],
        pending_after(fs, q, chunks.take(last)) + chunks[last],
        levels[last],
        states[last + 1],
        outs[last],
    ));
    assert(chunks.take(last) =~= chunks.drop_last());
    if n == 1 {
        assert(concat(chunks.drop_last()) =~= Seq::<T>::empty());
        assert(concat(levels.drop_last()) =~= Seq::<FrameLevel>::empty());
        assert(concat(outs.drop_last()) =~= Seq::<Seq<T>>::empty());
        assert(q + concat(chunks) =~= q + chunks[0]);
        assert(concat(levels) =~= levels[0]);
        assert(concat(outs) =~= outs[0]);
    } else {
        let c2 = chunks.drop_last();
        let l2 = levels.drop_last();
        let st2 = states.drop_last();
        let o2 = outs.drop_last();
        assert forall|i: int| #![trigger o2[i]] 0 <= i < c2.len() implies explains(
            f,
            p,
            fs,
            st2[i],
            pending_after(fs, q, c2.take(i)) + c2[i],
            l2[i],
            st2[i + 1],
            o2[i],
        ) by {
            assert(outs[i] == o2[i]);
            assert(c2.take(i) =~= chunks.take(i));
        }
        assert(explains_pushes(f, p, fs, s0, q, c2, l2, st2, o2));
        lemma_pushes_join(f, p, fs, s0, q, c2, l2, st2, o2);
        assert(st2.last() == states[last]);
        lemma_push_chunks(
            f,
            p,
            fs,
            s0,
            q,
            concat(c2),
            chunks[last],
            concat(l2),
            states[last],
            concat(o2),
            levels[last],
            states.last(),
            outs[last],
        );
        assert(q + concat(c2) + chunks[last] =~= q + concat(chunks));
    }
}

/// Chunk boundaries do not matter: with a deterministic classifier, two
/// series of pushes of the same samples from the same detector state end in
/// the same state, with the same samples pending, having returned the same
/// segments in the same order.
pub proof fn lemma_chunking_invisible<T, F: Fn(&[T]) -> FrameLevel>(
    f: F,
    p: VadParams,
    fs: nat,
    s0: VadSnapshot<T>,
    q: Seq<T>,
    chunks1: Seq<Seq<T>>,
    levels1: Seq<Seq<FrameLevel>>,
    states1: Seq<VadSnapshot<T>>,
    outs1: Seq<Seq<Seq<T>>>,
    chunks2: Seq<Seq<T>>,
    levels2: Seq<Seq<FrameLevel>>,
    states2: Seq<VadSnapshot<T>>,
    outs2: Seq<Seq<Seq<T>>>,
)
    requires
        deterministic(f),
        chunks1.len() >= 1,
        chunks2.len() >= 1,
        concat(chunks1) == concat(chunks2),
        explains_pushes(f, p, fs, s0, q, chunks1, levels1, states1, outs1),
        explains_pushes(f, p, fs, s0, q, chunks2, levels2, states2, outs2),
    ensures
        states1.last() == states2.last(),
        pending_after(fs, q, chunks1) == pending_after(fs, q, chunks2),
        concat(outs1) == concat(outs2),
{
    lemma_pushes_join(f, p, fs, s0, q, chunks1, levels1, states1, outs1);
    lemma_pushes_join(f, p, fs, s0, q, chunks2, levels2, states2, outs2);
    lemma_explains_unique(
        f,
        p,
        fs,
        s0,
        q + concat(chunks1),
        concat(levels1),
        states1.last(),
        concat(outs1),
        concat(levels2),
        states2.last(),
        concat(outs2),
    );
}

/// Over a recording session, from a fresh (or reset) detector: the segments
/// returned by all the pushes, in order, and then by the closing `flush`,
/// are non-empty, non-overlapping slices of the samples pushed, in stream
/// order; no sample of a segment is repeated or dropped within it.
pub proof fn lemma_session_slices<T, F: Fn(&[T]) -> FrameLevel>(
    f: F,
    p: VadParams,
    fs: nat,
    chunks: Seq<Seq<T>>,
    levels: Seq<Seq<FrameLevel>>,
    states: Seq<VadSnapshot<T>>,
    outs: Seq<Seq<Seq<T>>>,
) -> (w: (Seq<int>, Seq<int>, int))
    requires
        fs > 0,
        chunks.len() >= 1,
        explains_pushes(f, p, fs, initial::<T>(), Seq::<T>::empty(), chunks, levels, states, outs),
    ensures
        ({
            let segs = concat(outs);
            let all = match flush_spec(states.last()).1 {
                Some(g) => segs.push(g),
                None => segs,
            };
            slices_in_order(concat(chunks), all, w.0, w.1, w.2)
        }),
{
    lemma_pushes_join(f, p, fs, initial::<T>(), Seq::<T>::empty(), chunks, levels, states, outs);
    let stream = concat(chunks);
    assert(Seq::<T>::empty() + stream =~= stream);
    lemma_segments_are_slices(p, fs, stream, concat(levels))
}

/// A copy of `v[a..b]`.
fn copy_range<T: Copy>(v: &[T], a: usize, b: usize) -> (out: Vec<T>)
    requires
        a <= b <= v@.len(),
    ensures
        out@ == v@.subrange(a as int, b as int),
{
    let mut out: Vec<T> = Vec::new();
    let mut i = a;
    while i < b
        invariant
            a <= i <= b <= v@.len(),
            out@ == v@.subrange(a as int, i as int),
        decreases b - i,
    {
        out.push(v[i]);
        assert(v@.subrange(a as int, i as int).push(v@[i as int]) =~= v@.subrange(a as int, i + 1));
        i = i + 1;
    }
    out
}

/// Appends a copy of `w` to `v`.
fn append_copy<T: Copy>(v: &mut Vec<T>, w: &[T])
    ensures
        final(v)@ == old(v)@ + w@,
{
    let mut i: usize = 0;
    while i < w.len()
        invariant
            i <= w@.len(),
            v@ == old(v)@ + w@.take(i as int),
        decreases w@.len() - i,
    {
        v.push(w[i]);
        assert(w@.take(i as int).push(w@[i as int]) =~= w@.take(i + 1));
        i = i + 1;
    }
    assert(w@.take(w@.len() as int) =~= w@);
}

/// The stateful detector.
pub struct EnergyVad<T> {
    cfg: VadParams,
    frame_size: usize,
    leftover: Vec<T>,
    pre_roll: Vec<T>,
    in_speech: bool,
    speech_hold: usize,
    silence_hold: usize,
    speech_buf: Vec<T>,
}

impl<T: Copy> EnergyVad<T> {
    /// The timing the detector was made with.
    pub closed spec fn params(&self) -> VadParams {
        self.cfg
    }

    /// Samples per frame.
    pub closed spec fn frame_size(&self) -> nat {
        self.frame_size as nat
    }

    /// Buffered samples that do not yet make a whole frame.
    pub closed spec fn pending(&self) -> Seq<T> {
        self.leftover@
    }

    /// The state machine's state.
    pub closed spec fn snapshot(&self) -> VadSnapshot<T> {
        VadSnapshot {
            pre_roll: self.pre_roll@,
            in_speech: self.in_speech,
            speech_hold: self.speech_hold as nat,
            silence_hold: self.silence_hold as nat,
            speech_buf: self.speech_buf@,
        }
    }

    /// The internal invariant.
    pub closed spec fn wf(&self) -> bool {
        &&& self.frame_size == frame_len(self.cfg.sample_rate)
        &&& (self.silence_hold == 0 || self.silence_hold < self.cfg.silence_hold_frames)
    }

    /// Whether `push` can run on this detector: frames are not empty and the
    /// pre-roll limit `speech_hold_frames * frame_size * 2` fits in a `usize`.
    pub open spec fn can_push(&self) -> bool {
        &&& self.frame_size() > 0
        &&& self.params().speech_hold_frames * self.frame_size() * 2 <= usize::MAX
    }

    /// A detector with the given timing, in the start state.
    pub fn new(cfg: VadParams) -> (vad: Self)
        ensures
            vad.wf(),
            vad.params() == cfg,
            vad.frame_size() == frame_len(cfg.sample_rate),
            vad.pending() == Seq::<T>::empty(),
            vad.snapshot() == initial::<T>(),
    {
        // 30 ms frame at the configured sample rate
        let frame_size = ((cfg.sample_rate as u64 * 30) / 1_000) as usize;
        let vad = EnergyVad {
            cfg,
            frame_size,
            leftover: Vec::new(),
            pre_roll: Vec::new(),
            in_speech: false,
            speech_hold: 0,
            silence_hold: 0,
            speech_buf: Vec::new(),
        };
        assert(vad.snapshot() =~= initial::<T>());
        vad
    }

    /// One frame through the state machine.
    fn process_frame(&mut self, frame: &[T], level: FrameLevel) -> (seg: Option<Vec<T>>)
        requires
            old(self).wf(),
            old(self).can_push(),
        ensures
            final(self).wf(),
            final(self).params() == old(self).params(),
            final(self).frame_size() == old(self).frame_size(),
            final(self).pending() == old(self).pending(),
            (final(self).snapshot(), match seg {
                Some(v) => Some(v@),
                None => None,
            }) == step(old(self).params(), old(self).frame_size(), old(self).snapshot(), frame@, level),
    {
        if self.in_speech {
            append_copy(&mut self.speech_buf, frame);
            if level.below_silence {
                self.silence_hold = self.silence_hold + 1;
                if self.silence_hold >= self.cfg.silence_hold_frames {
                    // speech ended
                    self.in_speech = false;
                    self.silence_hold = 0;
                    self.speech_hold = 0;
                    let mut audio: Vec<T> = Vec::new();
                    std::mem::swap(&mut audio, &mut self.speech_buf);
                    self.pre_roll.clear();
                    return Some(audio);
                }
            } else {
                self.silence_hold = 0;
            }
            None
        } else {
            // not yet in speech: maintain the pre-roll window
            append_copy(&mut self.pre_roll, frame);
            let keep = self.cfg.speech_hold_frames * self.frame_size * 2;
            assert(self.cfg.speech_hold_frames == 0 ==> keep == 0) by (nonlinear_arith)
                requires
                    keep == self.cfg.speech_hold_frames * self.frame_size * 2,
            ;
            if self.pre_roll.len() > keep {
                let n = self.pre_roll.len();
                self.pre_roll = copy_range(self.pre_roll.as_slice(), n - keep, n);
                assert(self.pre_roll@ =~= keep_last(old(self).pre_roll@ + frame@, keep as nat));
            }
            if level.above_speech {
                self.speech_hold = self.speech_hold.saturating_add(1);
                if self.speech_hold >= self.cfg.speech_hold_frames {
                    // speech started: the pre-roll becomes the speech buffer
                    self.in_speech = true;
                    self.silence_hold = 0;
                    let mut pre: Vec<T> = Vec::new();
                    std::mem::swap(&mut pre, &mut self.pre_roll);
                    self.speech_buf = pre;
                    if self.cfg.speech_hold_frames == 0 {
                        // no pre-roll window: the buffer starts with this frame
                        assert(self.speech_buf@ =~= Seq::<T>::empty());
                        append_copy(&mut self.speech_buf, frame);
                    }
                }
            } else {
                self.speech_hold = 0;
            }
            None
        }
    }

    /// Feed a chunk of samples.  Each whole frame is classified by
    /// `classify` and run through the state machine; returns the speech
    /// segments completed during this call, in order.
    pub fn push<F: Fn(&[T]) -> FrameLevel>(&mut self, samples: &[T], classify: F) -> (segs: Vec<
        SpeechSegment<T>,
    >)
        requires
            old(self).wf(),
            old(self).can_push(),
            forall|sl: &[T]| #[trigger] call_requires(classify, (sl,)),
        ensures
            final(self).wf(),
            final(self).params() == old(self).params(),
            final(self).frame_size() == old(self).frame_size(),
            final(self).pending() == remainder(old(self).pending() + samples@, old(self).frame_size()),
            exists|levels: Seq<FrameLevel>|
                #[trigger] explains(
                    classify,
                    old(self).params(),
                    old(self).frame_size(),
                    old(self).snapshot(),
                    old(self).pending() + samples@,
                    levels,
                    final(self).snapshot(),
                    segment_audio(segs@),
                ),
    {
        let mut input: Vec<T> = Vec::new();
        std::mem::swap(&mut input, &mut self.leftover);
        append_copy(&mut input, samples);
        let ghost all = input@;
        let ghost s0 = self.snapshot();
        let ghost p = self.cfg;
        let fs = self.frame_size;
        let ghost fsn = fs as nat;
        let mut completed: Vec<SpeechSegment<T>> = Vec::new();
        let ghost mut done: Seq<Seq<T>> = Seq::empty();
        let ghost mut levels: Seq<FrameLevel> = Seq::empty();
        let mut off: usize = 0;
        assert(all.skip(0) =~= all);
        assert(done + frames(all, fsn) =~= frames(all, fsn));
        while input.len() - off >= fs
            invariant
                self.wf(),
                self.can_push(),
                self.cfg == p,
                self.frame_size == fs,
                fsn == fs,
                fs > 0,
                input@ == all,
                off <= all.len(),
                done + frames(all.skip(off as int), fsn) == frames(all, fsn),
                remainder(all.skip(off as int), fsn) == remainder(all, fsn),
                levels.len() == done.len(),
                forall|i: int|
                    0 <= i < done.len() ==> classified(classify, #[trigger] done[i], levels[i]),
                run(p, fsn, s0, done, levels) == (self.snapshot(), segment_audio(completed@)),
                forall|sl: &[T]| #[trigger] call_requires(classify, (sl,)),
            decreases all.len() - off,
        {
            let ghost rest = all.skip(off as int);
            let frame = copy_range(input.as_slice(), off, off + fs);
            assert(frame@ =~= rest.take(fs as int));
            assert(rest.skip(fs as int) =~= all.skip(off + fs));
            assert(rest.len() >= fsn);
            assert(frames(rest, fsn) == seq![rest.take(fs as int)] + frames(rest.skip(fs as int), fsn));
            assert(remainder(rest, fsn) == remainder(rest.skip(fs as int), fsn));
            let level = classify(frame.as_slice());
            assert(classified(classify, frame@, level));
            let ghost prev_snap = self.snapshot();
            let ghost prev_out = segment_audio(completed@);
            let seg = self.process_frame(frame.as_slice(), level);
            proof {
                let nd = done.push(frame@);
                let nl = levels.push(level);
                assert(nd.drop_last() =~= done);
                assert(nl.drop_last() =~= levels);
                assert(seq![rest.take(fs as int)] + frames(rest.skip(fs as int), fsn) == frames(rest, fsn));
                assert(nd + frames(all.skip(off + fs), fsn) =~= done + frames(rest, fsn));
                done = nd;
                levels = nl;
            }
            match seg {
                Some(audio) => {
                    let ghost a = audio@;
                    completed.push(SpeechSegment { audio });
                    assert(segment_audio(completed@) =~= prev_out.push(a));
                },
                None => {},
            }
            off = off + fs;
        }
        proof {
            assert(frames(all.skip(off as int), fsn) =~= Seq::<Seq<T>>::empty());
            assert(done + Seq::<Seq<T>>::empty() =~= done);
        }
        self.leftover = copy_range(input.as_slice(), off, input.len());
        assert(self.leftover@ =~= all.skip(off as int));
        assert(p == old(self).params());
        assert(fsn == old(self).frame_size());
        assert(s0 == old(self).snapshot());
        assert(all == old(self).pending() + samples@);
        assert(explains(classify, p, fsn, s0, all, levels, self.snapshot(), segment_audio(completed@)));
        completed
    }

    /// End of stream: returns the segment being accumulated, if any.
    pub fn flush(&mut self) -> (seg: Option<SpeechSegment<T>>)
        requires
            old(self).wf(),
        ensures
            final(self).wf(),
            final(self).params() == old(self).params(),
            final(self).frame_size() == old(self).frame_size(),
            final(self).pending() == old(self).pending(),
            (final(self).snapshot(), match seg {
                Some(g) => Some(g.audio@),
                None => None,
            }) == flush_spec(old(self).snapshot()),
    {
        if self.in_speech && self.speech_buf.len() > 0 {
            self.in_speech = false;
            let mut audio: Vec<T> = Vec::new();
            std::mem::swap(&mut audio, &mut self.speech_buf);
            Some(SpeechSegment { audio })
        } else {
            None
        }
    }

    /// Reset all state (for a new recording session).
    pub fn reset(&mut self)
        requires
            old(self).wf(),
        ensures
            final(self).wf(),
            final(self).params() == old(self).params(),
            final(self).frame_size() == old(self).frame_size(),
            final(self).pending() == Seq::<T>::empty(),
            final(self).snapshot() == initial::<T>(),
    {
        self.leftover.clear();
        self.pre_roll.clear();
        self.speech_buf.clear();
        self.in_speech = false;
        self.speech_hold = 0;
        self.silence_hold = 0;
        assert(self.snapshot() =~= initial::<T>());
    }
}


} // verus!
