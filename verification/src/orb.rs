//! Orb state machine.
//!
//! The orb has five visual/logical states.  `OrbEngine` enforces the valid
//! transitions between them; every successful transition is a state change
//! that the application shell broadcasts to the frontend.
use vstd::prelude::*;

verus! {

/// The five states of the orb.
#[derive(Clone, Copy, Debug, PartialEq, Eq, Structural)]
pub enum OrbState {
    /// Default — mic is off, orb is dark.
    Idle,
    /// Actively capturing audio.
    Listening,
    /// Audio captured, speech recognition is running.
    Transcribing,
    /// Text has been injected (or placed in the clipboard).
    Injected,
    /// User has muted — no audio captured.
    Muted,
}

/// The transition relation of the orb.
pub open spec fn valid_transition(from: OrbState, to: OrbState) -> bool {
    match (from, to) {
        (OrbState::Idle, OrbState::Listening) => true,
        (OrbState::Idle, OrbState::Muted) => true,
        (OrbState::Listening, OrbState::Transcribing) => true,
        (OrbState::Listening, OrbState::Idle) => true,
        (OrbState::Listening, OrbState::Muted) => true,
        (OrbState::Transcribing, OrbState::Injected) => true,
        // transcription failed or produced nothing
        (OrbState::Transcribing, OrbState::Idle) => true,
        (OrbState::Injected, OrbState::Idle) => true,
        // immediate re-listen
        (OrbState::Injected, OrbState::Listening) => true,
        (OrbState::Muted, OrbState::Idle) => true,
        _ => false,
    }
}

/// The lower-case name of a state, as the frontend spells it.
pub open spec fn state_label(s: OrbState) -> Seq<char> {
    match s {
        OrbState::Idle => "idle"@,
        OrbState::Listening => "listening"@,
        OrbState::Transcribing => "transcribing"@,
        OrbState::Injected => "injected"@,
        OrbState::Muted => "muted"@,
    }
}

/// The state reached by toggling mute from `s`.
pub open spec fn mute_toggled(s: OrbState) -> OrbState {
    if s == OrbState::Muted {
        OrbState::Idle
    } else {
        OrbState::Muted
    }
}

/// The state reached by toggling listening from `s`.
pub open spec fn listening_toggled(s: OrbState) -> OrbState {
    match s {
        OrbState::Idle => OrbState::Listening,
        OrbState::Listening => OrbState::Idle,
        _ => s,
    }
}

/// Whether the orb may move from `from` to `to`.
pub fn is_valid_transition(from: &OrbState, to: &OrbState) -> (ok: bool)
    ensures
        ok == valid_transition(*from, *to),
{
    match (from, to) {
        (OrbState::Idle, OrbState::Listening) => true,
        (OrbState::Idle, OrbState::Muted) => true,
        (OrbState::Listening, OrbState::Transcribing) => true,
        (OrbState::Listening, OrbState::Idle) => true,
        (OrbState::Listening, OrbState::Muted) => true,
        (OrbState::Transcribing, OrbState::Injected) => true,
        (OrbState::Transcribing, OrbState::Idle) => true,
        (OrbState::Injected, OrbState::Idle) => true,
        (OrbState::Injected, OrbState::Listening) => true,
        (OrbState::Muted, OrbState::Idle) => true,
        _ => false,
    }
}

impl OrbState {
    /// The lower-case name of the state (`"idle"`, `"listening"`, ...).
    pub fn as_str(&self) -> (s: &'static str)
        ensures
            s@ == state_label(*self),
    {
        match self {
            OrbState::Idle => "idle",
            OrbState::Listening => "listening",
            OrbState::Transcribing => "transcribing",
            OrbState::Injected => "injected",
            OrbState::Muted => "muted",
        }
    }

    /// The state's name as an owned string.
    pub fn to_string(&self) -> (s: String)
        ensures
            s@ == state_label(*self),
    {
        String::from_str(self.as_str())
    }
}

/// The orb state machine.
pub struct OrbEngine {
    state: OrbState,
}

impl OrbEngine {
    /// The current state.
    pub closed spec fn current(&self) -> OrbState {
        self.state
    }

    /// A fresh engine, in the `Idle` state.
    pub fn new() -> (e: Self)
        ensures
            e.current() == OrbState::Idle,
    {
        OrbEngine { state: OrbState::Idle }
    }

    /// Attempt a transition.  Returns `true` and moves to `next` when the
    /// transition is valid; returns `false` and stays put otherwise.
    pub fn transition(&mut self, next: OrbState) -> (moved: bool)
        ensures
            moved == valid_transition(old(self).current(), next),
            final(self).current() == (if moved { next } else { old(self).current() }),
    {
        if !is_valid_transition(&self.state, &next) {
            return false;
        }
        self.state = next;
        true
    }

    /// The current state.
    pub fn state(&self) -> (s: &OrbState)
        ensures
            *s == self.current(),
    {
        &self.state
    }

    /// Idle ↔ Listening toggle; ignored in every other state.
    pub fn toggle_listening(&mut self)
        ensures
            final(self).current() == listening_toggled(old(self).current()),
    {
        match self.state {
            OrbState::Idle => {
                self.transition(OrbState::Listening);
            },
            OrbState::Listening => {
                self.transition(OrbState::Idle);
            },
            _ => {},
        }
    }

    /// Toggle mute: from `Muted` back to `Idle`, from any other state to
    /// `Muted` (also where the transition relation has no such edge).
    pub fn toggle_mute(&mut self)
        ensures
            final(self).current() == mute_toggled(old(self).current()),
    {
        match self.state {
            OrbState::Muted => {
                self.transition(OrbState::Idle);
            },
            _ => {
                self.state = OrbState::Muted;
            },
        }
    }
}

/// No state has a transition to itself.
pub proof fn lemma_no_self_transition(s: OrbState)
    ensures
        !valid_transition(s, s),
{
}

/// A muted orb can only be left towards `Idle`.
pub proof fn lemma_muted_exits_to_idle(to: OrbState)
    ensures
        valid_transition(OrbState::Muted, to) <==> to == OrbState::Idle,
{
}

/// Transcription starts only from listening, and text is injected only after
/// transcription.
pub proof fn lemma_pipeline_order(from: OrbState)
    ensures
        valid_transition(from, OrbState::Transcribing) <==> from == OrbState::Listening,
        valid_transition(from, OrbState::Injected) <==> from == OrbState::Transcribing,
{
}

/// Listening starts from `Idle`, or again right after an injection (the
/// immediate re-listen), and from nowhere else.
pub proof fn lemma_listening_entry(from: OrbState)
    ensures
        valid_transition(from, OrbState::Listening) <==> (from == OrbState::Idle || from
            == OrbState::Injected),
{
}

/// After an injection the orb either rests (`Idle`) or listens again at
/// once (`Listening`).
pub proof fn lemma_injected_exits(to: OrbState)
    ensures
        valid_transition(OrbState::Injected, to) <==> (to == OrbState::Idle || to
            == OrbState::Listening),
{
}

/// Every state but `Idle` can go back to `Idle` in one step.
pub proof fn lemma_idle_reachable(from: OrbState)
    ensures
        valid_transition(from, OrbState::Idle) <==> from != OrbState::Idle,
{
}

/// Mute is reached only from `Idle` or `Listening`.
pub proof fn lemma_muted_entry(from: OrbState)
    ensures
        valid_transition(from, OrbState::Muted) <==> (from == OrbState::Idle || from
            == OrbState::Listening),
{
}

/// The transition relation has exactly ten edges: these.
pub proof fn lemma_transition_table(from: OrbState, to: OrbState)
    ensures
        valid_transition(from, to) <==> {
            ||| from == OrbState::Idle && to == OrbState::Listening
            ||| from == OrbState::Idle && to == OrbState::Muted
            ||| from == OrbState::Listening && to == OrbState::Transcribing
            ||| from == OrbState::Listening && to == OrbState::Idle
            ||| from == OrbState::Listening && to == OrbState::Muted
            ||| from == OrbState::Transcribing && to == OrbState::Injected
            ||| from == OrbState::Transcribing && to == OrbState::Idle
            ||| from == OrbState::Injected && to == OrbState::Idle
            ||| from == OrbState::Injected && to == OrbState::Listening
            ||| from == OrbState::Muted && to == OrbState::Idle
        },
{
}

/// Toggling mute twice returns `Idle` and `Muted` to themselves and sends
/// every other state to `Idle`.
pub proof fn lemma_toggle_mute_twice(s: OrbState)
    ensures
        mute_toggled(mute_toggled(s)) == (if s == OrbState::Muted {
            OrbState::Muted
        } else {
            OrbState::Idle
        }),
{
}

/// Toggling listening twice is the identity.
pub proof fn lemma_toggle_listening_twice(s: OrbState)
    ensures
        listening_toggled(listening_toggled(s)) == s,
{
}

/// Distinct states have distinct names.
pub proof fn lemma_labels_distinct(a: OrbState, b: OrbState)
    requires
        a != b,
    ensures
        state_label(a) != state_label(b),
{
    reveal_strlit("idle");
    reveal_strlit("listening");
    reveal_strlit("transcribing");
    reveal_strlit("injected");
    reveal_strlit("muted");
    assert(state_label(a).len() != state_label(b).len() || state_label(a)[0] != state_label(b)[0]
        || state_label(a)[1] != state_label(b)[1]);
}

} // verus!
