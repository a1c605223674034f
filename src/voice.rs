//! Note handling of the single drum voice: which note sounds, whether the voice
//! is playing, and the stages of its two excitation envelopes (impact and snare).
//!
//! Note events of a block arrive ordered by their sample offset; before each
//! sample the voice applies every event due at or before that sample.
use vstd::prelude::*;
use crate::envelope::{EnvelopeControl, EnvelopeState, LevelSource, lemma_sounding_until_note_off};

verus! {

#[derive(PartialEq, Eq, Structural, Clone, Copy, Debug)]
pub enum NoteKind {
    On,
    Off,
}

/// A note event at a sample offset within the current block.
#[derive(PartialEq, Eq, Structural, Clone, Copy, Debug)]
pub struct NoteEvent {
    pub timing: u32,
    pub kind: NoteKind,
    pub note: u8,
}

/// What an event did to the voice.
#[derive(PartialEq, Eq, Structural, Clone, Copy, Debug)]
pub enum NoteAction {
    /// A note-on: the note was recorded and both envelopes restarted their attack.
    Started,
    /// A note-off of the sounding note: both envelopes were sent to release.
    Released,
    /// A note-off of another note: nothing changed.
    Ignored,
}

/// The discrete state of the voice.
#[derive(PartialEq, Eq, Structural, Clone, Copy, Debug)]
pub struct VoiceControl {
    /// The MIDI note last started.
    pub note: u8,
    /// Whether either excitation envelope is sounding (set by a note-on, and
    /// recomputed after every sample).
    pub playing: bool,
    pub impact: EnvelopeControl,
    pub snare: EnvelopeControl,
}

/// Whether every event of `events` from `from` (inclusive) to `to` (exclusive) is
/// due at `sample`.
pub open spec fn all_due(events: Seq<NoteEvent>, from: int, to: int, sample: u32) -> bool {
    forall|i: int| from <= i < to ==> #[trigger] events[i].timing <= sample
}

impl VoiceControl {
    /// The action that `e` takes on this voice.
    pub open spec fn action(self, e: NoteEvent) -> NoteAction {
        match e.kind {
            NoteKind::On => NoteAction::Started,
            NoteKind::Off => if e.note == self.note {
                NoteAction::Released
            } else {
                NoteAction::Ignored
            },
        }
    }

    /// The voice after event `e`.
    pub open spec fn after_event(self, e: NoteEvent) -> VoiceControl {
        match self.action(e) {
            NoteAction::Started => VoiceControl {
                note: e.note,
                playing: true,
                impact: self.impact.started(),
                snare: self.snare.started(),
            },
            NoteAction::Released => VoiceControl {
                impact: self.impact.released(),
                snare: self.snare.released(),
                ..self
            },
            NoteAction::Ignored => self,
        }
    }

    /// The voice after each of `events`, in order.
    pub open spec fn after_events(self, events: Seq<NoteEvent>) -> VoiceControl
        decreases events.len(),
    {
        if events.len() == 0 {
            self
        } else {
            self.after_event(events[0]).after_events(events.drop_first())
        }
    }

    /// The voice after one sample, given whether each envelope's ramp reached
    /// its target.
    pub open spec fn after_sample(self, impact_reached: bool, snare_reached: bool) -> VoiceControl {
        VoiceControl {
            playing: self.impact.next(impact_reached).state != EnvelopeState::Idle
                || self.snare.next(snare_reached).state != EnvelopeState::Idle,
            impact: self.impact.next(impact_reached),
            snare: self.snare.next(snare_reached),
            ..self
        }
    }

    /// The voice after one sample for each pair of `reached`, in order.
    pub open spec fn after_samples(self, reached: Seq<(bool, bool)>) -> VoiceControl
        decreases reached.len(),
    {
        if reached.len() == 0 {
            self
        } else {
            self.after_sample(reached[0].0, reached[0].1).after_samples(reached.drop_first())
        }
    }

    /// A silent voice on note 0, both envelopes new: idle, without a hold stage.
    pub fn new() -> (r: VoiceControl)
        ensures
            r.note == 0,
            !r.playing,
            r.impact.state == EnvelopeState::Idle,
            !r.impact.hold_enabled,
            r.impact.hold_samples == 0,
            r.impact.hold_samples_left == 0,
            r.snare.state == EnvelopeState::Idle,
            !r.snare.hold_enabled,
            r.snare.hold_samples == 0,
            r.snare.hold_samples_left == 0,
    {
        VoiceControl {
            note: 0,
            playing: false,
            impact: EnvelopeControl::new(),
            snare: EnvelopeControl::new(),
        }
    }

    /// Applies one note event.
    pub fn apply(&mut self, e: NoteEvent) -> (r: NoteAction)
        ensures
            *final(self) == old(self).after_event(e),
            r == old(self).action(e),
    {
        match e.kind {
            NoteKind::On => {
                self.note = e.note;
                self.playing = true;
                self.impact.note_on();
                self.snare.note_on();
                NoteAction::Started
            },
            NoteKind::Off => {
                if e.note == self.note {
                    self.impact.note_off();
                    self.snare.note_off();
                    NoteAction::Released
                } else {
                    NoteAction::Ignored
                }
            },
        }
    }

    /// Applies, from index `from` on, every event of `events` that is due at
    /// `sample`, stopping at the first that is not. Returns the index of that
    /// first event (or the length), and whether a note-on was applied.
    pub fn apply_due(&mut self, events: &Vec<NoteEvent>, from: usize, sample: u32) -> (r: (
        usize,
        bool,
    ))
        requires
            from <= events.len(),
        ensures
            from <= r.0 <= events.len(),
            all_due(events@, from as int, r.0 as int, sample),
            r.0 == events.len() || events@[r.0 as int].timing > sample,
            *final(self) == old(self).after_events(events@.subrange(from as int, r.0 as int)),
            r.1 == exists|i: int| from <= i < r.0 && #[trigger] events@[i].kind == NoteKind::On,
    {
        let mut i = from;
        let mut started = false;
        while i < events.len() && events[i].timing <= sample
            invariant
                from <= i <= events.len(),
                all_due(events@, from as int, i as int, sample),
                *self == old(self).after_events(events@.subrange(from as int, i as int)),
                started == exists|j: int| from <= j < i && #[trigger] events@[j].kind == NoteKind::On,
            decreases events.len() - i,
        {
            let e = events[i];
            proof {
                lemma_after_events_append(
                    *old(self),
                    events@.subrange(from as int, i as int),
                    e,
                );
                assert(events@.subrange(from as int, i as int).push(e) =~= events@.subrange(
                    from as int,
                    i + 1,
                ));
            }
            let action = self.apply(e);
            if action == NoteAction::Started {
                started = true;
            }
            i = i + 1;
        }
        (i, started)
    }

    /// Moves both envelopes on by one sample and recomputes whether the voice is
    /// playing; returns the two envelopes' level sources (impact, snare).
    pub fn advance(&mut self, impact_reached: bool, snare_reached: bool) -> (r: (LevelSource, LevelSource))
        ensures
            *final(self) == old(self).after_sample(impact_reached, snare_reached),
            r.0 == old(self).impact.output(impact_reached),
            r.1 == old(self).snare.output(snare_reached),
    {
        let a = self.impact.advance(impact_reached);
        let b = self.snare.advance(snare_reached);
        self.playing = self.impact.is_active() || self.snare.is_active();
        (a, b)
    }

    /// Silences the voice at once: note 0, not playing, both envelopes idle.
    pub fn reset(&mut self)
        ensures
            *final(self) == (VoiceControl {
                note: 0,
                playing: false,
                impact: old(self).impact.silenced(),
                snare: old(self).snare.silenced(),
            }),
    {
        self.note = 0;
        self.playing = false;
        self.impact.reset();
        self.snare.reset();
    }
}

/// Applying events one more at a time: the last event comes after the others.
proof fn lemma_after_events_append(v: VoiceControl, events: Seq<NoteEvent>, e: NoteEvent)
    ensures
        v.after_events(events.push(e)) == v.after_events(events).after_event(e),
    decreases events.len(),
{
    if events.len() > 0 {
        lemma_after_events_append(v.after_event(events[0]), events.drop_first(), e);
        assert(events.push(e)[0] == events[0]);
        assert(events.push(e).drop_first() =~= events.drop_first().push(e));
    } else {
        let w = v.after_event(e);
        assert(events.push(e)[0] == e);
        assert(events.push(e).drop_first() =~= Seq::<NoteEvent>::empty());
        assert(w.after_events(Seq::<NoteEvent>::empty()) == w);
    }
}

/// A voice whose impact envelope sounds and is not releasing keeps playing on
/// every sample that no note event interrupts.
proof fn lemma_sounding_voice_plays(v: VoiceControl, reached: Seq<(bool, bool)>)
    requires
        v.playing,
        v.impact.state != EnvelopeState::Idle,
        v.impact.state != EnvelopeState::Release,
    ensures
        v.after_samples(reached).playing,
        v.after_samples(reached).impact.state != EnvelopeState::Idle,
        v.after_samples(reached).impact.state != EnvelopeState::Release,
    decreases reached.len(),
{
    if reached.len() > 0 {
        let w = v.after_sample(reached[0].0, reached[0].1);
        lemma_sounding_until_note_off(v.impact, seq![reached[0].0]);
        assert(seq![reached[0].0].drop_first() =~= Seq::<bool>::empty());
        assert(v.impact.next(reached[0].0).run(Seq::<bool>::empty()) == v.impact.next(reached[0].0));
        lemma_sounding_voice_plays(w, reached.drop_first());
    }
}

/// Liveness of a struck voice: after a note-on, with no note-off, the voice is
/// playing on every later sample, whatever its ramps do, because neither
/// excitation envelope can become idle before it is released.
pub proof fn lemma_playing_until_note_off(v: VoiceControl, e: NoteEvent, reached: Seq<(bool, bool)>)
    requires
        e.kind == NoteKind::On,
    ensures
        v.after_event(e).after_samples(reached).playing,
        v.after_event(e).after_samples(reached).impact.state != EnvelopeState::Idle,
        v.after_event(e).after_samples(reached).note == e.note,
{
    lemma_sounding_voice_plays(v.after_event(e), reached);
    lemma_samples_keep_note(v.after_event(e), reached);
}

/// Samples do not change the note.
proof fn lemma_samples_keep_note(v: VoiceControl, reached: Seq<(bool, bool)>)
    ensures
        v.after_samples(reached).note == v.note,
    decreases reached.len(),
{
    if reached.len() > 0 {
        lemma_samples_keep_note(v.after_sample(reached[0].0, reached[0].1), reached.drop_first());
    }
}

} // verus!
