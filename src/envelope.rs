//! The stage logic of a percussive ADSR envelope with an optional hold stage.
//!
//! An envelope generator's amplitude is a real number; this module owns what the
//! generator decides from one sample to the next: which stage it is in, how many
//! hold samples remain, and where the next amplitude comes from. The caller
//! computes the candidate amplitude of the running ramp (attack, decay or
//! release) and tells `advance` whether that candidate reached the ramp's
//! target; `advance` answers with a `LevelSource` and moves to the next stage.
use vstd::prelude::*;

verus! {

/// The stage an envelope is in.
#[derive(PartialEq, Eq, Structural, Clone, Copy, Debug)]
pub enum EnvelopeState {
    Idle,
    Attack,
    Hold,
    Decay,
    Sustain,
    Release,
}

/// Where the amplitude of one sample comes from.
#[derive(PartialEq, Eq, Structural, Clone, Copy, Debug)]
pub enum LevelSource {
    /// Zero; an envelope that finishes its release is also clamped to zero.
    Silent,
    /// The candidate amplitude of the running ramp, which becomes the current level.
    Ramp,
    /// Full scale (1.0): the attack's clamp, and every hold sample.
    Peak,
    /// The sustain level: the decay's clamp, and every sustain sample.
    Sustain,
}

/// The discrete state of one envelope generator.
#[derive(PartialEq, Eq, Structural, Clone, Copy, Debug)]
pub struct EnvelopeControl {
    pub state: EnvelopeState,
    /// Whether the configured hold time is positive, so that the attack
    /// is followed by a hold stage.
    pub hold_enabled: bool,
    /// The hold time in samples (hold time × sample rate, rounded), loaded at note-on.
    pub hold_samples: u64,
    /// Hold samples that remain before the decay begins.
    pub hold_samples_left: u64,
}

/// The stage that follows `s` when the envelope has no hold stage and no note-off
/// arrives; stages without a timed exit follow themselves.
pub open spec fn successor_without_hold(s: EnvelopeState) -> EnvelopeState {
    match s {
        EnvelopeState::Attack => EnvelopeState::Decay,
        EnvelopeState::Decay => EnvelopeState::Sustain,
        EnvelopeState::Release => EnvelopeState::Idle,
        _ => s,
    }
}

impl EnvelopeControl {
    /// The state after one sample; `reached` says whether the running ramp's
    /// candidate reached its target (it is read in Attack, Decay and Release only).
    pub open spec fn next(self, reached: bool) -> EnvelopeControl {
        match self.state {
            EnvelopeState::Idle => self,
            EnvelopeState::Attack => if reached {
                EnvelopeControl {
                    state: if self.hold_enabled {
                        EnvelopeState::Hold
                    } else {
                        EnvelopeState::Decay
                    },
                    ..self
                }
            } else {
                self
            },
            EnvelopeState::Hold => if self.hold_samples_left > 0 {
                EnvelopeControl { hold_samples_left: (self.hold_samples_left - 1) as u64, ..self }
            } else {
                EnvelopeControl { state: EnvelopeState::Decay, ..self }
            },
            EnvelopeState::Decay => if reached {
                EnvelopeControl { state: EnvelopeState::Sustain, ..self }
            } else {
                self
            },
            EnvelopeState::Sustain => self,
            EnvelopeState::Release => if reached {
                EnvelopeControl { state: EnvelopeState::Idle, ..self }
            } else {
                self
            },
        }
    }

    /// The source of the amplitude of one sample.
    pub open spec fn output(self, reached: bool) -> LevelSource {
        match self.state {
            EnvelopeState::Idle => LevelSource::Silent,
            EnvelopeState::Attack => if reached {
                LevelSource::Peak
            } else {
                LevelSource::Ramp
            },
            EnvelopeState::Hold => LevelSource::Peak,
            EnvelopeState::Decay => if reached {
                LevelSource::Sustain
            } else {
                LevelSource::Ramp
            },
            EnvelopeState::Sustain => LevelSource::Sustain,
            EnvelopeState::Release => if reached {
                LevelSource::Silent
            } else {
                LevelSource::Ramp
            },
        }
    }

    /// The state after a note-on: Attack, with the hold count loaded.
    pub open spec fn started(self) -> EnvelopeControl {
        EnvelopeControl {
            state: EnvelopeState::Attack,
            hold_samples_left: self.hold_samples,
            ..self
        }
    }

    /// The state after a note-off: Release, unless the envelope is idle.
    pub open spec fn released(self) -> EnvelopeControl {
        if self.state == EnvelopeState::Idle {
            self
        } else {
            EnvelopeControl { state: EnvelopeState::Release, ..self }
        }
    }

    /// The state after a reset: Idle, all else kept.
    pub open spec fn silenced(self) -> EnvelopeControl {
        EnvelopeControl { state: EnvelopeState::Idle, ..self }
    }

    /// The state after one sample for each entry of `reached`, in order.
    pub open spec fn run(self, reached: Seq<bool>) -> EnvelopeControl
        decreases reached.len(),
    {
        if reached.len() == 0 {
            self
        } else {
            self.next(reached[0]).run(reached.drop_first())
        }
    }

    /// The level sources of the samples of `self.run(reached)`, in order.
    pub open spec fn outputs(self, reached: Seq<bool>) -> Seq<LevelSource>
        decreases reached.len(),
    {
        if reached.len() == 0 {
            Seq::empty()
        } else {
            seq![self.output(reached[0])] + self.next(reached[0]).outputs(reached.drop_first())
        }
    }

    /// An idle envelope without a hold stage.
    pub fn new() -> (r: EnvelopeControl)
        ensures
            r.state == EnvelopeState::Idle,
            !r.hold_enabled,
            r.hold_samples == 0,
            r.hold_samples_left == 0,
    {
        EnvelopeControl {
            state: EnvelopeState::Idle,
            hold_enabled: false,
            hold_samples: 0,
            hold_samples_left: 0,
        }
    }

    /// Sets the hold parameters; the stage and the running hold count are kept.
    pub fn set_hold(&mut self, enabled: bool, samples: u64)
        ensures
            *final(self) == (EnvelopeControl {
                hold_enabled: enabled,
                hold_samples: samples,
                ..*old(self)
            }),
    {
        self.hold_enabled = enabled;
        self.hold_samples = samples;
    }

    /// Starts the attack and loads the hold count.
    pub fn note_on(&mut self)
        ensures
            *final(self) == old(self).started(),
    {
        self.state = EnvelopeState::Attack;
        self.hold_samples_left = self.hold_samples;
    }

    /// Moves a sounding envelope to its release; an idle one stays idle.
    pub fn note_off(&mut self)
        ensures
            *final(self) == old(self).released(),
    {
        if self.state != EnvelopeState::Idle {
            self.state = EnvelopeState::Release;
        }
    }

    /// Moves on by one sample and tells where that sample's amplitude comes from.
    pub fn advance(&mut self, reached: bool) -> (r: LevelSource)
        ensures
            *final(self) == old(self).next(reached),
            r == old(self).output(reached),
    {
        match self.state {
            EnvelopeState::Idle => LevelSource::Silent,
            EnvelopeState::Attack => {
                if reached {
                    self.state = if self.hold_enabled {
                        EnvelopeState::Hold
                    } else {
                        EnvelopeState::Decay
                    };
                    LevelSource::Peak
                } else {
                    LevelSource::Ramp
                }
            },
            EnvelopeState::Hold => {
                if self.hold_samples_left > 0 {
                    self.hold_samples_left = self.hold_samples_left - 1;
                } else {
                    self.state = EnvelopeState::Decay;
                }
                LevelSource::Peak
            },
            EnvelopeState::Decay => {
                if reached {
                    self.state = EnvelopeState::Sustain;
                    LevelSource::Sustain
                } else {
                    LevelSource::Ramp
                }
            },
            EnvelopeState::Sustain => LevelSource::Sustain,
            EnvelopeState::Release => {
                if reached {
                    self.state = EnvelopeState::Idle;
                    LevelSource::Silent
                } else {
                    LevelSource::Ramp
                }
            },
        }
    }

    /// Whether the envelope is sounding, that is not idle.
    pub fn is_active(&self) -> (r: bool)
        ensures
            r == (self.state != EnvelopeState::Idle),
    {
        self.state != EnvelopeState::Idle
    }

    /// Silences the envelope at once; its parameters and hold count are kept.
    pub fn reset(&mut self)
        ensures
            *final(self) == old(self).silenced(),
    {
        self.state = EnvelopeState::Idle;
    }
}

/// An idle envelope stays idle and silent for every run of samples.
pub proof fn lemma_idle_stays_silent(c: EnvelopeControl, reached: Seq<bool>)
    requires
        c.state == EnvelopeState::Idle,
    ensures
        c.run(reached) == c,
        c.outputs(reached).len() == reached.len(),
        forall|i: int| 0 <= i < reached.len() ==> #[trigger] c.outputs(reached)[i] == LevelSource::Silent,
    decreases reached.len(),
{
    if reached.len() > 0 {
        lemma_idle_stays_silent(c.next(reached[0]), reached.drop_first());
        let rest = c.next(reached[0]).outputs(reached.drop_first());
        assert forall|i: int| 0 <= i < reached.len() implies #[trigger] c.outputs(reached)[i]
            == LevelSource::Silent by {
            if i > 0 {
                assert(c.outputs(reached)[i] == rest[i - 1]);
            }
        }
    }
}

/// Without a hold stage, each sample keeps the stage or moves to the next one of
/// Attack, Decay, Sustain (and Release, Idle after a note-off), and no run of
/// samples ever enters Hold.
pub proof fn lemma_no_hold_stage(c: EnvelopeControl, reached: Seq<bool>)
    requires
        !c.hold_enabled,
        c.state != EnvelopeState::Hold,
    ensures
        forall|b: bool|
            #![trigger c.next(b)]
            c.next(b).state == c.state || c.next(b).state == successor_without_hold(c.state),
        c.run(reached).state != EnvelopeState::Hold,
        !c.run(reached).hold_enabled,
    decreases reached.len(),
{
    if reached.len() > 0 {
        lemma_no_hold_stage(c.next(reached[0]), reached.drop_first());
    }
}

/// With a hold stage, the attack's last sample enters Hold with the count that
/// note-on loaded.
pub proof fn lemma_hold_entry(c: EnvelopeControl)
    requires
        c.state == EnvelopeState::Attack,
        c.hold_enabled,
    ensures
        c.next(true).state == EnvelopeState::Hold,
        c.next(true).hold_samples_left == c.hold_samples_left,
        c.output(true) == LevelSource::Peak,
{
}

/// Entered with `n` samples left, Hold gives full scale on each of its samples:
/// it counts `n` of them down, and its next sample moves to Decay.
pub proof fn lemma_hold_length(c: EnvelopeControl, reached: Seq<bool>)
    requires
        c.state == EnvelopeState::Hold,
        reached.len() <= c.hold_samples_left + 1,
    ensures
        reached.len() <= c.hold_samples_left ==> c.run(reached).state == EnvelopeState::Hold
            && c.run(reached).hold_samples_left == c.hold_samples_left - reached.len(),
        reached.len() == c.hold_samples_left + 1 ==> c.run(reached).state == EnvelopeState::Decay,
        c.outputs(reached).len() == reached.len(),
        forall|i: int| 0 <= i < reached.len() ==> #[trigger] c.outputs(reached)[i] == LevelSource::Peak,
    decreases reached.len(),
{
    if reached.len() > 0 {
        let n = c.next(reached[0]);
        if c.hold_samples_left > 0 {
            lemma_hold_length(n, reached.drop_first());
            let rest = n.outputs(reached.drop_first());
            assert forall|i: int| 0 <= i < reached.len() implies #[trigger] c.outputs(reached)[i]
                == LevelSource::Peak by {
                if i > 0 {
                    assert(c.outputs(reached)[i] == rest[i - 1]);
                }
            }
        } else {
            assert(n.outputs(reached.drop_first()) =~= Seq::<LevelSource>::empty());
            assert(c.outputs(reached) =~= seq![LevelSource::Peak]);
        }
    }
}

/// A release whose candidate reaches the floor ends at zero in Idle; until then
/// it stays in Release.
pub proof fn lemma_release_exit(c: EnvelopeControl)
    requires
        c.state == EnvelopeState::Release,
    ensures
        c.next(true).state == EnvelopeState::Idle,
        c.output(true) == LevelSource::Silent,
        c.next(false) == c,
        c.output(false) == LevelSource::Ramp,
{
}

/// Without a note-off a sounding envelope never becomes idle: only Release leads
/// to Idle, and only a note-off leads to Release.
pub proof fn lemma_sounding_until_note_off(c: EnvelopeControl, reached: Seq<bool>)
    requires
        c.state != EnvelopeState::Idle,
        c.state != EnvelopeState::Release,
    ensures
        c.run(reached).state != EnvelopeState::Idle,
        c.run(reached).state != EnvelopeState::Release,
    decreases reached.len(),
{
    if reached.len() > 0 {
        lemma_sounding_until_note_off(c.next(reached[0]), reached.drop_first());
    }
}

} // verus!
