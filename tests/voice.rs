use drum_synth::envelope::{EnvelopeState, LevelSource};
use drum_synth::voice::{NoteAction, NoteEvent, NoteKind, VoiceControl};

fn on(timing: u32, note: u8) -> NoteEvent {
    NoteEvent { timing, kind: NoteKind::On, note }
}

fn off(timing: u32, note: u8) -> NoteEvent {
    NoteEvent { timing, kind: NoteKind::Off, note }
}

#[test]
fn new_voice_is_silent() {
    let v = VoiceControl::new();
    assert_eq!(v.note, 0);
    assert!(!v.playing);
    assert_eq!(v.impact.state, EnvelopeState::Idle);
    assert_eq!(v.snare.state, EnvelopeState::Idle);
    for env in [v.impact, v.snare] {
        assert!(!env.hold_enabled);
        assert_eq!(env.hold_samples, 0);
        assert_eq!(env.hold_samples_left, 0);
    }
}

#[test]
fn note_on_starts_both_envelopes() {
    let mut v = VoiceControl::new();
    v.impact.set_hold(true, 9);
    assert_eq!(v.apply(on(0, 60)), NoteAction::Started);
    assert_eq!(v.note, 60);
    assert!(v.playing);
    assert_eq!(v.impact.state, EnvelopeState::Attack);
    assert_eq!(v.snare.state, EnvelopeState::Attack);
    assert_eq!(v.impact.hold_samples_left, 9);
    assert_eq!(v.snare.hold_samples_left, 0);
}

#[test]
fn note_off_of_another_note_is_ignored() {
    let mut v = VoiceControl::new();
    v.apply(on(0, 60));
    assert_eq!(v.apply(off(0, 61)), NoteAction::Ignored);
    assert_eq!(v.impact.state, EnvelopeState::Attack);
    assert_eq!(v.snare.state, EnvelopeState::Attack);
    assert_eq!(v.apply(off(0, 60)), NoteAction::Released);
    assert_eq!(v.impact.state, EnvelopeState::Release);
    assert_eq!(v.snare.state, EnvelopeState::Release);
    assert!(v.playing);
}

#[test]
fn new_note_retriggers_the_voice() {
    let mut v = VoiceControl::new();
    v.apply(on(0, 60));
    v.apply(off(0, 60));
    assert_eq!(v.apply(on(0, 64)), NoteAction::Started);
    assert_eq!(v.note, 64);
    assert_eq!(v.impact.state, EnvelopeState::Attack);
    assert_eq!(v.apply(off(0, 60)), NoteAction::Ignored);
    assert_eq!(v.impact.state, EnvelopeState::Attack);
}

#[test]
fn due_events_are_applied_in_order() {
    let events = vec![on(0, 60), off(0, 61), off(5, 60), on(9, 62)];
    let mut v = VoiceControl::new();
    assert_eq!(v.apply_due(&events, 0, 0), (2, true));
    assert_eq!(v.note, 60);
    assert_eq!(v.impact.state, EnvelopeState::Attack);
    for sample in 1..5 {
        assert_eq!(v.apply_due(&events, 2, sample), (2, false));
    }
    assert_eq!(v.apply_due(&events, 2, 5), (3, false));
    assert_eq!(v.impact.state, EnvelopeState::Release);
    assert_eq!(v.snare.state, EnvelopeState::Release);
    assert_eq!(v.apply_due(&events, 3, 8), (3, false));
    assert_eq!(v.apply_due(&events, 3, 9), (4, true));
    assert_eq!(v.note, 62);
    assert_eq!(v.apply_due(&events, 4, 100), (4, false));
}

#[test]
fn late_events_wait_for_their_sample() {
    let events = vec![on(3, 40), off(3, 40), on(3, 41)];
    let mut v = VoiceControl::new();
    assert_eq!(v.apply_due(&events, 0, 2), (0, false));
    assert!(!v.playing);
    assert_eq!(v.apply_due(&events, 0, 3), (3, true));
    assert_eq!(v.note, 41);
    assert_eq!(v.impact.state, EnvelopeState::Attack);
}

#[test]
fn struck_voice_plays_for_one_second_without_note_off() {
    let mut v = VoiceControl::new();
    let events = vec![on(0, 60)];
    assert_eq!(v.apply_due(&events, 0, 0), (1, true));
    for sample in 0..44_100u32 {
        let reached = sample % 7 == 0;
        v.advance(reached, sample % 11 == 0);
        assert!(v.playing);
    }
    assert_eq!(v.impact.state, EnvelopeState::Sustain);
    assert_eq!(v.snare.state, EnvelopeState::Sustain);
}

#[test]
fn voice_stops_playing_when_both_releases_end() {
    let mut v = VoiceControl::new();
    v.apply(on(0, 36));
    assert_eq!(v.advance(true, true), (LevelSource::Peak, LevelSource::Peak));
    v.apply(off(0, 36));
    assert_eq!(v.advance(true, false), (LevelSource::Silent, LevelSource::Ramp));
    assert!(v.playing);
    assert_eq!(v.impact.state, EnvelopeState::Idle);
    assert_eq!(v.advance(false, true), (LevelSource::Silent, LevelSource::Silent));
    assert!(!v.playing);
}

#[test]
fn reset_stops_the_voice_at_any_point() {
    let mut v = VoiceControl::new();
    v.apply(on(0, 60));
    v.reset();
    assert!(!v.playing);
    assert_eq!(v.note, 0);
    assert_eq!(v.impact.state, EnvelopeState::Idle);
    assert_eq!(v.snare.state, EnvelopeState::Idle);

    v.apply(on(0, 60));
    v.advance(true, true);
    v.apply(off(0, 60));
    v.advance(false, false);
    v.reset();
    assert!(!v.playing);
    assert_eq!(v.impact.state, EnvelopeState::Idle);
    assert_eq!(v.snare.state, EnvelopeState::Idle);

    v.reset();
    assert!(!v.playing);
    assert_eq!(v.impact.state, EnvelopeState::Idle);
}
