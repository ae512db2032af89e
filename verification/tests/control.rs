use beatbox::command::Command;
use beatbox::control::App;
use beatbox::control::Inputs;
use beatbox::control::UpdateStatus;
use beatbox::input::joystick::Direction;
use beatbox::sound::playback::Playback;
use beatbox::sound::score::half_beats;
use beatbox::sound::score::ScoreType;
use beatbox::sound::Instrument;
use beatbox::units::Bpm;
use beatbox::units::Volume;

const MS: u64 = 1_000_000;

fn app() -> App {
    let mut playback = Playback::new(1, 4);
    playback.add_instrument(vec![1_000, 2_000], Instrument::HiHat);
    playback.add_instrument(vec![300, 400, 500], Instrument::Snare);
    App::new(playback)
}

fn quiet(now: u64) -> Inputs {
    Inputs {
        now,
        joystick: None,
        command: None,
        encoder: (false, false),
        button: false,
        measurement: None,
        avail: 4,
    }
}

#[test]
fn machine_starts_at_rest() {
    let app = app();
    assert_eq!(app.score_index, 1);
    assert_eq!(app.score.t, ScoreType::Standard);
    assert_eq!(u32::from(app.volume), 20);
    assert_eq!(u32::from(app.bpm), 120);
    assert_eq!(app.joystick_period, 100 * MS);
    assert_eq!(app.log_period, 750 * MS);
    assert!(UpdateStatus::Continue.do_continue());
    assert!(!UpdateStatus::Quit.do_continue());
}

#[test]
fn quiet_iteration_mixes_silence_and_logs_once() {
    let mut app = app();
    assert!(app.fits(0));
    let outcome = app.update(quiet(0));
    assert_eq!(outcome.status, UpdateStatus::Continue);
    assert_eq!(outcome.frames, vec![0, 0, 0, 0]);
    assert_eq!(outcome.rejected, vec![]);
    assert!(outcome.log);
    assert!(!app.update(quiet(749 * MS)).log);
    assert!(app.update(quiet(750 * MS)).log);
    assert!(!app.update(quiet(751 * MS)).log);
}

#[test]
fn stop_command_ends_the_loop() {
    let mut app = app();
    let outcome = app.update(Inputs { command: Some(Command::Stop), ..quiet(0) });
    assert_eq!(outcome.status, UpdateStatus::Quit);
    assert_eq!(outcome.frames, vec![]);
    assert!(!outcome.log);
}

#[test]
fn play_command_is_heard_at_once() {
    let mut app = app();
    let outcome = app.update(Inputs {
        command: Some(Command::Play(Some(Instrument::Snare))),
        avail: 2,
        ..quiet(0)
    });
    // A fifth of the full volume: 300 and 400 become 60 and 80.
    assert_eq!(outcome.frames, vec![60, 80]);
    assert_eq!(app.playback.playing_count(), 1);
    assert_eq!(app.update(quiet(1)).frames, vec![100, 0, 0, 0]);
    assert_eq!(app.playback.playing_count(), 0);
}

#[test]
fn note_without_sample_is_reported() {
    let mut app = app();
    let outcome = app.update(Inputs {
        command: Some(Command::Play(Some(Instrument::BassDrum))),
        ..quiet(0)
    });
    assert_eq!(outcome.rejected, vec![Instrument::BassDrum]);
    assert_eq!(app.playback.playing_count(), 0);
}

#[test]
fn volume_and_tempo_commands_take_effect() {
    let mut app = app();
    app.update(Inputs {
        command: Some(Command::Volume(Some(Volume::try_from(100).unwrap()))),
        ..quiet(0)
    });
    assert_eq!(u32::from(app.volume), 100);
    app.update(Inputs {
        command: Some(Command::Tempo(Some(Bpm::try_from(60).unwrap()))),
        ..quiet(1)
    });
    assert_eq!(u32::from(app.bpm), 60);
    app.update(Inputs { command: Some(Command::Tempo(None)), ..quiet(2) });
    assert_eq!(u32::from(app.bpm), 60);
}

#[test]
fn pattern_switch_keeps_the_beat() {
    let mut app = app();
    app.update(quiet(0));
    app.update(quiet(1_250 * MS));
    let beat = app.score.get_beat();
    assert_eq!(beat, half_beats(5));
    app.update(Inputs { command: Some(Command::Mode(Some(ScoreType::Funky))), ..quiet(2_000 * MS) });
    assert_eq!(app.score.t, ScoreType::Funky);
    assert_eq!(app.score.get_beat(), beat);
    assert_eq!(app.score_index, 1);
    // The update after a switch only takes its bearings; the next one moves on.
    app.update(quiet(2_250 * MS));
    assert_eq!(app.score.get_beat(), half_beats(6));
}

#[test]
fn set_score_keeps_the_beat_exactly() {
    let mut app = app();
    app.score.set_beat(u128::MAX - 3);
    app.set_score(ScoreType::Empty);
    assert_eq!(app.score.get_beat(), u128::MAX - 3);
    assert_eq!(app.score.t, ScoreType::Empty);
}

#[test]
fn button_switches_to_the_next_pattern() {
    let mut app = app();
    app.update(Inputs { button: true, ..quiet(0) });
    assert_eq!(app.score_index, 2);
    assert_eq!(app.score.t, ScoreType::Funky);
    app.update(Inputs { button: true, ..quiet(1) });
    assert_eq!(app.score_index, 2);
    app.update(Inputs { button: false, ..quiet(30 * MS) });
    app.update(Inputs { button: true, ..quiet(31 * MS) });
    assert_eq!(app.score_index, 3);
    assert_eq!(app.score.t, ScoreType::Empty);
}

#[test]
fn encoder_moves_the_tempo_by_whole_beats_per_minute() {
    let mut app = app();
    app.update(Inputs { encoder: (false, false), ..quiet(0) });
    app.update(Inputs { encoder: (false, true), ..quiet(1) });
    assert_eq!(u32::from(app.bpm), 121);
    app.update(Inputs { encoder: (false, false), ..quiet(2) });
    app.update(Inputs { encoder: (true, false), ..quiet(3) });
    assert_eq!(u32::from(app.bpm), 119);
    assert_eq!(app.encoder.get_offset(), -1);
}

#[test]
fn sequencer_notes_reach_the_mixer() {
    let mut app = app();
    app.set_volume(Volume::try_from(100).unwrap());
    app.update(quiet(0));
    // Half a second at 120 beats per minute is one beat: nothing lies inside it.
    assert_eq!(app.update(quiet(500 * MS)).frames, vec![0, 0, 0, 0]);
    // The next second passes the hi-hat on the third beat.
    let outcome = app.update(quiet(1_500 * MS));
    assert_eq!(outcome.frames, vec![1_000, 2_000, 0, 0]);
    assert_eq!(outcome.rejected, vec![]);
    assert_eq!(app.score.get_beat(), half_beats(6));
}

#[test]
fn drum_hits_reach_the_mixer() {
    let mut app = app();
    app.set_volume(Volume::try_from(100).unwrap());
    let outcome = app.update(Inputs { measurement: Some([0, 2_001, 2_001]), ..quiet(0) });
    assert_eq!(outcome.frames, vec![1_300, 2_400, 500, 0]);
    assert_eq!(outcome.rejected, vec![]);
}

#[test]
fn joystick_is_not_heard_before_a_reading_was_kept() {
    let mut app = app();
    let outcome = app.update(Inputs { joystick: Some(Direction::Left), ..quiet(0) });
    assert_eq!(outcome.status, UpdateStatus::Continue);
    app.update(Inputs { joystick: Some(Direction::Up), ..quiet(200 * MS) });
    assert_eq!(app.volume.as_percentage(), 2_000);
    assert_eq!(app.prev_joystick, None);
}

#[test]
fn joystick_moves_the_volume_and_ends_the_loop() {
    let mut app = app();
    app.prev_joystick = Some((0, Direction::Center));
    app.update(Inputs { joystick: Some(Direction::Up), ..quiet(1) });
    assert_eq!(app.volume.as_percentage(), 2_005);
    assert_eq!(app.prev_joystick, Some((1, Direction::Up)));
    // The same direction again is heard only after the period.
    app.update(Inputs { joystick: Some(Direction::Up), ..quiet(100 * MS + 1) });
    assert_eq!(app.volume.as_percentage(), 2_005);
    app.update(Inputs { joystick: Some(Direction::Up), ..quiet(100 * MS + 2) });
    assert_eq!(app.volume.as_percentage(), 2_010);
    app.update(Inputs { joystick: Some(Direction::Down), ..quiet(100 * MS + 3) });
    assert_eq!(app.volume.as_percentage(), 2_005);
    app.update(Inputs { joystick: Some(Direction::Right), ..quiet(100 * MS + 4) });
    assert_eq!(app.volume.as_percentage(), 2_005);
    let outcome = app.update(Inputs {
        joystick: Some(Direction::Left),
        command: Some(Command::Volume(Some(Volume::try_from(1).unwrap()))),
        ..quiet(100 * MS + 5)
    });
    assert_eq!(outcome.status, UpdateStatus::Quit);
    assert_eq!(app.volume.as_percentage(), 2_005);
    assert_eq!(app.prev_joystick, Some((100 * MS + 4, Direction::Right)));
}

#[test]
fn zero_capacity_holds_the_voices_back() {
    let mut app = app();
    let outcome = app.update(Inputs {
        command: Some(Command::Play(Some(Instrument::HiHat))),
        avail: 0,
        ..quiet(0)
    });
    assert_eq!(outcome.frames, vec![]);
    assert_eq!(app.playback.playing_count(), 1);
    assert_eq!(app.update(quiet(1)).frames, vec![200, 400, 0, 0]);
}
