use beatbox::sound::score::half_beats;
use beatbox::sound::score::Score;
use beatbox::sound::score::ScoreType;
use beatbox::sound::score::Track;
use beatbox::sound::Instrument;
use beatbox::sound::NoteEvent;
use beatbox::units::Bpm;

const HALF_SECOND: u64 = 500_000_000;

fn one_track(offset_in_half_beats: u32) -> Score {
    let track = Track {
        instrument: Instrument::Snare,
        notes: vec![half_beats(offset_in_half_beats)],
    };
    Score::new(vec![track], half_beats(16), ScoreType::Empty).unwrap()
}

#[test]
fn first_update_only_anchors() {
    let mut score = one_track(1);
    let bpm = Bpm::try_from(120).unwrap();
    assert_eq!(score.update(bpm, 7), vec![]);
    assert_eq!(score.get_beat(), 0);
}

#[test]
fn note_inside_the_tick_fires() {
    let mut score = one_track(1);
    let bpm = Bpm::try_from(120).unwrap();
    score.update(bpm, 0);
    let events = score.update(bpm, HALF_SECOND);
    assert_eq!(events, vec![NoteEvent { instrument: Instrument::Snare }]);
    assert_eq!(score.get_beat(), half_beats(2));
}

#[test]
fn note_on_the_start_of_the_tick_does_not_fire() {
    let mut score = one_track(0);
    let bpm = Bpm::try_from(120).unwrap();
    assert_eq!(score.update(bpm, 0), vec![]);
    assert_eq!(score.update(bpm, HALF_SECOND), vec![]);
    assert_eq!(score.get_beat(), half_beats(2));
}

#[test]
fn note_at_offset_zero_fires_in_the_wrapped_tick() {
    let mut score = one_track(0);
    let bpm = Bpm::try_from(120).unwrap();
    score.set_beat(half_beats(15));
    score.update(bpm, 0);
    let events = score.update(bpm, HALF_SECOND);
    assert_eq!(events, vec![NoteEvent { instrument: Instrument::Snare }]);
    assert_eq!(score.get_beat(), half_beats(17));
}

#[test]
fn note_on_the_end_of_the_tick_waits() {
    let mut score = one_track(2);
    let bpm = Bpm::try_from(120).unwrap();
    score.update(bpm, 0);
    assert_eq!(score.update(bpm, HALF_SECOND), vec![]);
    assert_eq!(score.get_beat(), half_beats(2));
}

#[test]
fn unchanged_clock_gives_nothing_and_keeps_the_beat() {
    let mut score = ScoreType::Funky.apply();
    let bpm = Bpm::try_from(300).unwrap();
    score.update(bpm, 1_000);
    score.update(bpm, 2_000_000_000);
    let beat = score.get_beat();
    assert_eq!(score.update(bpm, 2_000_000_000), vec![]);
    assert_eq!(score.get_beat(), beat);
}

#[test]
fn clock_that_runs_backwards_counts_as_standing_still() {
    let mut score = ScoreType::Funky.apply();
    let bpm = Bpm::try_from(120).unwrap();
    score.update(bpm, 5_000);
    assert_eq!(score.update(bpm, 4_000), vec![]);
    assert_eq!(score.get_beat(), 0);
}

#[test]
fn beat_time_is_elapsed_nanoseconds_times_milli_tempo() {
    let mut score = ScoreType::Empty.apply();
    let bpm = Bpm::try_from(40).unwrap();
    score.update(bpm, 10);
    score.update(bpm, 17);
    assert_eq!(score.get_beat(), 7 * 40_000);
}

#[test]
fn long_pause_reports_each_note_once() {
    let mut score = one_track(3);
    let bpm = Bpm::try_from(120).unwrap();
    score.update(bpm, 0);
    let events = score.update(bpm, 100 * HALF_SECOND);
    assert_eq!(events, vec![NoteEvent { instrument: Instrument::Snare }]);
    assert_eq!(score.get_beat(), half_beats(200));
}

#[test]
fn events_come_track_by_track_in_the_order_of_the_notes() {
    let mut score = ScoreType::Funky.apply();
    let bpm = Bpm::try_from(120).unwrap();
    score.set_beat(half_beats(3));
    score.update(bpm, 0);
    // From beat 1.5 to beat 3.5: hi-hat at 2 and 3, snare at 2, bass drum at 3.
    let events = score.update(bpm, 2 * HALF_SECOND);
    assert_eq!(
        events,
        vec![
            NoteEvent { instrument: Instrument::HiHat },
            NoteEvent { instrument: Instrument::HiHat },
            NoteEvent { instrument: Instrument::Snare },
            NoteEvent { instrument: Instrument::BassDrum },
        ]
    );
}

#[test]
fn standard_pattern_plays_the_snare_on_the_fifth_beat() {
    let mut score = ScoreType::Standard.apply();
    let bpm = Bpm::try_from(120).unwrap();
    score.set_beat(half_beats(7));
    score.update(bpm, 0);
    let events = score.update(bpm, HALF_SECOND);
    assert_eq!(
        events,
        vec![
            NoteEvent { instrument: Instrument::HiHat },
            NoteEvent { instrument: Instrument::Snare },
        ]
    );
}

#[test]
fn empty_pattern_never_plays() {
    let mut score = Score::empty();
    let bpm = Bpm::try_from(300).unwrap();
    score.update(bpm, 0);
    assert_eq!(score.update(bpm, 60_000_000_000), vec![]);
    assert_eq!(score.get_beat(), 600 * half_beats(1));
}

#[test]
fn pattern_with_a_note_outside_the_loop_is_refused() {
    let track = Track { instrument: Instrument::HiHat, notes: vec![half_beats(16)] };
    assert!(Score::new(vec![track], half_beats(16), ScoreType::Empty).is_none());
}

#[test]
fn pattern_without_length_is_refused() {
    assert!(Score::new(vec![], 0, ScoreType::Empty).is_none());
}

#[test]
fn set_beat_and_get_beat_agree() {
    let mut score = Score::standard();
    score.set_beat(123_456_789);
    assert_eq!(score.get_beat(), 123_456_789);
    assert_eq!(score.t, ScoreType::Standard);
}

#[test]
fn room_for_an_update_is_told_before_it() {
    let mut score = Score::funky();
    let bpm = Bpm::try_from(120).unwrap();
    score.update(bpm, 0);
    assert!(score.fits(u64::MAX));
    score.set_beat(u128::MAX - 10);
    assert!(score.fits(0));
    assert!(!score.fits(1));
}

#[test]
fn pattern_kinds_go_round_in_a_circle() {
    assert_eq!(ScoreType::from_index(0), ScoreType::Empty);
    assert_eq!(ScoreType::from_index(1), ScoreType::Standard);
    assert_eq!(ScoreType::from_index(2), ScoreType::Funky);
    assert_eq!(ScoreType::from_index(3), ScoreType::Empty);
    assert_eq!(ScoreType::Funky.to_index(), 2);
    assert_eq!(ScoreType::Empty.to_string(), "None");
    assert_eq!(ScoreType::Standard.to_string(), "Stnd");
    assert_eq!(ScoreType::Funky.to_string(), "Funk");
}

#[test]
fn instruments_go_round_in_a_circle() {
    assert_eq!(Instrument::from_index(0), Instrument::HiHat);
    assert_eq!(Instrument::from_index(1), Instrument::Snare);
    assert_eq!(Instrument::from_index(2), Instrument::BassDrum);
    assert_eq!(Instrument::from_index(5), Instrument::BassDrum);
    assert_eq!(Instrument::Snare.to_index(), 1);
}
