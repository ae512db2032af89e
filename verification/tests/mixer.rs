use beatbox::sound::playback::saturating_sum;
use beatbox::sound::playback::scale_sample;
use beatbox::sound::playback::NotLoaded;
use beatbox::sound::playback::Playback;
use beatbox::sound::wav_supported;
use beatbox::sound::Instrument;
use beatbox::units::Volume;

fn full() -> Volume {
    Volume::try_from(100).unwrap()
}

fn half() -> Volume {
    Volume::try_from(50).unwrap()
}

fn mixer(chunk: usize) -> Playback {
    let mut playback = Playback::new(1, chunk);
    playback.add_instrument(vec![100, -200, 300, -32768], Instrument::Snare);
    playback
}

#[test]
fn voice_is_consumed_in_two_updates_and_then_silent() {
    let mut playback = mixer(2);
    assert_eq!(playback.start_sound(Instrument::Snare), Ok(()));
    assert_eq!(playback.update(2, full()), vec![100, -200]);
    assert_eq!(playback.playing_count(), 1);
    assert_eq!(playback.update(2, full()), vec![300, -32768]);
    assert_eq!(playback.playing_count(), 0);
    assert_eq!(playback.update(2, full()), vec![0, 0]);
}

#[test]
fn half_gain_rounds_halves_away_from_zero() {
    assert_eq!(scale_sample(32767, half()), 16384);
    assert_eq!(scale_sample(-32767, half()), -16384);
    assert_eq!(scale_sample(3, half()), 2);
    assert_eq!(scale_sample(-3, half()), -2);
    assert_eq!(scale_sample(-32768, full()), -32768);
    assert_eq!(scale_sample(12345, Volume::try_from(0).unwrap()), 0);
}

#[test]
fn half_gain_is_applied_in_the_mix() {
    let mut playback = Playback::new(1, 8);
    playback.add_instrument(vec![32767, -32767, 1], Instrument::HiHat);
    playback.start_sound(Instrument::HiHat).unwrap();
    assert_eq!(playback.update(3, half()), vec![16384, -16384, 1]);
}

#[test]
fn sum_of_two_voices_clamps_and_never_wraps() {
    assert_eq!(saturating_sum(30000, 30000), 32767);
    assert_eq!(saturating_sum(-30000, -30000), -32768);
    assert_eq!(saturating_sum(-5, 7), 2);
    let mut playback = Playback::new(1, 2);
    playback.add_instrument(vec![30000, -30000], Instrument::BassDrum);
    playback.start_sound(Instrument::BassDrum).unwrap();
    playback.start_sound(Instrument::BassDrum).unwrap();
    assert_eq!(playback.update(2, full()), vec![32767, -32768]);
}

#[test]
fn sum_clamps_after_each_voice_in_turn() {
    let mut playback = Playback::new(1, 1);
    playback.add_instrument(vec![30000], Instrument::HiHat);
    playback.add_instrument(vec![-30000], Instrument::Snare);
    playback.start_sound(Instrument::HiHat).unwrap();
    playback.start_sound(Instrument::HiHat).unwrap();
    playback.start_sound(Instrument::Snare).unwrap();
    assert_eq!(playback.update(1, full()), vec![2767]);
}

#[test]
fn output_is_bounded_by_chunk_and_capacity() {
    let mut playback = mixer(3);
    playback.start_sound(Instrument::Snare).unwrap();
    assert_eq!(playback.update(2, full()).len(), 2);
    assert_eq!(playback.update(100, full()).len(), 3);
}

#[test]
fn zero_capacity_changes_nothing() {
    let mut playback = mixer(2);
    playback.start_sound(Instrument::Snare).unwrap();
    assert_eq!(playback.update(0, full()), vec![]);
    assert_eq!(playback.playing_count(), 1);
    assert_eq!(playback.update(2, full()), vec![100, -200]);
}

#[test]
fn voice_ends_on_the_tick_of_its_last_frame() {
    let mut playback = Playback::new(1, 2);
    playback.add_instrument(vec![1, 2, 3], Instrument::HiHat);
    playback.start_sound(Instrument::HiHat).unwrap();
    assert_eq!(playback.update(2, full()), vec![1, 2]);
    assert_eq!(playback.playing_count(), 1);
    assert_eq!(playback.update(2, full()), vec![3, 0]);
    assert_eq!(playback.playing_count(), 0);
}

#[test]
fn every_channel_of_a_frame_carries_the_mix() {
    let mut playback = Playback::new(2, 2);
    playback.add_instrument(vec![7, -9], Instrument::Snare);
    playback.start_sound(Instrument::Snare).unwrap();
    assert_eq!(playback.update(5, full()), vec![7, 7, -9, -9]);
}

#[test]
fn instrument_without_sample_is_refused() {
    let mut playback = mixer(2);
    assert_eq!(playback.start_sound(Instrument::HiHat), Err(NotLoaded(Instrument::HiHat)));
    assert_eq!(playback.playing_count(), 0);
    let rejected =
        playback.start_sounds(&vec![Instrument::HiHat, Instrument::Snare, Instrument::BassDrum]);
    assert_eq!(rejected, vec![Instrument::HiHat, Instrument::BassDrum]);
    assert_eq!(playback.playing_count(), 1);
}

#[test]
fn voices_of_different_age_are_mixed() {
    let mut playback = mixer(2);
    playback.start_sound(Instrument::Snare).unwrap();
    assert_eq!(playback.update(1, full()), vec![100]);
    playback.start_sound(Instrument::Snare).unwrap();
    assert_eq!(playback.update(2, full()), vec![-100, 100]);
    assert_eq!(playback.playing_count(), 2);
}

#[test]
fn empty_sample_is_over_at_once() {
    let mut playback = Playback::new(1, 4);
    playback.add_instrument(vec![], Instrument::Snare);
    playback.start_sound(Instrument::Snare).unwrap();
    assert_eq!(playback.playing_count(), 1);
    assert_eq!(playback.update(1, full()), vec![0]);
    assert_eq!(playback.playing_count(), 0);
}

#[test]
fn only_mono_files_of_sixteen_bit_integers_are_samples() {
    assert!(wav_supported(true, 16, 1));
    assert!(!wav_supported(false, 16, 1));
    assert!(!wav_supported(true, 24, 1));
    assert!(!wav_supported(true, 16, 2));
}
