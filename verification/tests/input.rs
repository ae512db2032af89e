use beatbox::hal::mcp320x::Channel;
use beatbox::input::accelerometer::Accelerometer;
use beatbox::input::drumkit::Drumkit;
use beatbox::input::drumkit::Event;
use beatbox::input::joystick::Direction;
use beatbox::input::joystick::Joystick;
use beatbox::sound::Instrument;

const MS: u64 = 1_000_000;

#[test]
fn stick_at_rest_is_centred() {
    assert_eq!(Direction::new(2048, 2048), Direction::Center);
    assert_eq!(Direction::new(1025, 3071), Direction::Center);
}

#[test]
fn stick_points_where_it_is_pushed_furthest() {
    assert_eq!(Direction::new(3072, 2048), Direction::Left);
    assert_eq!(Direction::new(1024, 2048), Direction::Right);
    assert_eq!(Direction::new(2048, 3072), Direction::Up);
    assert_eq!(Direction::new(2048, 1024), Direction::Down);
    assert_eq!(Direction::new(4095, 0), Direction::Down);
    assert_eq!(Direction::new(0, 1), Direction::Right);
    assert_eq!(Direction::new(4095, 4095), Direction::Up);
}

#[test]
fn joystick_needs_both_axes() {
    let joystick = Joystick::new(Channel::CH0, Channel::CH1);
    assert_eq!(joystick.channels(), [Channel::CH0, Channel::CH1]);
    assert_eq!(joystick.samples_per_axis(), 5);
    assert_eq!(joystick.get(Some(4000), Some(2048)), Some(Direction::Left));
    assert_eq!(joystick.get(None, Some(2048)), None);
    assert_eq!(joystick.get(Some(2048), None), None);
}

fn sensor() -> Accelerometer {
    Accelerometer::new(Channel::CH2, Channel::CH3, Channel::CH4, 420_000)
}

#[test]
fn acceleration_is_voltage_over_scale() {
    let acc = sensor();
    assert_eq!(acc.channels(), [Channel::CH2, Channel::CH3, Channel::CH4]);
    assert_eq!(acc.samples_per_axis(), 5);
    assert_eq!(
        acc.get([Some(420_000), Some(0), Some(1_000_000)]),
        Some([1_000, 0, 2_380])
    );
    assert_eq!(acc.get([Some(420_000), None, Some(1_000_000)]), None);
}

#[test]
fn hits_play_their_drums() {
    assert_eq!(Instrument::from(Event::A), Instrument::BassDrum);
    assert_eq!(Instrument::from(Event::B), Instrument::HiHat);
    assert_eq!(Instrument::from(Event::C), Instrument::Snare);
}

#[test]
fn drum_kit_hits_above_the_threshold_and_then_rests() {
    let mut kit = Drumkit::new(sensor(), [2_000, 2_000, 2_000], 100 * MS);
    assert_eq!(kit.get(Some([2_000, 2_001, 0]), 0), vec![Event::B]);
    assert_eq!(kit.get(Some([2_001, 9_000, 2_001]), 99 * MS), vec![Event::A, Event::C]);
    assert_eq!(kit.get(Some([9_000, 9_000, 9_000]), 100 * MS), vec![Event::B]);
    assert_eq!(kit.get(None, 500 * MS), vec![]);
    assert_eq!(
        kit.get(Some([9_000, 9_000, 9_000]), 500 * MS),
        vec![Event::A, Event::B, Event::C]
    );
    assert_eq!(kit.sensor().samples_per_axis(), 5);
}
