use beatbox::hal::button::Button;
use beatbox::hal::button::Event;
use beatbox::hal::encoder::decode;
use beatbox::hal::encoder::Encoder;
use beatbox::hal::encoder::Pulse;
use beatbox::hal::mcp320x::Channel;
use beatbox::hal::mcp320x::MCP320X;
use beatbox::hal::pwm::Attribute;
use beatbox::hal::pwm::Frequency;
use beatbox::hal::pwm::Pwm;
use beatbox::hal::pwm::Write;
use beatbox::hal::pwm::PWM;

const MS: u64 = 1_000_000;

fn button() -> Button {
    Button::new(20 * MS, 250 * MS, 100 * MS)
}

#[test]
fn button_reports_a_press_at_once() {
    let mut button = button();
    assert_eq!(button.update(false, 0), None);
    assert_eq!(button.update(true, 5 * MS), Some(Event::Pressed));
    assert_eq!(button.update(true, 6 * MS), None);
}

#[test]
fn button_held_down_repeats() {
    let mut button = button();
    assert_eq!(button.update(true, 0), Some(Event::Pressed));
    assert_eq!(button.update(true, 250 * MS), None);
    assert_eq!(button.update(true, 251 * MS), Some(Event::Pressed));
    assert_eq!(button.update(true, 351 * MS), None);
    assert_eq!(button.update(true, 352 * MS), Some(Event::Repeat));
    assert_eq!(button.update(true, 453 * MS), Some(Event::Repeat));
}

#[test]
fn button_ignores_a_bounce_of_the_contact() {
    let mut button = button();
    assert_eq!(button.update(true, 0), Some(Event::Pressed));
    assert_eq!(button.update(false, 19 * MS), None);
    assert_eq!(button.update(true, 21 * MS), None);
    assert_eq!(button.update(false, 30 * MS), None);
    assert_eq!(button.update(true, 31 * MS), Some(Event::Pressed));
}

#[test]
fn pulses_count_down_clockwise_and_up_counterclockwise() {
    assert_eq!(Pulse::Cw.delta(), -1);
    assert_eq!(Pulse::Ccw.delta(), 1);
}

#[test]
fn pin_readings_decode_to_steps() {
    assert_eq!(decode((false, false), (true, false)), Some(Pulse::Cw));
    assert_eq!(decode((true, false), (true, true)), Some(Pulse::Cw));
    assert_eq!(decode((true, true), (false, true)), Some(Pulse::Cw));
    assert_eq!(decode((false, true), (false, false)), Some(Pulse::Cw));
    assert_eq!(decode((false, false), (false, true)), Some(Pulse::Ccw));
    assert_eq!(decode((false, true), (true, true)), Some(Pulse::Ccw));
    assert_eq!(decode((true, true), (true, false)), Some(Pulse::Ccw));
    assert_eq!(decode((true, false), (false, false)), Some(Pulse::Ccw));
    assert_eq!(decode((true, false), (true, false)), None);
    assert_eq!(decode((false, false), (true, true)), None);
}

#[test]
fn encoder_follows_the_steps_within_its_limits() {
    let mut encoder = Encoder::new(0, 2, 1);
    encoder.update(false, false);
    assert_eq!(encoder.get_offset(), 1);
    encoder.update(false, true);
    assert_eq!(encoder.get_offset(), 2);
    encoder.update(true, true);
    assert_eq!(encoder.get_offset(), 2);
    encoder.update(false, true);
    assert_eq!(encoder.get_offset(), 1);
    encoder.update(true, false);
    assert_eq!(encoder.get_offset(), 1);
    encoder.update(false, false);
    assert_eq!(encoder.get_offset(), 0);
}

#[test]
fn encoder_adds_many_steps_at_once() {
    let mut encoder = Encoder::new(0, 600, 10);
    encoder.add(25);
    assert_eq!(encoder.get_offset(), 35);
    encoder.add(-100);
    assert_eq!(encoder.get_offset(), 0);
    encoder.add(i32::MAX);
    assert_eq!(encoder.get_offset(), 600);
}

#[test]
fn converter_packets_carry_the_channel() {
    assert_eq!(MCP320X::get_tx(Channel::CH0), [0b110, 0b0000_0000, 0]);
    assert_eq!(MCP320X::get_tx(Channel::CH1), [0b110, 0b0100_0000, 0]);
    assert_eq!(MCP320X::get_tx(Channel::CH3), [0b110, 0b1100_0000, 0]);
    assert_eq!(MCP320X::get_tx(Channel::CH4), [0b111, 0b0000_0000, 0]);
    assert_eq!(MCP320X::get_tx(Channel::CH7), [0b111, 0b1100_0000, 0]);
    assert_eq!(Channel::CH5.number(), 5);
    assert_eq!(Channel::CH2.to_string(), "CH2\n");
}

#[test]
fn converter_answers_hold_twelve_bits() {
    assert_eq!(MCP320X::parse_rx([0xFF, 0xFF, 0xFF]), 4095);
    assert_eq!(MCP320X::parse_rx([0, 0xF0, 0]), 0);
    assert_eq!(MCP320X::parse_rx([0, 0x12, 0x34]), 0x234);
    assert_eq!(MCP320X::get_single([9, 0x08, 0x00]), 2048);
}

#[test]
fn median_is_the_middle_of_the_sorted_readings() {
    assert_eq!(MCP320X::get_median(&vec![5, 1, 4, 2, 3]), 3);
    assert_eq!(MCP320X::get_median(&vec![9]), 9);
    assert_eq!(MCP320X::get_median(&vec![1, 2]), 2);
    assert_eq!(MCP320X::get_median(&vec![7, 7, 1, 7]), 7);
    assert_eq!(MCP320X::get_median(&vec![4, 1, 1, 9, 1]), 1);
}

#[test]
fn voltage_is_the_share_of_the_reference() {
    let adc = MCP320X::new(3_300_000);
    assert_eq!(adc.to_voltage(0), 0);
    assert_eq!(adc.to_voltage(2048), 1_650_000);
    assert_eq!(adc.to_voltage(4095), 3_299_194);
    assert_eq!(adc.get_voltage_single([0, 0x08, 0x00]), 1_650_000);
    assert_eq!(adc.get_voltage_median(&vec![0, 4095, 2048]), 1_650_000);
}

#[test]
fn frequency_keeps_its_hertz() {
    assert_eq!(Frequency::hz(440).as_hz(), 440);
    assert_eq!(Frequency::hz(440).to_string(), "440Hz");
    assert_eq!(Frequency::hz(0).to_string(), "0Hz");
}

fn write(attribute: Attribute, value: u64) -> Write {
    Write { attribute, value }
}

#[test]
fn pwm_is_brought_to_a_known_state() {
    let mut led = Pwm::new("/dev/hat/pwm/GPIO16");
    assert_eq!(led.directory(), "/dev/hat/pwm/GPIO16");
    assert_eq!(
        led.init(),
        vec![
            write(Attribute::Period, 1_000_000),
            write(Attribute::DutyCycle, 500_000),
            write(Attribute::Enable, 0),
        ]
    );
}

#[test]
fn pwm_sets_a_new_frequency_and_switches_on() {
    let mut led = Pwm::new("pwm");
    assert_eq!(
        led.set(Frequency::hz(10)),
        vec![
            write(Attribute::DutyCycle, 250_000),
            write(Attribute::Period, 500_000),
            write(Attribute::Period, 100_000_000),
            write(Attribute::DutyCycle, 50_000_000),
            write(Attribute::Enable, 1),
        ]
    );
    assert_eq!(led.set(Frequency::hz(10)), vec![]);
    assert_eq!(
        led.set(Frequency::hz(3)),
        vec![
            write(Attribute::DutyCycle, 250_000),
            write(Attribute::Period, 500_000),
            write(Attribute::Period, 333_333_333),
            write(Attribute::DutyCycle, 166_666_666),
        ]
    );
}

#[test]
fn pwm_rests_at_frequency_zero() {
    let mut led = Pwm::new("pwm");
    assert_eq!(led.set(Frequency::hz(0)), vec![]);
    led.set(Frequency::hz(5));
    assert_eq!(led.set(Frequency::hz(0)), vec![write(Attribute::Enable, 0)]);
    assert_eq!(led.set(Frequency::hz(5)), vec![]);
    assert_eq!(led.set_enable(true), vec![write(Attribute::Enable, 1)]);
    assert_eq!(led.set_enable(true), vec![]);
}

#[test]
fn pwm_with_duty_cycle_writes_only_what_changed() {
    let mut led = PWM::new("pwm");
    assert_eq!(led.directory(), "pwm");
    assert_eq!(
        led.set(Frequency::hz(4), 500_000_000, true),
        vec![
            write(Attribute::DutyCycle, 0),
            write(Attribute::Period, 250_000_000),
            write(Attribute::DutyCycle, 125_000_000),
            write(Attribute::Enable, 1),
        ]
    );
    assert_eq!(led.set(Frequency::hz(4), 500_000_000, true), vec![]);
    assert_eq!(led.set_enable(true), vec![]);
    assert_eq!(led.set_enable(false), vec![write(Attribute::Enable, 0)]);
    assert_eq!(led.set(Frequency::hz(4), 500_000_000, true).len(), 4);
}
