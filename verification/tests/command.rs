use beatbox::command::parse_number;
use beatbox::command::Command;
use beatbox::command::Error;
use beatbox::sound::score::ScoreType;
use beatbox::sound::Instrument;
use beatbox::units::Bpm;
use beatbox::units::Volume;

#[test]
fn commands_are_read_with_their_numbers() {
    assert_eq!(Command::parse("mode 1").unwrap(), Command::Mode(Some(ScoreType::Standard)));
    assert_eq!(Command::parse("mode 5").unwrap(), Command::Mode(Some(ScoreType::Funky)));
    assert_eq!(
        Command::parse("volume 50").unwrap(),
        Command::Volume(Some(Volume::try_from(50).unwrap()))
    );
    assert_eq!(
        Command::parse("tempo 120").unwrap(),
        Command::Tempo(Some(Bpm::try_from(120).unwrap()))
    );
    assert_eq!(Command::parse("play 2").unwrap(), Command::Play(Some(Instrument::BassDrum)));
    assert_eq!(Command::parse("stop").unwrap(), Command::Stop);
}

#[test]
fn command_words_are_read_in_any_case() {
    assert_eq!(Command::parse("MODE 1").unwrap(), Command::Mode(Some(ScoreType::Standard)));
    assert_eq!(Command::parse("Stop").unwrap(), Command::Stop);
    assert_eq!(Command::parse("  \tpLaY\n+0  rest").unwrap(), Command::Play(Some(Instrument::HiHat)));
}

#[test]
fn arguments_that_are_missing_or_wrong_count_as_none() {
    assert_eq!(Command::parse("mode").unwrap(), Command::Mode(None));
    assert_eq!(Command::parse("mode x").unwrap(), Command::Mode(None));
    assert_eq!(Command::parse("mode -1").unwrap(), Command::Mode(None));
    assert_eq!(Command::parse("volume 101").unwrap(), Command::Volume(None));
    assert_eq!(Command::parse("volume 4294967296").unwrap(), Command::Volume(None));
    assert_eq!(Command::parse("tempo 39").unwrap(), Command::Tempo(None));
    assert_eq!(Command::parse("tempo 301").unwrap(), Command::Tempo(None));
    assert_eq!(Command::parse("tempo 1e2").unwrap(), Command::Tempo(None));
    assert_eq!(Command::parse("play +").unwrap(), Command::Play(None));
    assert_eq!(
        Command::parse("play 99999999999999999999999999999999999999").unwrap(),
        Command::Play(None)
    );
}

#[test]
fn text_without_a_word_is_empty() {
    assert!(matches!(Command::parse(""), Err(Error::Empty)));
    assert!(matches!(Command::parse(" \n\t "), Err(Error::Empty)));
}

#[test]
fn unknown_word_is_given_back_in_lower_case() {
    match Command::parse(" HELLO 3") {
        Err(Error::Invalid(word)) => assert_eq!(word, "hello"),
        other => panic!("{:?}", other),
    }
    match Command::parse("stopp") {
        Err(Error::Invalid(word)) => assert_eq!(word, "stopp"),
        other => panic!("{:?}", other),
    }
}

#[test]
fn commands_are_built_from_lower_case_names_only() {
    assert_eq!(Command::build("stop".to_string(), None).unwrap(), Command::Stop);
    assert_eq!(
        Command::build("play".to_string(), Some("4")).unwrap(),
        Command::Play(Some(Instrument::Snare))
    );
    assert!(matches!(Command::build("STOP".to_string(), None), Err(Error::Invalid(_))));
}

#[test]
fn commands_are_read_through_from_str() {
    let command: Command = "tempo 300".parse().unwrap();
    assert_eq!(command, Command::Tempo(Some(Bpm::try_from(300).unwrap())));
}

#[test]
fn datagrams_that_are_no_commands_are_dropped() {
    assert_eq!(Command::received("stop\n"), Some(Command::Stop));
    assert_eq!(Command::received("halt"), None);
    assert_eq!(Command::received(""), None);
}

#[test]
fn numbers_are_read_up_to_a_bound() {
    assert_eq!(parse_number("0", 10), Some(0));
    assert_eq!(parse_number("+10", 10), Some(10));
    assert_eq!(parse_number("11", 10), None);
    assert_eq!(parse_number("0010", 10), Some(10));
    assert_eq!(parse_number("18446744073709551615", u64::MAX), Some(u64::MAX));
    assert_eq!(parse_number("18446744073709551616", u64::MAX), None);
    assert_eq!(parse_number("", 10), None);
    assert_eq!(parse_number("+", 10), None);
    assert_eq!(parse_number("++1", 10), None);
    assert_eq!(parse_number("1 ", 10), None);
    assert_eq!(parse_number("٣", 10), None);
}

#[test]
fn commands_are_written_as_text() {
    assert_eq!(Command::Mode(Some(ScoreType::Funky)).to_string(), "mode 2");
    assert_eq!(Command::Mode(None).to_string(), "mode null");
    assert_eq!(Command::Volume(Some(Volume::try_from(50).unwrap())).to_string(), "volume 50");
    assert_eq!(Command::Volume(None).to_string(), "volume null");
    assert_eq!(Command::Tempo(Some(Bpm::try_from(120).unwrap())).to_string(), "tempo 120");
    assert_eq!(Command::Tempo(None).to_string(), "tempo null");
    assert_eq!(Command::Play(Some(Instrument::HiHat)).to_string(), "play 0");
    assert_eq!(Command::Play(None).to_string(), "play null");
    assert_eq!(Command::Stop.to_string(), "stop");
}
