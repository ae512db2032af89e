use beatbox::console::handle_commands;
use beatbox::console::report_due;
use beatbox::console::spread;
use beatbox::console::Command;
use beatbox::console::CommandParseError;
use beatbox::console::CommandsResult;
use beatbox::sampler::Sample;
use beatbox::sampler::Sampler;

fn response(result: CommandsResult) -> String {
    match result {
        CommandsResult::Response(text) => text,
        other => panic!("{:?}", other),
    }
}

fn ask(sampler: &mut Sampler, previous: &mut Option<Command>, text: &str) -> CommandsResult {
    handle_commands(sampler, previous, Some(Some(text.to_string())), 100)
}

fn filled() -> Sampler {
    let mut sampler = Sampler::new();
    let mut samples = vec![];
    for i in 0..12u64 {
        samples.push(Sample::new(1_000_000 + i * 1_499, i));
    }
    sampler.extend_samples(&samples, 12);
    sampler
}

#[test]
fn console_words_are_read_in_any_case_and_trimmed() {
    assert_eq!(Command::try_from(" HeLp\n".to_string()), Ok(Command::Help));
    assert_eq!(Command::try_from("?".to_string()), Ok(Command::Help));
    assert_eq!(Command::try_from("count".to_string()), Ok(Command::Count));
    assert_eq!(Command::try_from("LENGTH".to_string()), Ok(Command::Length));
    assert_eq!(Command::try_from("dips".to_string()), Ok(Command::Dips));
    assert_eq!(Command::try_from("history".to_string()), Ok(Command::History));
    assert_eq!(Command::try_from("stop".to_string()), Ok(Command::Stop));
    assert_eq!(Command::try_from("  ".to_string()), Ok(Command::Repeat));
    assert_eq!(Command::try_from("he lp".to_string()), Err(CommandParseError::Unknown));
    assert_eq!(Command::from_lowercase("STOP"), Err(CommandParseError::Unknown));
}

#[test]
fn nothing_to_read_is_invalid() {
    let mut sampler = Sampler::new();
    let mut previous = Some(Command::Count);
    assert!(matches!(
        handle_commands(&mut sampler, &mut previous, None, 0),
        CommandsResult::Invalid
    ));
    assert!(matches!(
        handle_commands(&mut sampler, &mut previous, Some(None), 0),
        CommandsResult::Invalid
    ));
    assert_eq!(previous, Some(Command::Count));
}

#[test]
fn counts_are_answered_in_words() {
    let mut sampler = filled();
    let mut previous = None;
    assert_eq!(
        response(ask(&mut sampler, &mut previous, "count")),
        "# samples taken total: 12\n"
    );
    assert_eq!(previous, Some(Command::Count));
    assert_eq!(
        response(ask(&mut sampler, &mut previous, "length")),
        "# samples taken last second: 12\n"
    );
    assert_eq!(response(ask(&mut sampler, &mut previous, "dips")), "# Dips: 0\n");
    assert_eq!(previous, Some(Command::Dips));
}

#[test]
fn empty_text_repeats_the_last_command() {
    let mut sampler = filled();
    let mut previous = None;
    assert_eq!(
        response(ask(&mut sampler, &mut previous, "\n")),
        "Unkown command: \"\". Type help for a list of valid commands.\n"
    );
    assert_eq!(previous, None);
    ask(&mut sampler, &mut previous, "count");
    assert_eq!(response(ask(&mut sampler, &mut previous, "")), "# samples taken total: 12\n");
    assert_eq!(previous, Some(Command::Count));
}

#[test]
fn unknown_text_is_given_back_trimmed() {
    let mut sampler = Sampler::new();
    let mut previous = Some(Command::Stop);
    assert_eq!(
        response(ask(&mut sampler, &mut previous, "  Fnord 1 \n")),
        "Unkown command: \"Fnord 1\". Type help for a list of valid commands.\n"
    );
    assert_eq!(previous, Some(Command::Stop));
}

#[test]
fn history_comes_in_lines_of_ten() {
    let mut sampler = filled();
    let mut previous = None;
    match ask(&mut sampler, &mut previous, "history") {
        CommandsResult::ManyResponse(lines) => assert_eq!(
            lines,
            vec![
                "1.000,1.001,1.003,1.004,1.006,1.007,1.009,1.010,1.012,1.013,\n",
                "1.015,1.016,\n",
            ]
        ),
        other => panic!("{:?}", other),
    }
}

#[test]
fn stop_ends_and_help_explains() {
    let mut sampler = Sampler::new();
    let mut previous = None;
    assert!(matches!(ask(&mut sampler, &mut previous, "stop"), CommandsResult::Exit));
    let help = response(ask(&mut sampler, &mut previous, "help"));
    assert!(help.starts_with("\nAccepted command examples:\ncount   -- "));
    assert!(help.ends_with("<enter> -- repeat last command. \n"));
    assert_eq!(help.lines().count(), 8);
}

#[test]
fn reports_come_more_than_a_second_apart() {
    assert!(report_due(None, 0));
    assert!(!report_due(Some(5), 1_000_000_005));
    assert!(report_due(Some(5), 1_000_000_006));
    assert!(!report_due(Some(5), 0));
}

#[test]
fn report_shows_ten_samples_spread_over_the_history() {
    assert_eq!(spread(1), vec![0; 10]);
    assert_eq!(spread(10), vec![0, 1, 2, 3, 4, 5, 6, 7, 8, 9]);
    assert_eq!(spread(100), vec![0, 11, 22, 33, 44, 55, 66, 77, 88, 99]);
    assert_eq!(spread(usize::MAX)[9], usize::MAX - 1);
}
