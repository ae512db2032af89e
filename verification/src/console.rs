//! The remote console of the sampler: short commands that come in as text
//! and the texts that go back.

use vstd::prelude::*;
use vstd::std_specs::convert::TryFromSpecImpl;
use vstd::string::StringExecFns;

use crate::sampler::dips;
use crate::sampler::recent;
use crate::sampler::voltage_of;
use crate::sampler::Sampler;
use crate::text::decimal;
use crate::text::lowercase;
use crate::text::three_places;
use crate::text::to_decimal;
use crate::text::to_lowercase;
use crate::text::to_three_places;
use crate::text::trim;
use crate::text::trimmed;
use crate::time::elapsed;
use crate::time::since;

verus! {

/// What the console can be asked.
#[derive(Debug, Clone, Copy, PartialEq, Eq, Structural)]
pub enum Command {
    Help,
    Count,
    Length,
    Dips,
    History,
    Stop,
    Repeat,
}

/// Why a text is no command.
#[derive(Debug, Clone, Copy, PartialEq, Eq, Structural)]
pub enum CommandParseError {
    Unknown,
}

/// What goes back to the sender.
#[derive(Debug)]
pub enum CommandsResult {
    /// Nothing: there was no text to read.
    Invalid,
    /// One text.
    Response(String),
    /// One text after the other.
    ManyResponse(Vec<String>),
    /// A farewell; the program then ends.
    Exit,
}

impl Command {
    /// The command that a text in lower case names once the white space at
    /// its ends is gone. An empty text asks for the last command again.
    pub open spec fn named(lower: Seq<char>) -> Option<Command> {
        let word = trimmed(lower);
        if word == "help"@ || word == "?"@ {
            Some(Command::Help)
        } else if word == "count"@ {
            Some(Command::Count)
        } else if word == "length"@ {
            Some(Command::Length)
        } else if word == "dips"@ {
            Some(Command::Dips)
        } else if word == "history"@ {
            Some(Command::History)
        } else if word == "stop"@ {
            Some(Command::Stop)
        } else if word == ""@ {
            Some(Command::Repeat)
        } else {
            None
        }
    }

    /// Reads a command from a text that is in lower case already.
    pub fn from_lowercase(lower: &str) -> (r: Result<Command, CommandParseError>)
        ensures
            r == match Self::named(lower@) {
                Some(command) => Ok::<Command, CommandParseError>(command),
                None => Err::<Command, CommandParseError>(CommandParseError::Unknown),
            },
    {
        let word: String = trim(lower).to_owned();
        if is_text(&word, "help") || is_text(&word, "?") {
            Ok(Command::Help)
        } else if is_text(&word, "count") {
            Ok(Command::Count)
        } else if is_text(&word, "length") {
            Ok(Command::Length)
        } else if is_text(&word, "dips") {
            Ok(Command::Dips)
        } else if is_text(&word, "history") {
            Ok(Command::History)
        } else if is_text(&word, "stop") {
            Ok(Command::Stop)
        } else if is_text(&word, "") {
            Ok(Command::Repeat)
        } else {
            Err(CommandParseError::Unknown)
        }
    }
}

impl TryFrom<String> for Command {
    type Error = CommandParseError;

    /// Reads a command from a text in any case.
    fn try_from(value: String) -> (r: Result<Command, CommandParseError>)
        ensures
            r == match Command::named(lowercase(value@)) {
                Some(command) => Ok::<Command, CommandParseError>(command),
                None => Err::<Command, CommandParseError>(CommandParseError::Unknown),
            },
    {
        let lower: String = to_lowercase(value.as_str());
        Command::from_lowercase(lower.as_str())
    }
}

impl TryFromSpecImpl<String> for Command {
    open spec fn obeys_try_from_spec() -> bool {
        true
    }

    open spec fn try_from_spec(value: String) -> Result<Command, CommandParseError> {
        match Command::named(lowercase(value@)) {
            Some(command) => Ok(command),
            None => Err(CommandParseError::Unknown),
        }
    }
}

/// The time between two reports of the state, in nanoseconds.
pub const REPORT_PERIOD: u64 = 1_000_000_000;

/// How many samples of the history a report shows.
pub const SHOWN: usize = 10;

/// Tells whether a report is due at `now`: there was none yet, or the last
/// one lies more than the report period back.
pub fn report_due(last_report: Option<u64>, now: u64) -> (r: bool)
    ensures
        r == match last_report {
            None => true,
            Some(last) => since(last, now) > REPORT_PERIOD,
        },
{
    match last_report {
        None => true,
        Some(last) => elapsed(last, now) > REPORT_PERIOD,
    }
}

/// The places of the samples that a report shows of a history of `len`
/// samples: ten places spread evenly from the first to the last.
pub fn spread(len: usize) -> (places: Vec<usize>)
    requires
        len > 0,
    ensures
        places@.len() == SHOWN,
        forall|i: int| 0 <= i < SHOWN ==> #[trigger] places@[i] == i * (len - 1) / 9,
{
    let mut places: Vec<usize> = Vec::new();
    let mut i: usize = 0;
    while i < SHOWN
        invariant
            i <= SHOWN,
            len > 0,
            places@.len() == i,
            forall|k: int| 0 <= k < i ==> #[trigger] places@[k] == k * (len - 1) / 9,
        decreases SHOWN - i,
    {
        assert(0 <= i * (len - 1) <= 9 * (len - 1)) by (nonlinear_arith)
            requires
                0 <= i <= 9,
                len > 0,
        ;
        let wide: u128 = i as u128 * (len - 1) as u128;
        places.push((wide / 9) as usize);
        i = i + 1;
    }
    places
}

/// Tells whether a text is the text `other`.
fn is_text(text: &String, other: &str) -> (r: bool)
    ensures
        r == (text@ == other@),
{
    let other: String = other.to_owned();
    *text == other
}

/// The answer to a call for help.
pub open spec fn help_text() -> Seq<char> {
    "\nAccepted command examples:\ncount   -- get the total number of samples taken.\nlength  -- get the number of samples taken in the previously completed second.\ndips    -- get the number of dips in the previously completed second.\nhistory -- get all the samples in the previously completed second.\nstop    -- cause the server program to end.\n<enter> -- repeat last command. \n"@
}

/// The answer that tells how many samples were taken in all.
pub open spec fn count_text(total: nat) -> Seq<char> {
    "# samples taken total: "@ + decimal(total) + "\n"@
}

/// The answer that tells how many samples the window holds.
pub open spec fn length_text(length: nat) -> Seq<char> {
    "# samples taken last second: "@ + decimal(length) + "\n"@
}

/// The answer that tells how many dips the window holds.
pub open spec fn dips_text(count: nat) -> Seq<char> {
    "# Dips: "@ + decimal(count) + "\n"@
}

/// The answer to a text that is no command.
pub open spec fn unknown_text(text: Seq<char>) -> Seq<char> {
    "Unkown command: \""@ + trimmed(text) + "\". Type help for a list of valid commands.\n"@
}

/// A voltage in microvolts as volts with three places, rounded to the
/// nearest thousandth.
pub open spec fn volts_text(voltage: u64) -> Seq<char> {
    three_places(((voltage + 500) / 1000) as nat)
}

/// Some voltages in a row, each with a comma after it.
pub open spec fn joined(voltages: Seq<u64>) -> Seq<char>
    decreases voltages.len(),
{
    if voltages.len() == 0 {
        Seq::empty()
    } else {
        joined(voltages.drop_last()) + volts_text(voltages.last()) + ","@
    }
}

/// How many voltages go into one line.
pub const PER_LINE: usize = 10;

/// The voltages in lines of ten, the last line with what is left.
pub open spec fn history_lines(voltages: Seq<u64>) -> Seq<Seq<char>>
    decreases voltages.len(),
{
    if voltages.len() == 0 {
        Seq::empty()
    } else {
        let k = if voltages.len() < PER_LINE {
            voltages.len() as int
        } else {
            PER_LINE as int
        };
        seq![joined(voltages.take(k)) + "\n"@] + history_lines(voltages.skip(k))
    }
}

/// The text of a string.
pub open spec fn text_of() -> spec_fn(String) -> Seq<char> {
    |line: String| line@
}

/// The command that is carried out: the one that was asked for, or the one
/// before it if that was asked for again.
pub open spec fn chosen(asked: Option<Command>, previous: Option<Command>) -> Option<Command> {
    if asked == Some(Command::Repeat) {
        previous
    } else {
        asked
    }
}

/// Whether `r` is the answer to the command `command` on the sampler
/// `sampler` at `now`, where `text` is what came in.
pub open spec fn answers(
    r: CommandsResult,
    command: Option<Command>,
    sampler: Sampler,
    text: Seq<char>,
    now: u64,
) -> bool {
    let history = sampler.samples().filter(recent(now, sampler.period())).map_values(voltage_of());
    match command {
        Some(Command::Help) => r matches CommandsResult::Response(s) && s@ == help_text(),
        Some(Command::Count) => r matches CommandsResult::Response(s) && s@ == count_text(
            sampler.total() as nat,
        ),
        Some(Command::Length) => r matches CommandsResult::Response(s) && s@ == length_text(
            history.len(),
        ),
        Some(Command::Dips) => r matches CommandsResult::Response(s) && s@ == dips_text(
            match sampler.avg() {
                None => 0,
                Some(avg) => dips(history, avg as int).1,
            },
        ),
        Some(Command::History) => r matches CommandsResult::ManyResponse(lines)
            && lines@.map_values(text_of()) == history_lines(history),
        Some(Command::Stop) => r matches CommandsResult::Exit,
        Some(Command::Repeat) | None => r matches CommandsResult::Response(s) && s@
            == unknown_text(text),
    }
}

/// Writes one line of the history.
fn history_line(voltages: &Vec<u64>, from: usize, to: usize) -> (r: String)
    requires
        from <= to <= voltages@.len(),
    ensures
        r@ == joined(voltages@.subrange(from as int, to as int)) + "\n"@,
{
    let ghost chunk = voltages@.subrange(from as int, to as int);
    let mut r: String = String::new();
    let mut i: usize = from;
    proof {
        assert(chunk.take(0) =~= Seq::<u64>::empty());
        assert(r@ =~= joined(chunk.take(0)));
    }
    while i < to
        invariant
            from <= i <= to <= voltages@.len(),
            chunk == voltages@.subrange(from as int, to as int),
            r@ == joined(chunk.take(i - from)),
        decreases to - i,
    {
        let voltage: u64 = voltages[i];
        proof {
            assert(chunk.take(i - from + 1).drop_last() =~= chunk.take(i - from));
            assert(chunk.take(i - from + 1).last() == voltage);
        }
        let text: String = to_three_places(((voltage as u128) + 500) / 1000);
        r.append(text.as_str());
        r.append(",");
        proof {
            assert(r@ =~= joined(chunk.take(i - from)) + volts_text(voltage) + ","@);
        }
        i = i + 1;
    }
    proof {
        assert(chunk.take(to - from) =~= chunk);
    }
    r.append("\n");
    r
}

/// Writes the history in lines of ten voltages.
fn history_text(voltages: &Vec<u64>) -> (lines: Vec<String>)
    ensures
        lines@.map_values(text_of()) == history_lines(voltages@),
{
    let n: usize = voltages.len();
    let mut lines: Vec<String> = Vec::new();
    let mut i: usize = 0;
    proof {
        assert(voltages@.skip(0) =~= voltages@);
        assert(lines@.map_values(text_of()) + history_lines(voltages@.skip(0)) =~= history_lines(
            voltages@,
        ));
    }
    while i < n
        invariant
            i <= n,
            n == voltages@.len(),
            lines@.map_values(text_of()) + history_lines(voltages@.skip(i as int)) == history_lines(
                voltages@,
            ),
        decreases n - i,
    {
        let to: usize = if n - i < PER_LINE {
            n
        } else {
            i + PER_LINE
        };
        let line: String = history_line(voltages, i, to);
        proof {
            let rest = voltages@.skip(i as int);
            let k = to - i;
            assert(rest.take(k) =~= voltages@.subrange(i as int, to as int));
            assert(rest.skip(k) =~= voltages@.skip(to as int));
            assert(history_lines(rest) == seq![line@] + history_lines(voltages@.skip(to as int)));
            assert(lines@.push(line).map_values(text_of()) =~= lines@.map_values(text_of()).push(
                line@,
            ));
            assert(lines@.map_values(text_of()).push(line@) + history_lines(
                voltages@.skip(to as int),
            ) =~= lines@.map_values(text_of()) + (seq![line@] + history_lines(
                voltages@.skip(to as int),
            )));
        }
        lines.push(line);
        i = to;
    }
    proof {
        assert(voltages@.skip(n as int) =~= Seq::<u64>::empty());
        assert(lines@.map_values(text_of()) + Seq::<Seq<char>>::empty() =~= lines@.map_values(
            text_of(),
        ));
    }
    lines
}

/// A text with a number and a line break after it.
fn numbered(head: &str, n: u128) -> (r: String)
    ensures
        r@ == head@ + decimal(n as nat) + "\n"@,
{
    let mut r: String = head.to_owned();
    let digits: String = to_decimal(n);
    r.append(digits.as_str());
    r.append("\n");
    r
}

/// Answers what came in from the console.
///
/// `response` is nothing if no datagram came in, and holds nothing if the
/// datagram was no text. An empty text asks for the command before it
/// again. A command that is carried out is remembered in
/// `previous_command`.
pub fn handle_commands(
    sampler: &mut Sampler,
    previous_command: &mut Option<Command>,
    response: Option<Option<String>>,
    now: u64,
) -> (r: CommandsResult)
    ensures
        *final(sampler) == *old(sampler),
        match response {
            Some(Some(text)) => {
                let command = chosen(Command::named(lowercase(text@)), *old(previous_command));
                &&& *final(previous_command) == if command.is_some() {
                    command
                } else {
                    *old(previous_command)
                }
                &&& answers(r, command, *old(sampler), text@, now)
            },
            _ => r matches CommandsResult::Invalid && *final(previous_command) == *old(
                previous_command,
            ),
        },
{
    let command_text: String = match response {
        Some(Some(text)) => text,
        _ => {
            return CommandsResult::Invalid;
        },
    };
    let mut command: Result<Command, CommandParseError> = Command::try_from(command_text.clone());
    match command {
        Ok(Command::Repeat) => {
            command = match *previous_command {
                Some(previous) => Ok(previous),
                None => Err(CommandParseError::Unknown),
            };
        },
        _ => {},
    }
    match command {
        Ok(command) => {
            *previous_command = Some(command);
        },
        Err(_) => {},
    }
    match command {
        Ok(Command::Help) => CommandsResult::Response(
            "\nAccepted command examples:\ncount   -- get the total number of samples taken.\nlength  -- get the number of samples taken in the previously completed second.\ndips    -- get the number of dips in the previously completed second.\nhistory -- get all the samples in the previously completed second.\nstop    -- cause the server program to end.\n<enter> -- repeat last command. \n".to_owned(),
        ),
        Ok(Command::Count) => CommandsResult::Response(
            numbered("# samples taken total: ", sampler.get_total_samples()),
        ),
        Ok(Command::Length) => CommandsResult::Response(
            numbered("# samples taken last second: ", sampler.history_size(now) as u128),
        ),
        Ok(Command::Dips) => CommandsResult::Response(
            numbered("# Dips: ", sampler.get_dips_count(now) as u128),
        ),
        Ok(Command::History) => {
            let history: Vec<u64> = sampler.history(now);
            CommandsResult::ManyResponse(history_text(&history))
        },
        Ok(Command::Stop) => CommandsResult::Exit,
        Ok(Command::Repeat) | Err(_) => {
            let mut text: String = "Unkown command: \"".to_owned();
            text.append(trim(command_text.as_str()));
            text.append("\". Type help for a list of valid commands.\n");
            CommandsResult::Response(text)
        },
    }
}

} // verus!
