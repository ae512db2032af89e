//! The commands of the remote control channel and their text.
//!
//! A command is a word, in any case, and for most words a number after it:
//! `mode 1`, `volume 50`, `tempo 120`, `play 2`, `stop`. Words and numbers
//! are set apart by white space; what follows the number is not read.

use vstd::prelude::*;
use vstd::string::StrSliceExecFns;
use vstd::string::StringExecFns;

use crate::sound::score::ScoreType;
use crate::sound::Instrument;
use crate::text::decimal;
use crate::text::lowercase;
use crate::text::skip_spaces;
use crate::text::skip_token;
use crate::text::space_end;
use crate::text::to_decimal;
use crate::text::to_lowercase;
use crate::text::token_end;
use crate::units::Bpm;
use crate::units::Volume;

verus! {

/// A command, with its argument where the text gave a valid one.
#[derive(Debug, Clone, Copy, PartialEq)]
pub enum Command {
    Mode(Option<ScoreType>),
    Volume(Option<Volume>),
    Tempo(Option<Bpm>),
    Play(Option<Instrument>),
    Stop,
}

/// Why a text is no command.
#[derive(Debug)]
pub enum Error {
    /// The text holds nothing but white space.
    Empty,
    /// The first word, in lower case, is not the name of a command.
    Invalid(String),
    MissingArg(&'static str),
    InvalidArg(&'static str),
    OutOfRangeArg(&'static str),
}

/// Whether `c` is a decimal digit.
pub open spec fn is_digit(c: char) -> bool {
    0x30 <= c as u32 <= 0x39
}

/// The number that a run of decimal digits stands for.
pub open spec fn digits_value(s: Seq<char>) -> nat
    decreases s.len(),
{
    if s.len() == 0 {
        0
    } else {
        digits_value(s.drop_last()) * 10 + (s.last() as u32 - 0x30) as nat
    }
}

/// The digits of a number: the token without a plus sign at its front.
pub open spec fn unsigned(token: Seq<char>) -> Seq<char> {
    if token.len() > 0 && token[0] == '+' {
        token.subrange(1, token.len() as int)
    } else {
        token
    }
}

/// The number that a token stands for, if it is one: decimal digits, at
/// least one, with or without a plus sign before them.
pub open spec fn number(token: Seq<char>) -> Option<nat> {
    let digits = unsigned(token);
    if digits.len() > 0 && forall|i: int| 0 <= i < digits.len() ==> is_digit(#[trigger] digits[i]) {
        Some(digits_value(digits))
    } else {
        None
    }
}

/// The number of an argument, if there is an argument, it is a number, and
/// the number is at most `max`.
pub open spec fn arg_number(arg: Option<Seq<char>>, max: nat) -> Option<nat> {
    match arg {
        None => None,
        Some(token) => match number(token) {
            Some(n) => if n <= max {
                Some(n)
            } else {
                None
            },
            None => None,
        },
    }
}

/// Whether `r` is what the word `name`, in lower case already, and the
/// argument `arg` give.
///
/// `mode` and `play` take the pattern and the instrument at the place the
/// number names, counted in a circle. `volume` takes a whole percentage up
/// to 100 and `tempo` a whole number of beats per minute from 40 to 300.
/// An argument that is missing, no number or out of range counts as none.
/// Any other word than these and `stop` is an error that holds the word.
pub open spec fn built(r: Result<Command, Error>, name: Seq<char>, arg: Option<Seq<char>>) -> bool {
    if name == "mode"@ {
        r matches Ok(Command::Mode(kind)) && kind == match arg_number(arg, usize::MAX as nat) {
            Some(n) => Some(ScoreType::of_index(n as int)),
            None => None,
        }
    } else if name == "volume"@ {
        r matches Ok(Command::Volume(volume)) && match arg_number(arg, u32::MAX as nat) {
            Some(n) => if n <= 100 {
                volume matches Some(v) && v.wf() && v.value() == n * 100
            } else {
                volume.is_none()
            },
            None => volume.is_none(),
        }
    } else if name == "tempo"@ {
        r matches Ok(Command::Tempo(bpm)) && match arg_number(arg, u32::MAX as nat) {
            Some(n) => if 40 <= n <= 300 {
                bpm matches Some(b) && b.wf() && b.value() == n * 1000
            } else {
                bpm.is_none()
            },
            None => bpm.is_none(),
        }
    } else if name == "play"@ {
        r matches Ok(Command::Play(instrument)) && instrument == match arg_number(
            arg,
            usize::MAX as nat,
        ) {
            Some(n) => Some(Instrument::of_index(n as int)),
            None => None,
        }
    } else if name == "stop"@ {
        r matches Ok(Command::Stop)
    } else {
        r matches Err(Error::Invalid(word)) && word@ == name
    }
}

/// Reads a number from a token, if it stands for one that is at most
/// `max`.
pub fn parse_number(token: &str, max: u64) -> (r: Option<u64>)
    ensures
        r.is_some() <==> arg_number(Some(token@), max as nat).is_some(),
        r.is_some() ==> r.unwrap() == arg_number(Some(token@), max as nat).unwrap(),
{
    let n: usize = token.unicode_len();
    let start: usize = if n > 0 && token.get_char(0) == '+' {
        1
    } else {
        0
    };
    let ghost digits = unsigned(token@);
    if start == n {
        return None;
    }
    let mut value: u64 = 0;
    let mut over: bool = false;
    let mut i: usize = start;
    proof {
        assert(digits.take(0) =~= Seq::<char>::empty());
    }
    while i < n
        invariant
            start <= i <= n,
            n == token@.len(),
            digits == unsigned(token@),
            digits.len() == n - start,
            forall|k: int| 0 <= k < digits.len() ==> digits[k] == token@[k + start],
            forall|k: int| 0 <= k < i - start ==> is_digit(#[trigger] digits[k]),
            !over ==> value == digits_value(digits.take(i - start)) && value <= max,
            over ==> digits_value(digits.take(i - start)) > max,
        decreases n - i,
    {
        let c: char = token.get_char(i);
        let code: u32 = c as u32;
        proof {
            assert(digits[i - start] == c);
            assert(digits.take(i - start + 1).drop_last() =~= digits.take(i - start));
            assert(digits.take(i - start + 1).last() == c);
        }
        if code < 0x30 || code > 0x39 {
            proof {
                assert(!is_digit(digits[i - start]));
            }
            return None;
        }
        let d: u64 = (code - 0x30) as u64;
        if over {
            proof {
                let before = digits_value(digits.take(i - start)) as int;
                assert(before * 10 + d as int > max) by (nonlinear_arith)
                    requires
                        before > max,
                        d >= 0,
                        max >= 0,
                ;
            }
        } else if d > max {
            over = true;
        } else if value > (max - d) / 10 {
            over = true;
            proof {
                let v = value as int;
                let m = max as int;
                let dd = d as int;
                assert(v * 10 + dd > m) by (nonlinear_arith)
                    requires
                        v > (m - dd) / 10,
                        0 <= dd <= m,
                ;
            }
        } else {
            proof {
                let v = value as int;
                let m = max as int;
                let dd = d as int;
                assert(v * 10 + dd <= m) by (nonlinear_arith)
                    requires
                        v <= (m - dd) / 10,
                        0 <= dd <= m,
                        v >= 0,
                ;
            }
            value = value * 10 + d;
        }
        i = i + 1;
    }
    proof {
        assert(digits.take(n - start) =~= digits);
    }
    if over {
        None
    } else {
        Some(value)
    }
}

/// Tells whether a text is the word `word`.
fn is_word(name: &String, word: &str) -> (r: bool)
    ensures
        r == (name@ == word@),
{
    let other: String = word.to_owned();
    *name == other
}

/// Whether `r` is what the text `s` reads as.
///
/// A text without a word is an error of its own. Else the first word, put
/// in lower case, names the command, and the word after it, if there is
/// one, is its argument.
pub open spec fn parsed(r: Result<Command, Error>, s: Seq<char>) -> bool {
    let a = space_end(s, 0);
    let b = token_end(s, a);
    let c = space_end(s, b);
    let d = token_end(s, c);
    if a == s.len() {
        r matches Err(Error::Empty)
    } else {
        built(
            r,
            lowercase(s.subrange(a, b)),
            if c < s.len() {
                Some(s.subrange(c, d))
            } else {
                None
            },
        )
    }
}

impl Command {
    /// Makes a command of its name, in lower case already, and of the token
    /// after it, if there is one.
    pub fn build(name: String, arg: Option<&str>) -> (r: Result<Command, Error>)
        ensures
            built(
                r,
                name@,
                match arg {
                    Some(token) => Some(token@),
                    None => None,
                },
            ),
    {
        if is_word(&name, "mode") {
            Ok(Command::Mode(match Self::index_arg(arg) {
                Some(n) => Some(ScoreType::from_index(n)),
                None => None,
            }))
        } else if is_word(&name, "volume") {
            Ok(Command::Volume(match Self::u32_arg(arg) {
                Some(n) => match Volume::try_from(n) {
                    Ok(volume) => Some(volume),
                    Err(_) => None,
                },
                None => None,
            }))
        } else if is_word(&name, "tempo") {
            Ok(Command::Tempo(match Self::u32_arg(arg) {
                Some(n) => match Bpm::try_from(n) {
                    Ok(bpm) => Some(bpm),
                    Err(_) => None,
                },
                None => None,
            }))
        } else if is_word(&name, "play") {
            Ok(Command::Play(match Self::index_arg(arg) {
                Some(n) => Some(Instrument::from_index(n)),
                None => None,
            }))
        } else if is_word(&name, "stop") {
            Ok(Command::Stop)
        } else {
            Err(Error::Invalid(name))
        }
    }

    /// The argument as a place in a circle of three.
    fn index_arg(arg: Option<&str>) -> (r: Option<usize>)
        ensures
            r.is_some() <==> arg_number(
                match arg {
                    Some(token) => Some(token@),
                    None => None,
                },
                usize::MAX as nat,
            ).is_some(),
            r.is_some() ==> r.unwrap() == arg_number(
                match arg {
                    Some(token) => Some(token@),
                    None => None,
                },
                usize::MAX as nat,
            ).unwrap(),
    {
        match arg {
            None => None,
            Some(token) => match parse_number(token, usize::MAX as u64) {
                Some(n) => Some(n as usize),
                None => None,
            },
        }
    }

    /// The argument as a number of 32 bits.
    fn u32_arg(arg: Option<&str>) -> (r: Option<u32>)
        ensures
            r.is_some() <==> arg_number(
                match arg {
                    Some(token) => Some(token@),
                    None => None,
                },
                u32::MAX as nat,
            ).is_some(),
            r.is_some() ==> r.unwrap() == arg_number(
                match arg {
                    Some(token) => Some(token@),
                    None => None,
                },
                u32::MAX as nat,
            ).unwrap(),
    {
        match arg {
            None => None,
            Some(token) => match parse_number(token, u32::MAX as u64) {
                Some(n) => Some(n as u32),
                None => None,
            },
        }
    }

    /// Reads a command from a text.
    ///
    /// The first word, put in lower case, names the command, and the word
    /// after it, if there is one, is its argument. A text without a word is
    /// an error of its own.
    pub fn parse(text: &str) -> (r: Result<Command, Error>)
        ensures
            parsed(r, text@),
    {
        let n: usize = text.unicode_len();
        let a: usize = skip_spaces(text, n, 0);
        if a == n {
            return Err(Error::Empty);
        }
        let b: usize = skip_token(text, n, a);
        let c: usize = skip_spaces(text, n, b);
        let d: usize = skip_token(text, n, c);
        let name: String = to_lowercase(text.substring_char(a, b));
        if c < n {
            Self::build(name, Some(text.substring_char(c, d)))
        } else {
            Self::build(name, None)
        }
    }

    /// Reads a command from the text of a datagram, or nothing if the text
    /// is no command.
    pub fn received(text: &str) -> (r: Option<Command>)
        ensures
            ({
                let s = text@;
                let a = space_end(s, 0);
                let b = token_end(s, a);
                let c = space_end(s, b);
                let d = token_end(s, c);
                if a == s.len() {
                    r.is_none()
                } else {
                    match r {
                        Some(command) => built(
                            Ok(command),
                            lowercase(s.subrange(a, b)),
                            if c < s.len() {
                                Some(s.subrange(c, d))
                            } else {
                                None
                            },
                        ),
                        None => exists|e: Error|
                            built(
                                Err(e),
                                lowercase(s.subrange(a, b)),
                                if c < s.len() {
                                    Some(s.subrange(c, d))
                                } else {
                                    None
                                },
                            ),
                    }
                }
            }),
    {
        match Self::parse(text) {
            Ok(command) => Some(command),
            Err(e) => {
                None
            },
        }
    }

    /// The text of the argument of a command: the number, or `null` where
    /// there is none.
    pub open spec fn arg_text(arg: Option<nat>) -> Seq<char> {
        match arg {
            Some(n) => decimal(n),
            None => "null"@,
        }
    }

    /// The text of a command: its name and, but for `stop`, its argument
    /// after a blank. A volume is given in whole percent and a tempo in
    /// whole beats per minute, both rounded.
    pub open spec fn text(self) -> Seq<char> {
        match self {
            Command::Mode(kind) => "mode "@ + Self::arg_text(
                match kind {
                    Some(kind) => Some(kind.index()),
                    None => None,
                },
            ),
            Command::Volume(volume) => "volume "@ + Self::arg_text(
                match volume {
                    Some(volume) => Some(volume.percent() as nat),
                    None => None,
                },
            ),
            Command::Tempo(bpm) => "tempo "@ + Self::arg_text(
                match bpm {
                    Some(bpm) => Some(bpm.whole() as nat),
                    None => None,
                },
            ),
            Command::Play(instrument) => "play "@ + Self::arg_text(
                match instrument {
                    Some(instrument) => Some(instrument.index()),
                    None => None,
                },
            ),
            Command::Stop => "stop"@,
        }
    }

    /// Writes the command as text.
    pub fn to_string(&self) -> (r: String)
        ensures
            r@ == self.text(),
    {
        match *self {
            Command::Mode(kind) => Self::with_arg(
                "mode ",
                match kind {
                    Some(kind) => Some(kind.to_index() as u64),
                    None => None,
                },
            ),
            Command::Volume(volume) => Self::with_arg(
                "volume ",
                match volume {
                    Some(volume) => Some(u32::from(volume) as u64),
                    None => None,
                },
            ),
            Command::Tempo(bpm) => Self::with_arg(
                "tempo ",
                match bpm {
                    Some(bpm) => Some(u32::from(bpm) as u64),
                    None => None,
                },
            ),
            Command::Play(instrument) => Self::with_arg(
                "play ",
                match instrument {
                    Some(instrument) => Some(instrument.to_index() as u64),
                    None => None,
                },
            ),
            Command::Stop => "stop".to_owned(),
        }
    }

    /// A name with an argument after it.
    fn with_arg(name: &str, arg: Option<u64>) -> (r: String)
        ensures
            r@ == name@ + Self::arg_text(
                match arg {
                    Some(n) => Some(n as nat),
                    None => None,
                },
            ),
    {
        let mut r: String = name.to_owned();
        match arg {
            Some(n) => {
                let digits: String = to_decimal(n as u128);
                r.append(digits.as_str());
            },
            None => {
                r.append("null");
            },
        }
        r
    }
}

impl core::str::FromStr for Command {
    type Err = Error;

    /// Reads a command from a text, as [`Command::parse`] does.
    fn from_str(s: &str) -> (r: Result<Self, Error>)
        ensures
            parsed(r, s@),
    {
        Command::parse(s)
    }
}

} // verus!
