//! From a line of text to a command.
//!
//! A line has the form `COMMAND:VALUE,`. The first `,` ends the command, and
//! the first `:` before it parts the command's word from its value. Nothing is
//! trimmed: a space belongs to the word or the value it stands in.

use vstd::prelude::*;
use vstd::string::*;
use crate::protocol::message::{Command, Message};
use crate::protocol::number::{
    i32_value, is_number_char, is_real_literal, lemma_integer_alphabet,
    lemma_real_literal_alphabet, parse_i32, unsigned_part, RealLiteral,
};
use crate::protocol::protocol::{
    ANGLE_PREFIX, EQ_VAL, SEPPARATOR, STEPPER_SPEED_PREFIX, STEPPER_STEPS_PREFIX, STEPPER_STOP,
};
use crate::protocol::text::{chars_of, spells};

verus! {

/// Why a line is no command.
#[derive(Debug, Clone, Copy, PartialEq, Eq, Structural)]
pub enum ParsingError {
    /// The line has no `,`, or no `:` before its first `,`.
    SepparatorError,
    /// The command needs a number and the value is none.
    ValueParsingError,
    /// The word before the `:` is no command.
    NotAComandError,
}

impl ParsingError {
    /// The text shown for every parsing error.
    pub fn message(&self) -> (text: &'static str)
        ensures
            text@ == "Can't parse the message"@,
    {
        "Can't parse the message"
    }
}

/// `i` is the place of the first `c` in `s`.
pub open spec fn is_first(s: Seq<char>, c: char, i: int) -> bool {
    &&& 0 <= i < s.len()
    &&& s[i] == c
    &&& forall|j: int| 0 <= j < i ==> s[j] != c
}

/// The place of the first `c` in `s`, if `s` holds one.
pub open spec fn first_index(s: Seq<char>, c: char) -> Option<int> {
    if exists|i: int| is_first(s, c, i) {
        Some(choose|i: int| is_first(s, c, i))
    } else {
        None
    }
}

/// There is one first place at most.
pub proof fn lemma_first_index(s: Seq<char>, c: char, i: int)
    requires
        is_first(s, c, i),
    ensures
        first_index(s, c) == Some(i),
{
    let k = choose|k: int| is_first(s, c, k);
    assert(is_first(s, c, k));
    if k < i {
        assert(s[k] != c);
    } else if i < k {
        assert(s[i] != c);
    }
}

/// A string without `c` has no first place of it.
pub proof fn lemma_first_index_absent(s: Seq<char>, c: char)
    requires
        forall|j: int| 0 <= j < s.len() ==> s[j] != c,
    ensures
        first_index(s, c) is None,
{
}

/// The command that a word and a value make.
pub open spec fn command_of(word: Seq<char>, value: Seq<char>) -> Result<Command, ParsingError> {
    if word == ANGLE_PREFIX@ {
        if is_real_literal(value) {
            Ok(Command::SetServoAngle(value))
        } else {
            Err(ParsingError::ValueParsingError)
        }
    } else if word == STEPPER_STEPS_PREFIX@ {
        match i32_value(value) {
            Some(steps) => Ok(Command::RunSteps(steps)),
            None => Err(ParsingError::ValueParsingError),
        }
    } else if word == STEPPER_SPEED_PREFIX@ {
        if is_real_literal(value) {
            Ok(Command::SetSpeed(value))
        } else {
            Err(ParsingError::ValueParsingError)
        }
    } else if word == STEPPER_STOP@ {
        Ok(Command::Stop)
    } else {
        Err(ParsingError::NotAComandError)
    }
}

/// The command that a line holds, or why it holds none.
pub open spec fn parse_spec(line: Seq<char>) -> Result<Command, ParsingError> {
    match first_index(line, SEPPARATOR) {
        None => Err(ParsingError::SepparatorError),
        Some(end) => match first_index(line.take(end), EQ_VAL) {
            None => Err(ParsingError::SepparatorError),
            Some(mid) => command_of(line.subrange(0, mid), line.subrange(mid + 1, end)),
        },
    }
}

/// A string that holds `c` at `n` has a first place of `c`, at `n` or before.
pub proof fn lemma_first_exists(s: Seq<char>, c: char, n: int)
    requires
        0 <= n < s.len(),
        s[n] == c,
    ensures
        exists|i: int| is_first(s, c, i) && i <= n,
    decreases n,
{
    if forall|j: int| 0 <= j < n ==> s[j] != c {
        assert(is_first(s, c, n));
    } else {
        let j = choose|j: int| 0 <= j < n && s[j] == c;
        lemma_first_exists(s, c, j);
    }
}

/// The line that is written for a word and a value: the word, the `:`, the
/// value, the `,`, and whatever follows.
pub open spec fn line_of(word: Seq<char>, value: Seq<char>, rest: Seq<char>) -> Seq<char> {
    word + seq![EQ_VAL] + value + seq![SEPPARATOR] + rest
}

/// A line written for a command's word and a value that the command accepts
/// parses as that command with that value, whatever follows the `,`.
pub proof fn lemma_valid_line_parses(word: Seq<char>, value: Seq<char>, rest: Seq<char>)
    requires
        command_of(word, value) is Ok,
    ensures
        parse_spec(line_of(word, value, rest)) == command_of(word, value),
{
    reveal_strlit("ANGLE");
    reveal_strlit("STEPS");
    reveal_strlit("SPEED");
    reveal_strlit("STOP");
    assert("ANGLE"@[0] != "STEPS"@[0] && "ANGLE"@.len() != "STOP"@.len());
    assert("STEPS"@[1] != "SPEED"@[1] && "STEPS"@.len() != "STOP"@.len());
    let line = line_of(word, value, rest);
    let w = word.len() as int;
    assert(forall|j: int| 0 <= j < w ==> word[j] != SEPPARATOR && word[j] != EQ_VAL);
    // The first `,` behind the word: inside the value only where the command
    // takes no number.
    let tail = value + seq![SEPPARATOR];
    lemma_first_exists(tail, SEPPARATOR, value.len() as int);
    let k = choose|k: int| is_first(tail, SEPPARATOR, k) && k <= value.len();
    if word != STEPPER_STOP@ {
        if word == STEPPER_STEPS_PREFIX@ {
            lemma_integer_alphabet(value);
        } else {
            lemma_real_literal_alphabet(value);
        }
        if k < value.len() {
            assert(is_number_char(value[k]));
            assert(tail[k] == value[k]);
        }
        assert(value.take(k) =~= value);
    }
    let end = w + 1 + k;
    assert(is_first(line, SEPPARATOR, end)) by {
        assert forall|j: int| 0 <= j < end implies line[j] != SEPPARATOR by {
            if j < w {
                assert(line[j] == word[j]);
            } else if j > w {
                assert(line[j] == tail[j - w - 1]);
            }
        }
        assert(line[end] == tail[k]);
    }
    lemma_first_index(line, SEPPARATOR, end);
    let body = line.take(end);
    assert(is_first(body, EQ_VAL, w)) by {
        assert forall|j: int| 0 <= j < w implies body[j] != EQ_VAL by {
            assert(body[j] == word[j]);
        }
    }
    lemma_first_index(body, EQ_VAL, w);
    assert(line.subrange(0, w) =~= word);
    assert(line.subrange(w + 1, end) =~= value.take(k));
}

/// A line without a `,`, or without a `:` before its first `,`, is no
/// command for want of a separator, whatever else it holds.
pub proof fn lemma_missing_separator(line: Seq<char>)
    requires
        first_index(line, SEPPARATOR) matches Some(end) ==> !line.take(end).contains(EQ_VAL),
    ensures
        parse_spec(line) == Err::<Command, ParsingError>(ParsingError::SepparatorError),
{
    if let Some(end) = first_index(line, SEPPARATOR) {
        let body = line.take(end);
        if exists|i: int| is_first(body, EQ_VAL, i) {
            let i = choose|i: int| is_first(body, EQ_VAL, i);
            assert(body[i] == EQ_VAL);
        }
    }
}

/// What follows the first `,` is ignored: a line that holds a `,` parses the
/// same whatever is written behind it.
pub proof fn lemma_rest_is_ignored(line: Seq<char>, rest: Seq<char>)
    requires
        line.contains(SEPPARATOR),
    ensures
        parse_spec(line + rest) == parse_spec(line),
{
    let n = choose|n: int| 0 <= n < line.len() && line[n] == SEPPARATOR;
    lemma_first_exists(line, SEPPARATOR, n);
    let end = choose|i: int| is_first(line, SEPPARATOR, i) && i <= n;
    lemma_first_index(line, SEPPARATOR, end);
    let longer = line + rest;
    assert(is_first(longer, SEPPARATOR, end)) by {
        assert forall|j: int| 0 <= j < end implies longer[j] != SEPPARATOR by {
            assert(longer[j] == line[j]);
        }
        assert(longer[end] == line[end]);
    }
    lemma_first_index(longer, SEPPARATOR, end);
    assert(longer.take(end) =~= line.take(end));
    if let Some(mid) = first_index(line.take(end), EQ_VAL) {
        assert(is_first(line.take(end), EQ_VAL, mid));
        assert(longer.subrange(0, mid) =~= line.subrange(0, mid));
        assert(longer.subrange(mid + 1, end) =~= line.subrange(mid + 1, end));
    }
}

/// An empty value is no number: a command that needs one is refused, and is
/// not taken to mean zero.
pub proof fn lemma_empty_value_is_no_number(word: Seq<char>)
    requires
        word == ANGLE_PREFIX@ || word == STEPPER_STEPS_PREFIX@ || word == STEPPER_SPEED_PREFIX@,
    ensures
        command_of(word, Seq::<char>::empty()) == Err::<Command, ParsingError>(
            ParsingError::ValueParsingError,
        ),
{
    reveal_strlit("ANGLE");
    reveal_strlit("STEPS");
    reveal_strlit("SPEED");
    assert("ANGLE"@[0] != "STEPS"@[0]);
    assert("STEPS"@[1] != "SPEED"@[1]);
    let none = Seq::<char>::empty();
    assert(unsigned_part(none) =~= none);
}

/// Whether `result` is what `expected` says, command for command.
pub open spec fn agrees(
    result: Result<Message, ParsingError>,
    expected: Result<Command, ParsingError>,
) -> bool {
    match result {
        Ok(message) => expected == Ok::<Command, ParsingError>(message@),
        Err(error) => expected == Err::<Command, ParsingError>(error),
    }
}

/// Finds the first `sepparator` in `string`, counting characters.
pub fn get_sepparator_index(string: &str, sepparator: char) -> (index: Option<usize>)
    ensures
        match index {
            Some(i) => first_index(string@, sepparator) == Some(i as int),
            None => first_index(string@, sepparator) is None,
        },
        index matches Some(i) ==> is_first(string@, sepparator, i as int),
        index is None ==> !string@.contains(sepparator),
{
    let chars = chars_of(string);
    let n: usize = chars.len();
    let mut i: usize = 0;
    while i < n
        invariant
            n == chars@.len(),
            chars@ == string@,
            i <= n,
            forall|j: int| 0 <= j < i ==> string@[j] != sepparator,
        decreases n - i,
    {
        if chars[i] == sepparator {
            proof {
                lemma_first_index(string@, sepparator, i as int);
            }
            return Some(i);
        }
        i = i + 1;
    }
    proof {
        lemma_first_index_absent(string@, sepparator);
    }
    None
}

/// Makes a command of its word and its value.
pub fn interpret(word: &str, value: &str) -> (result: Result<Message, ParsingError>)
    ensures
        agrees(result, command_of(word@, value@)),
{
    let letters = chars_of(word);
    let n: usize = letters.len();
    assert(letters@.subrange(0, n as int) =~= word@);
    if spells(&letters, 0, n, ANGLE_PREFIX) {
        match RealLiteral::new(value) {
            Some(angle) => Ok(Message::ServoAngle(angle)),
            None => Err(ParsingError::ValueParsingError),
        }
    } else if spells(&letters, 0, n, STEPPER_STEPS_PREFIX) {
        let digits = chars_of(value);
        match parse_i32(&digits) {
            Some(steps) => Ok(Message::StepperMotorRunSteps(steps)),
            None => Err(ParsingError::ValueParsingError),
        }
    } else if spells(&letters, 0, n, STEPPER_SPEED_PREFIX) {
        match RealLiteral::new(value) {
            Some(speed) => Ok(Message::StepperMotorSpeed(speed)),
            None => Err(ParsingError::ValueParsingError),
        }
    } else if spells(&letters, 0, n, STEPPER_STOP) {
        Ok(Message::StepperStop)
    } else {
        Err(ParsingError::NotAComandError)
    }
}

/// Reads the command that `signal` holds.
pub fn parse(signal: &str) -> (result: Result<Message, ParsingError>)
    ensures
        agrees(result, parse_spec(signal@)),
{
    let sep_idx: usize = match get_sepparator_index(signal, SEPPARATOR) {
        Some(i) => i,
        None => {
            return Err(ParsingError::SepparatorError);
        },
    };
    let cut_part_1 = signal.substring_char(0, sep_idx);
    assert(cut_part_1@ =~= signal@.take(sep_idx as int));
    let val_sep_idx: usize = match get_sepparator_index(cut_part_1, EQ_VAL) {
        Some(i) => i,
        None => {
            return Err(ParsingError::SepparatorError);
        },
    };
    let comand = cut_part_1.substring_char(0, val_sep_idx);
    let value = cut_part_1.substring_char(val_sep_idx + 1, sep_idx);
    assert(comand@ =~= signal@.subrange(0, val_sep_idx as int));
    assert(value@ =~= signal@.subrange(val_sep_idx + 1, sep_idx as int));
    interpret(comand, value)
}

} // verus!
