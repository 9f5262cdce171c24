use crate::models::command::{Command, CommandView};
use crate::models::status::Status;
use crate::models::task::TaskId;
use vstd::prelude::*;

verus! {

/// Why a command line names no command.
#[derive(Debug, PartialEq, Eq, Clone, Copy, Structural)]
pub enum ArgsError {
    /// Nothing follows the program's name.
    NoCommand,
    /// The first word is no command.
    UnknownCommand,
    /// `add` without a description.
    MissingDescription,
    /// A command that works on one task, without its identifier.
    MissingId,
    /// The identifier is no decimal number that fits a `TaskId`.
    InvalidId,
    /// `update` without the new description.
    MissingNewDescription,
    /// `list` with a filter that is no status.
    UnknownFilter,
}

/// Whether `c` is one of the ten decimal digits.
pub open spec fn is_digit(c: char) -> bool {
    '0' <= c <= '9'
}

/// The number that the digit `c` stands for.
pub open spec fn digit_value(c: char) -> nat {
    (c as int - '0' as int) as nat
}

/// The number that a sequence of decimal digits writes, 0 for the empty one.
pub open spec fn decimal_value(digits: Seq<char>) -> nat
    decreases digits.len(),
{
    if digits.len() == 0 {
        0
    } else {
        10 * decimal_value(digits.drop_last()) + digit_value(digits.last())
    }
}

/// The digits of an identifier: the text without one leading `+`.
pub open spec fn unsigned_part(text: Seq<char>) -> Seq<char> {
    if text.len() > 0 && text[0] == '+' {
        text.drop_first()
    } else {
        text
    }
}

/// The identifier that `text` writes: an optional `+`, then at least one
/// decimal digit and nothing else, with a value that fits a `TaskId`.
pub open spec fn spec_parse_id(text: Seq<char>) -> Option<TaskId> {
    let digits = unsigned_part(text);
    if digits.len() > 0 && (forall|i: int| 0 <= i < digits.len() ==> is_digit(#[trigger] digits[i]))
        && decimal_value(digits) <= usize::MAX {
        Some(decimal_value(digits) as usize)
    } else {
        None
    }
}

/// The status that a filter word of `list` names.
pub open spec fn spec_parse_filter(word: Seq<char>) -> Option<Status> {
    if word == "done"@ {
        Some(Status::Done)
    } else if word == "todo"@ {
        Some(Status::ToDo)
    } else if word == "in-progress"@ {
        Some(Status::InProgress)
    } else {
        None
    }
}

/// The identifier that a command on one task is given as its second word.
pub open spec fn spec_id_argument(args: Seq<Seq<char>>) -> Result<TaskId, ArgsError> {
    if args.len() < 3 {
        Err(ArgsError::MissingId)
    } else {
        match spec_parse_id(args[2]) {
            Some(id) => Ok(id),
            None => Err(ArgsError::InvalidId),
        }
    }
}

/// The command that a command line names. The line starts with the program's
/// name; the command word follows, then its arguments. Words after the last
/// argument that a command takes are ignored.
pub open spec fn spec_parse_args(args: Seq<Seq<char>>) -> Result<CommandView, ArgsError> {
    if args.len() < 2 {
        Err(ArgsError::NoCommand)
    } else if args[1] == "add"@ {
        if args.len() < 3 {
            Err(ArgsError::MissingDescription)
        } else {
            Ok(CommandView::Add(args[2]))
        }
    } else if args[1] == "update"@ {
        match spec_id_argument(args) {
            Err(e) => Err(e),
            Ok(id) => if args.len() < 4 {
                Err(ArgsError::MissingNewDescription)
            } else {
                Ok(CommandView::Update(id as nat, args[3]))
            },
        }
    } else if args[1] == "delete"@ {
        match spec_id_argument(args) {
            Err(e) => Err(e),
            Ok(id) => Ok(CommandView::Delete(id as nat)),
        }
    } else if args[1] == "mark-in-progress"@ {
        match spec_id_argument(args) {
            Err(e) => Err(e),
            Ok(id) => Ok(CommandView::MarkInProgress(id as nat)),
        }
    } else if args[1] == "mark-done"@ {
        match spec_id_argument(args) {
            Err(e) => Err(e),
            Ok(id) => Ok(CommandView::MarkDone(id as nat)),
        }
    } else if args[1] == "list"@ {
        if args.len() < 3 {
            Ok(CommandView::List(None))
        } else {
            match spec_parse_filter(args[2]) {
                Some(status) => Ok(CommandView::List(Some(status))),
                None => Err(ArgsError::UnknownFilter),
            }
        }
    } else {
        Err(ArgsError::UnknownCommand)
    }
}

/// The words of a command line, each as a sequence of characters.
pub open spec fn arg_texts(args: Seq<String>) -> Seq<Seq<char>> {
    args.map_values(|arg: String| arg@)
}

/// A longer run of digits never writes a smaller number than its beginning.
pub proof fn lemma_decimal_value_of_prefix(digits: Seq<char>, k: int)
    requires
        0 <= k <= digits.len(),
    ensures
        decimal_value(digits.take(k)) <= decimal_value(digits),
    decreases digits.len(),
{
    if k == digits.len() {
        assert(digits.take(k) =~= digits);
    } else {
        lemma_decimal_value_of_prefix(digits.drop_last(), k);
        assert(digits.drop_last().take(k) =~= digits.take(k));
    }
}

fn is_word(text: &String, word: &str) -> (same: bool)
    ensures
        same == (text@ == word@),
{
    let word = word.to_owned();
    *text == word
}

/// Reads a task identifier: an optional `+`, then decimal digits.
pub fn parse_id(text: &str) -> (id: Option<TaskId>)
    ensures
        id == spec_parse_id(text@),
{
    let len = text.unicode_len();
    if len == 0 {
        return None;
    }
    let start: usize = if text.get_char(0) == '+' {
        1
    } else {
        0
    };
    let ghost digits = unsigned_part(text@);
    assert(digits =~= text@.subrange(start as int, len as int));
    let mut value: usize = 0;
    let mut i: usize = start;
    while i < len
        invariant
            start <= i <= len,
            len == text@.len(),
            digits == unsigned_part(text@),
            digits == text@.subrange(start as int, len as int),
            forall|j: int| 0 <= j < i - start ==> is_digit(#[trigger] digits[j]),
            value as nat == decimal_value(digits.take(i - start)),
        decreases len - i,
    {
        let c = text.get_char(i);
        let ghost longer = digits.take(i - start + 1);
        proof {
            assert(longer.drop_last() =~= digits.take(i - start));
            assert(longer.last() == c);
            assert(digits[i - start] == c);
        }
        if c < '0' || c > '9' {
            assert(!is_digit(digits[i - start]));
            return None;
        }
        let digit = (c as u32 - '0' as u32) as usize;
        assert(digit as nat == digit_value(c));
        if value > (usize::MAX - digit) / 10 {
            proof {
                lemma_decimal_value_of_prefix(digits, i - start + 1);
                assert(decimal_value(longer) == 10 * value + digit);
            }
            return None;
        }
        value = value * 10 + digit;
        i += 1;
    }
    assert(digits.take(i - start) =~= digits);
    if i == start {
        None
    } else {
        Some(value)
    }
}

/// Reads the filter word of `list`.
pub fn parse_filter(word: &String) -> (status: Option<Status>)
    ensures
        status == spec_parse_filter(word@),
{
    if is_word(word, "done") {
        Some(Status::Done)
    } else if is_word(word, "todo") {
        Some(Status::ToDo)
    } else if is_word(word, "in-progress") {
        Some(Status::InProgress)
    } else {
        None
    }
}

fn id_argument(args: &Vec<String>) -> (id: Result<TaskId, ArgsError>)
    ensures
        id == spec_id_argument(arg_texts(args@)),
{
    if args.len() < 3 {
        Err(ArgsError::MissingId)
    } else {
        match parse_id(args[2].as_str()) {
            Some(id) => Ok(id),
            None => Err(ArgsError::InvalidId),
        }
    }
}

/// Reads a command line, the program's name first, into the command it names,
/// or says what is wrong with it.
pub fn parse_args(args: &Vec<String>) -> (command: Result<Command, ArgsError>)
    ensures
        match command {
            Ok(c) => spec_parse_args(arg_texts(args@)) == Ok::<CommandView, ArgsError>(c@),
            Err(e) => spec_parse_args(arg_texts(args@)) == Err::<CommandView, ArgsError>(e),
        },
{
    if args.len() < 2 {
        return Err(ArgsError::NoCommand);
    }
    let word = &args[1];
    if is_word(word, "add") {
        if args.len() < 3 {
            Err(ArgsError::MissingDescription)
        } else {
            Ok(Command::Add(args[2].clone()))
        }
    } else if is_word(word, "update") {
        match id_argument(args) {
            Err(e) => Err(e),
            Ok(id) => if args.len() < 4 {
                Err(ArgsError::MissingNewDescription)
            } else {
                Ok(Command::Update(id, args[3].clone()))
            },
        }
    } else if is_word(word, "delete") {
        match id_argument(args) {
            Err(e) => Err(e),
            Ok(id) => Ok(Command::Delete(id)),
        }
    } else if is_word(word, "mark-in-progress") {
        match id_argument(args) {
            Err(e) => Err(e),
            Ok(id) => Ok(Command::MarkInProgress(id)),
        }
    } else if is_word(word, "mark-done") {
        match id_argument(args) {
            Err(e) => Err(e),
            Ok(id) => Ok(Command::MarkDone(id)),
        }
    } else if is_word(word, "list") {
        if args.len() < 3 {
            Ok(Command::List(None))
        } else {
            match parse_filter(&args[2]) {
                Some(status) => Ok(Command::List(Some(status))),
                None => Err(ArgsError::UnknownFilter),
            }
        }
    } else {
        Err(ArgsError::UnknownCommand)
    }
}

impl ArgsError {
    /// The sentence that tells the user what is wrong.
    pub open spec fn spec_message(self) -> Seq<char> {
        match self {
            ArgsError::NoCommand => "Should be run with arguments"@,
            ArgsError::UnknownCommand => "Unknown command"@,
            ArgsError::MissingDescription => "ADD command expects a task's description as the second argument"@,
            ArgsError::MissingId => "UPDATE command expects a task's ID as the second argument"@,
            ArgsError::InvalidId => "UPDATE command expects task's ID to be an integer number"@,
            ArgsError::MissingNewDescription => "UPDATE command expects a task's new description as the third argument"@,
            ArgsError::UnknownFilter => "Unknown filter for LIST command"@,
        }
    }

    /// Renders the error as the sentence shown to the user.
    pub fn message(&self) -> (text: String)
        ensures
            text@ == self.spec_message(),
    {
        match self {
            ArgsError::NoCommand => "Should be run with arguments".to_owned(),
            ArgsError::UnknownCommand => "Unknown command".to_owned(),
            ArgsError::MissingDescription => "ADD command expects a task's description as the second argument".to_owned(),
            ArgsError::MissingId => "UPDATE command expects a task's ID as the second argument".to_owned(),
            ArgsError::InvalidId => "UPDATE command expects task's ID to be an integer number".to_owned(),
            ArgsError::MissingNewDescription => "UPDATE command expects a task's new description as the third argument".to_owned(),
            ArgsError::UnknownFilter => "Unknown filter for LIST command".to_owned(),
        }
    }
}

} // verus!
