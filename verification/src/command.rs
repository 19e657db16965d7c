//! The command model and the classifier that maps a command line to it.

use vstd::prelude::*;
use crate::text::{
    after_first_word, first_word, first_word_range, is_word, lemma_first_word_is_word, range_is,
    to_chars, to_string, trim, trim_range,
};
use crate::tokenizer::{lemma_tokens_nonempty, tokenize, tokenize_chars};

verus! {

/// Why a command line could not be turned into a command.
#[derive(Clone, Copy, Debug, PartialEq, Eq)]
pub enum ParseError {
    /// The argument of `exit` is not a decimal number.
    InvalidExitCode,
    /// The argument of `exit` is a decimal number above 255.
    ExitCodeTooLarge,
    /// `type` was given no argument.
    MissingTypeArgument,
    /// `cd` was given no argument.
    MissingCdArgument,
    /// The line holds no word to run.
    EmptyCommand,
}

impl ParseError {
    /// The line that reports this error.
    pub open spec fn text(self) -> Seq<char> {
        match self {
            ParseError::InvalidExitCode => "invalid digit found in string"@,
            ParseError::ExitCodeTooLarge => "number too large to fit in target type"@,
            ParseError::MissingTypeArgument => "type requires one argument"@,
            ParseError::MissingCdArgument => "cd requires one argument"@,
            ParseError::EmptyCommand => "empty command"@,
        }
    }

    /// The line that reports this error.
    pub fn message(&self) -> (r: String)
        ensures
            r@ == self.text(),
    {
        match self {
            ParseError::InvalidExitCode => "invalid digit found in string".to_owned(),
            ParseError::ExitCodeTooLarge => "number too large to fit in target type".to_owned(),
            ParseError::MissingTypeArgument => "type requires one argument".to_owned(),
            ParseError::MissingCdArgument => "cd requires one argument".to_owned(),
            ParseError::EmptyCommand => "empty command".to_owned(),
        }
    }
}

/// One command, ready to be executed.
#[derive(Debug, PartialEq, Eq)]
pub enum Command {
    /// End the session with this exit status.
    Exit(u8),
    /// Print the arguments.
    Echo(Vec<String>),
    /// Tell what kind of command the target is.
    Type(String),
    /// Print the working directory.
    Pwd,
    /// Change the working directory to the path.
    Cd(String),
    /// Print the contents of the files.
    Cat(Vec<String>),
    /// Run a program: its name, then its arguments.
    External(Vec<String>),
}

/// The mathematical value of a [`Command`].
pub enum CommandView {
    Exit(u8),
    Echo(Seq<Seq<char>>),
    Type(Seq<char>),
    Pwd,
    Cd(Seq<char>),
    Cat(Seq<Seq<char>>),
    External(Seq<Seq<char>>),
}

/// None of the words is empty.
pub open spec fn all_nonempty(words: Seq<Seq<char>>) -> bool {
    forall|i: int| 0 <= i < words.len() ==> (#[trigger] words[i]).len() > 0
}

impl CommandView {
    /// What holds of every command that the classifier produces: `type`
    /// carries one word and `cd` a path, a program to run has a name, and no
    /// argument is empty.
    pub open spec fn valid(self) -> bool {
        match self {
            CommandView::Exit(_) => true,
            CommandView::Echo(argv) => all_nonempty(argv),
            CommandView::Type(target) => target.len() > 0 && is_word(target),
            CommandView::Pwd => true,
            CommandView::Cd(path) => path.len() > 0,
            CommandView::Cat(argv) => all_nonempty(argv),
            CommandView::External(argv) => argv.len() > 0 && all_nonempty(argv),
        }
    }
}

impl View for Command {
    type V = CommandView;

    open spec fn view(&self) -> CommandView {
        match self {
            Command::Exit(code) => CommandView::Exit(*code),
            Command::Echo(argv) => CommandView::Echo(argv.deep_view()),
            Command::Type(target) => CommandView::Type(target@),
            Command::Pwd => CommandView::Pwd,
            Command::Cd(path) => CommandView::Cd(path@),
            Command::Cat(argv) => CommandView::Cat(argv.deep_view()),
            Command::External(argv) => CommandView::External(argv.deep_view()),
        }
    }
}

/// `name` is the name of a built-in command.
pub open spec fn is_builtin_name(name: Seq<char>) -> bool {
    ||| name == "exit"@
    ||| name == "echo"@
    ||| name == "type"@
    ||| name == "pwd"@
    ||| name == "cd"@
    ||| name == "cat"@
}

/// `c` is one of the digits `0` to `9`.
pub open spec fn is_digit(c: char) -> bool {
    '0' <= c <= '9'
}

/// The value of the digit `c`.
pub open spec fn digit_value(c: char) -> nat {
    if is_digit(c) {
        (c as u32 - '0' as u32) as nat
    } else {
        0
    }
}

/// The number of digits at the start of `s`.
pub open spec fn digits_len(s: Seq<char>) -> nat
    decreases s.len(),
{
    if s.len() > 0 && is_digit(s[0]) {
        1 + digits_len(s.drop_first())
    } else {
        0
    }
}

/// The number that the digits of `s` denote in base ten.
pub open spec fn decimal_value(s: Seq<char>) -> nat
    decreases s.len(),
{
    if s.len() == 0 {
        0
    } else {
        decimal_value(s.drop_last()) * 10 + digit_value(s.last())
    }
}

/// The exit status that the word `word` denotes: an optional `+`, then one
/// or more digits whose value is at most 255.
///
/// Where the word is not of that form, the error tells what is met first from
/// the left: a value above 255, or a character that is no digit.
pub open spec fn exit_code_of(word: Seq<char>) -> Result<u8, ParseError> {
    let body = if word.len() > 0 && word[0] == '+' {
        word.skip(1)
    } else {
        word
    };
    let run = body.take(digits_len(body) as int);
    if decimal_value(run) > 255 {
        Err(ParseError::ExitCodeTooLarge)
    } else if body.len() == 0 || run.len() < body.len() {
        Err(ParseError::InvalidExitCode)
    } else {
        Ok(decimal_value(run) as u8)
    }
}

/// The exit status that the line `line` asks for: that of its second word,
/// or 0 when it has only one.
pub open spec fn exit_status(line: Seq<char>) -> Result<u8, ParseError> {
    let arg = first_word(after_first_word(line));
    if arg.len() == 0 {
        Ok(0u8)
    } else {
        exit_code_of(arg)
    }
}

/// The command that the line `s` denotes.
///
/// The first word selects the command. `exit` and `type` read the second
/// word; `cd` takes all that follows the first word, trimmed; `echo` and
/// `cat` tokenize what follows the first word; any other line is tokenized
/// whole and names a program to run.
pub open spec fn classify(s: Seq<char>) -> Result<CommandView, ParseError> {
    let word = first_word(s);
    let rest = after_first_word(s);
    if word == "exit"@ {
        match exit_status(s) {
            Ok(code) => Ok(CommandView::Exit(code)),
            Err(e) => Err(e),
        }
    } else if word == "echo"@ {
        Ok(CommandView::Echo(tokenize(rest)))
    } else if word == "type"@ {
        let target = first_word(rest);
        if target.len() == 0 {
            Err(ParseError::MissingTypeArgument)
        } else {
            Ok(CommandView::Type(target))
        }
    } else if word == "pwd"@ {
        Ok(CommandView::Pwd)
    } else if word == "cd"@ {
        let path = trim(rest);
        if path.len() == 0 {
            Err(ParseError::MissingCdArgument)
        } else {
            Ok(CommandView::Cd(path))
        }
    } else if word == "cat"@ {
        Ok(CommandView::Cat(tokenize(rest)))
    } else {
        let argv = tokenize(s);
        if argv.len() == 0 {
            Err(ParseError::EmptyCommand)
        } else {
            Ok(CommandView::External(argv))
        }
    }
}

/// Every command that `classify` produces is valid.
pub proof fn lemma_classify_valid(s: Seq<char>)
    ensures
        classify(s) matches Ok(c) ==> c.valid(),
{
    lemma_tokens_nonempty(s);
    lemma_tokens_nonempty(after_first_word(s));
    lemma_first_word_is_word(after_first_word(s));
}

/// A line names a program to run, or nothing at all, exactly when its first
/// word is not the name of a built-in command.
pub proof fn lemma_classify_external(s: Seq<char>)
    ensures
        !is_builtin_name(first_word(s)) <==> (classify(s) matches Ok(CommandView::External(_))
            || classify(s) == Err::<CommandView, ParseError>(ParseError::EmptyCommand)),
{
}

/// A run of `k` digits, followed by another character or the end, is the
/// whole run of leading digits.
proof fn lemma_digits_len(s: Seq<char>, k: int)
    requires
        0 <= k <= s.len(),
        forall|j: int| 0 <= j < k ==> is_digit(s[j]),
        k < s.len() ==> !is_digit(s[k]),
    ensures
        digits_len(s) == k,
    decreases k,
{
    if k > 0 {
        lemma_digits_len(s.drop_first(), k - 1);
    }
}

/// Where the first `k` characters are digits, the run of leading digits is
/// at least that long.
proof fn lemma_digits_len_at_least(s: Seq<char>, k: int)
    requires
        0 <= k <= s.len(),
        forall|j: int| 0 <= j < k ==> is_digit(s[j]),
    ensures
        k <= digits_len(s) <= s.len(),
    decreases s.len(),
{
    if s.len() > 0 && is_digit(s[0]) {
        if k > 0 {
            lemma_digits_len_at_least(s.drop_first(), k - 1);
        } else {
            lemma_digits_len_at_least(s.drop_first(), 0);
        }
    }
}

/// More digits never denote a smaller number.
proof fn lemma_decimal_value_prefix(s: Seq<char>, k: int)
    requires
        0 <= k <= s.len(),
    ensures
        decimal_value(s.take(k)) <= decimal_value(s),
    decreases s.len(),
{
    if k == s.len() {
        assert(s.take(k) =~= s);
    } else {
        lemma_decimal_value_prefix(s.drop_last(), k);
        assert(s.drop_last().take(k) =~= s.take(k));
    }
}

/// Reads the exit status that `chars[from..to]` denotes.
fn exit_code_in(chars: &Vec<char>, from: usize, to: usize) -> (r: Result<u8, ParseError>)
    requires
        from <= to <= chars.len(),
    ensures
        r == exit_code_of(chars@.subrange(from as int, to as int)),
{
    let ghost word = chars@.subrange(from as int, to as int);
    let mut start: usize = from;
    if start < to && chars[start] == '+' {
        start += 1;
    }
    let ghost body = chars@.subrange(start as int, to as int);
    if start == to {
        return Err(ParseError::InvalidExitCode);
    }
    let mut acc: u32 = 0;
    let mut i: usize = start;
    while i < to
        invariant
            start <= i <= to <= chars.len(),
            start < to,
            word == chars@.subrange(from as int, to as int),
            body == chars@.subrange(start as int, to as int),
            body == if word.len() > 0 && word[0] == '+' {
                word.skip(1)
            } else {
                word
            },
            forall|j: int| 0 <= j < i - start ==> is_digit(body[j]),
            acc == decimal_value(body.take(i - start)),
            acc <= 255,
        decreases to - i,
    {
        let c = chars[i];
        if !('0' <= c && c <= '9') {
            proof {
                lemma_digits_len(body, i - start);
            }
            return Err(ParseError::InvalidExitCode);
        }
        let digit: u32 = c as u32 - '0' as u32;
        let next: u32 = acc * 10 + digit;
        proof {
            let longer = body.take(i + 1 - start);
            assert(longer.drop_last() =~= body.take(i - start));
        }
        if next > 255 {
            proof {
                lemma_digits_len_at_least(body, i + 1 - start);
                let run = body.take(digits_len(body) as int);
                lemma_decimal_value_prefix(run, i + 1 - start);
                assert(run.take(i + 1 - start) =~= body.take(i + 1 - start));
            }
            return Err(ParseError::ExitCodeTooLarge);
        }
        acc = next;
        i += 1;
    }
    proof {
        lemma_digits_len(body, body.len() as int);
    }
    Ok(acc as u8)
}

/// Reads the exit status that an `exit` line asks for: the value of the
/// line's second word, or 0 when there is none.
///
/// The word is an optional `+` and then decimal digits, with a value of at
/// most 255; anything else is an error.
pub fn parse_exit_command(command: &str) -> (r: Result<u8, ParseError>)
    ensures
        r == exit_status(command@),
{
    let chars = to_chars(command);
    assert(chars@.skip(0) =~= chars@);
    let (_, first_end) = first_word_range(&chars, 0);
    let (second, second_end) = first_word_range(&chars, first_end);
    if second == second_end {
        Ok(0)
    } else {
        exit_code_in(&chars, second, second_end)
    }
}

impl Command {
    /// Tells whether the command satisfies the classifier's invariant.
    pub open spec fn wf(&self) -> bool {
        self@.valid()
    }

    /// Classifies a command line.
    ///
    /// The first whitespace-delimited word selects the command:
    /// - `exit`: the second word is the exit status, 0 when absent; a word
    ///   that is no number from 0 to 255 is an error;
    /// - `echo`, `cat`: what follows the first word is tokenized;
    /// - `type`: the second word is the target; its absence is an error;
    /// - `pwd`: nothing else is read;
    /// - `cd`: what follows the first word, trimmed, is the path, taken as
    ///   it stands; its absence is an error;
    /// - any other word: the whole line is tokenized and names a program
    ///   with its arguments; a line without tokens is an error.
    pub fn handle_command(value: &str) -> (r: Result<Command, ParseError>)
        ensures
            match r {
                Ok(command) => classify(value@) == Ok::<CommandView, ParseError>(command@)
                    && command.wf(),
                Err(e) => classify(value@) == Err::<CommandView, ParseError>(e),
            },
    {
        let chars = to_chars(value);
        let n = chars.len();
        assert(chars@.skip(0) =~= chars@);
        let (start, end) = first_word_range(&chars, 0);
        proof {
            lemma_classify_valid(value@);
        }
        if range_is(&chars, start, end, "exit") {
            match parse_exit_command(value) {
                Ok(code) => Ok(Command::Exit(code)),
                Err(e) => Err(e),
            }
        } else if range_is(&chars, start, end, "echo") {
            Ok(Command::Echo(tokenize_chars(&chars, end)))
        } else if range_is(&chars, start, end, "type") {
            let (target, target_end) = first_word_range(&chars, end);
            if target == target_end {
                Err(ParseError::MissingTypeArgument)
            } else {
                Ok(Command::Type(to_string(&chars, target, target_end)))
            }
        } else if range_is(&chars, start, end, "pwd") {
            Ok(Command::Pwd)
        } else if range_is(&chars, start, end, "cd") {
            let (from, to) = trim_range(&chars, end, n);
            if from == to {
                Err(ParseError::MissingCdArgument)
            } else {
                Ok(Command::Cd(to_string(&chars, from, to)))
            }
        } else if range_is(&chars, start, end, "cat") {
            Ok(Command::Cat(tokenize_chars(&chars, end)))
        } else {
            let argv = tokenize_chars(&chars, 0);
            if argv.len() == 0 {
                Err(ParseError::EmptyCommand)
            } else {
                Ok(Command::External(argv))
            }
        }
    }
}

} // verus!
