//! One step of the session: from a line of input to what is to be done.

use vstd::prelude::*;
use crate::command::{classify, Command, CommandView};
use crate::redirect::{split_redirect, split_redirect_input};
use crate::text::{skip_whitespace_back, to_chars, to_string, trim_end};

verus! {

/// What a line of input asks for.
#[derive(Debug, PartialEq, Eq)]
pub enum Step {
    /// The line is blank: nothing is done.
    Skip,
    /// The line is malformed: the text is printed on standard output as one
    /// line, and the session goes on.
    Report(String),
    /// The command is executed, with its standard output sent to the
    /// redirection target if there is one.
    Run { command: Command, redirect_target: Option<String> },
}

/// The mathematical value of a [`Step`].
pub enum StepView {
    Skip,
    Report(Seq<char>),
    Run { command: CommandView, redirect_target: Option<Seq<char>> },
}

impl View for Step {
    type V = StepView;

    open spec fn view(&self) -> StepView {
        match self {
            Step::Skip => StepView::Skip,
            Step::Report(text) => StepView::Report(text@),
            Step::Run { command, redirect_target } => StepView::Run {
                command: command@,
                redirect_target: redirect_target.deep_view(),
            },
        }
    }
}

/// What the line `line` asks for.
///
/// Trailing whitespace, the line's end included, does not count. A line
/// that is blank then is skipped. Any other line is cut into command part
/// and redirection target, and the command part is classified.
pub open spec fn interpret(line: Seq<char>) -> StepView {
    let text = trim_end(line);
    if text.len() == 0 {
        StepView::Skip
    } else {
        let (command_part, redirect_target) = split_redirect(text);
        match classify(command_part) {
            Ok(command) => StepView::Run { command, redirect_target },
            Err(e) => StepView::Report(e.text()),
        }
    }
}

/// Decides what is to be done for one line of input.
///
/// Only `Step::Run` with `Command::Exit` ends the session; after every other
/// step the next line is read.
pub fn interpret_line(line: &str) -> (step: Step)
    ensures
        step@ == interpret(line@),
        step matches Step::Run { command, .. } ==> command.wf(),
{
    let chars = to_chars(line);
    let end = skip_whitespace_back(&chars, 0, chars.len());
    assert(chars@.subrange(0, chars.len() as int) =~= chars@);
    if end == 0 {
        return Step::Skip;
    }
    let text = to_string(&chars, 0, end);
    let (command_part, redirect_target) = split_redirect_input(text.as_str());
    match Command::handle_command(command_part.as_str()) {
        Ok(command) => Step::Run { command, redirect_target },
        Err(e) => Step::Report(e.message()),
    }
}

} // verus!
