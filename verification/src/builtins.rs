//! The built-in commands: what each one prints, and where the text goes.
//!
//! Nothing here touches the terminal or the file system. A built-in takes
//! what was read for it and returns the text to emit; [`Output`] says
//! whether that text goes to the terminal or into a file.

use vstd::prelude::*;
use crate::command::is_builtin_name;
use crate::resolver::{handle_path, resolve, PathEntry};
use crate::text::{
    join, join_arguments, lemma_trim_end_idempotent, push_char, range_is, skip_whitespace_back,
    to_chars, to_string, trim_end,
};

verus! {

/// Text that a command writes to its standard output, with its destination.
/// The text is written as it stands: it ends with its own newline.
#[derive(Debug, PartialEq, Eq)]
pub enum Output {
    /// Write the text to the terminal.
    Terminal(String),
    /// Create the file at `path`, with the directories above it where they
    /// are missing, or empty it if it exists, and write the text to it.
    File { path: String, contents: String },
}

/// The mathematical value of an [`Output`].
pub enum OutputView {
    Terminal(Seq<char>),
    File { path: Seq<char>, contents: Seq<char> },
}

impl View for Output {
    type V = OutputView;

    open spec fn view(&self) -> OutputView {
        match self {
            Output::Terminal(text) => OutputView::Terminal(text@),
            Output::File { path, contents } => OutputView::File {
                path: path@,
                contents: contents@,
            },
        }
    }
}

/// What reading a file gave.
#[derive(Debug, PartialEq, Eq)]
pub enum FileRead {
    /// The file's contents.
    Contents(String),
    /// There is no such file.
    Missing,
    /// The file could not be read, for the reason given.
    Failed(String),
}

/// The mathematical value of a [`FileRead`].
pub enum FileReadView {
    Contents(Seq<char>),
    Missing,
    Failed(Seq<char>),
}

impl View for FileRead {
    type V = FileReadView;

    open spec fn view(&self) -> FileReadView {
        match self {
            FileRead::Contents(text) => FileReadView::Contents(text@),
            FileRead::Missing => FileReadView::Missing,
            FileRead::Failed(reason) => FileReadView::Failed(reason@),
        }
    }
}

/// A file that `cat` was asked for, with what reading it gave.
#[derive(Debug, PartialEq, Eq)]
pub struct CatSource {
    /// The path as it was written on the command line.
    pub path: String,
    /// What reading the file gave.
    pub read: FileRead,
}

/// The mathematical value of a [`CatSource`].
pub struct CatSourceView {
    pub path: Seq<char>,
    pub read: FileReadView,
}

impl View for CatSource {
    type V = CatSourceView;

    open spec fn view(&self) -> CatSourceView {
        CatSourceView { path: self.path@, read: self.read@ }
    }
}

impl DeepView for CatSource {
    type V = CatSourceView;

    open spec fn deep_view(&self) -> CatSourceView {
        self.view()
    }
}

/// Where text goes: into the file `target` if there is one, else to the
/// terminal.
pub open spec fn route(target: Option<Seq<char>>, text: Seq<char>) -> OutputView {
    match target {
        Some(path) => OutputView::File { path, contents: text },
        None => OutputView::Terminal(text),
    }
}

/// What `echo` writes: the arguments with one space between each two, and a
/// newline.
pub open spec fn echo_text(argv: Seq<Seq<char>>) -> Seq<char> {
    join(argv, seq![' ']).push('\n')
}

/// The line that `type` prints for `target`, where `resolved` is what the
/// search path gave for it.
pub open spec fn type_line(target: Seq<char>, resolved: Option<Seq<char>>) -> Seq<char> {
    if is_builtin_name(target) {
        target + " is a shell builtin"@
    } else {
        match resolved {
            Some(path) => target + " is "@ + path,
            None => target + ": not found"@,
        }
    }
}

/// What one file adds to the output of `cat`: its contents without trailing
/// whitespace, or nothing if it could not be read.
pub open spec fn cat_piece(read: FileReadView) -> Seq<char> {
    match read {
        FileReadView::Contents(text) => trim_end(text),
        _ => Seq::empty(),
    }
}

/// The pieces of all files, one after the other with nothing in between.
pub open spec fn cat_buffer(sources: Seq<CatSourceView>) -> Seq<char>
    decreases sources.len(),
{
    if sources.len() == 0 {
        Seq::empty()
    } else {
        cat_buffer(sources.drop_last()) + cat_piece(sources.last().read)
    }
}

/// What `cat` prints: the pieces of all files, without trailing whitespace.
pub open spec fn cat_output(sources: Seq<CatSourceView>) -> Seq<char> {
    trim_end(cat_buffer(sources))
}

/// The complaint of `cat` about one file, if it could not be read.
pub open spec fn cat_complaint(source: CatSourceView) -> Option<Seq<char>> {
    match source.read {
        FileReadView::Contents(_) => None,
        FileReadView::Missing => Some("cat: "@ + source.path + ": No such file or directory"@),
        FileReadView::Failed(reason) => Some("cat: "@ + source.path + ": "@ + reason),
    }
}

/// The complaints of `cat`, in the order of the files.
pub open spec fn cat_complaints(sources: Seq<CatSourceView>) -> Seq<Seq<char>>
    decreases sources.len(),
{
    if sources.len() == 0 {
        Seq::empty()
    } else {
        match cat_complaint(sources.last()) {
            Some(line) => cat_complaints(sources.drop_last()).push(line),
            None => cat_complaints(sources.drop_last()),
        }
    }
}

/// Files that cannot be read add nothing to what `cat` prints: the output is
/// that of the readable files alone.
pub proof fn lemma_cat_skips_unreadable(sources: Seq<CatSourceView>)
    ensures
        cat_buffer(sources) == cat_buffer(sources.filter(|s: CatSourceView| s.read is Contents)),
    decreases sources.len(),
{
    let readable = |s: CatSourceView| s.read is Contents;
    reveal(Seq::filter);
    if sources.len() > 0 {
        lemma_cat_skips_unreadable(sources.drop_last());
        let front = sources.drop_last().filter(readable);
        if sources.last().read is Contents {
            assert(front.push(sources.last()).drop_last() =~= front);
        }
    }
}

/// When every file can be read, `cat` has no complaint.
pub proof fn lemma_cat_all_readable(sources: Seq<CatSourceView>)
    requires
        forall|i: int| 0 <= i < sources.len() ==> (#[trigger] sources[i]).read is Contents,
    ensures
        cat_complaints(sources).len() == 0,
    decreases sources.len(),
{
    if sources.len() > 0 {
        lemma_cat_all_readable(sources.drop_last());
    }
}

/// Two files that can be read are printed one after the other, each without
/// its trailing whitespace and with nothing between them, and `cat` has no
/// complaint.
pub proof fn lemma_cat_two_files(first: CatSourceView, second: CatSourceView)
    requires
        first.read is Contents,
        second.read is Contents,
    ensures
        cat_output(seq![first, second]) == trim_end(
            trim_end(first.read->Contents_0) + trim_end(second.read->Contents_0),
        ),
        cat_complaints(seq![first, second]).len() == 0,
{
    reveal_with_fuel(cat_buffer, 3);
    reveal_with_fuel(cat_complaints, 3);
}

/// When the second of two files is missing, `cat` prints the first without
/// its trailing whitespace and complains about the second.
pub proof fn lemma_cat_second_missing(first: CatSourceView, second: CatSourceView)
    requires
        first.read is Contents,
        second.read is Missing,
    ensures
        cat_output(seq![first, second]) == trim_end(first.read->Contents_0),
        cat_complaints(seq![first, second]) == seq![
            "cat: "@ + second.path + ": No such file or directory"@,
        ],
{
    reveal_with_fuel(cat_buffer, 3);
    reveal_with_fuel(cat_complaints, 3);
    lemma_trim_end_idempotent(first.read->Contents_0);
}

/// Tells whether `name` is the name of a built-in command.
pub fn is_builtin(name: &str) -> (r: bool)
    ensures
        r == is_builtin_name(name@),
{
    let chars = to_chars(name);
    let n = chars.len();
    assert(chars@.subrange(0, n as int) =~= name@);
    range_is(&chars, 0, n, "exit") || range_is(&chars, 0, n, "echo") || range_is(
        &chars,
        0,
        n,
        "type",
    ) || range_is(&chars, 0, n, "pwd") || range_is(&chars, 0, n, "cd") || range_is(
        &chars,
        0,
        n,
        "cat",
    )
}

/// Sends the output of a command where it belongs: as one line into the file
/// that standard output is redirected to, or else to the terminal.
pub fn create_file_path(redirect_target: Option<String>, output: String) -> (r: Output)
    ensures
        r@ == route(redirect_target.deep_view(), output@.push('\n')),
{
    let mut text = output;
    push_char(&mut text, '\n');
    match redirect_target {
        Some(path) => Output::File { path, contents: text },
        None => Output::Terminal(text),
    }
}

/// Runs `echo`: the arguments, with one space between each two and a newline
/// at the end, go to the terminal, or into the file that standard output is
/// redirected to.
pub fn echo(argv: &Vec<String>, redirect_target: Option<String>) -> (r: Output)
    ensures
        r@ == route(redirect_target.deep_view(), echo_text(argv.deep_view())),
{
    create_file_path(redirect_target, join_arguments(argv))
}

/// Runs `type`: says in one line what kind of command `command` is.
///
/// A built-in is named as such. Any other name is looked up among `entries`,
/// the files of the search path in search order, and the line gives the path
/// of the first executable file of that name, or says that there is none.
pub fn handle_command_type(command: &str, entries: &Vec<PathEntry>) -> (r: String)
    ensures
        r@ == type_line(command@, resolve(command@, entries.deep_view())),
{
    let mut line = command.to_owned();
    if is_builtin(command) {
        line.append(" is a shell builtin");
    } else {
        match handle_path(command, entries) {
            Some(path) => {
                line.append(" is ");
                line.append(path.as_str());
            },
            None => {
                line.append(": not found");
            },
        }
    }
    line
}

/// Runs `cat` on files that were read already.
///
/// Returns what `cat` prints and its complaints. The output is made of the
/// contents of the files that could be read, each without its trailing
/// whitespace, in order and with nothing between them, and again without
/// trailing whitespace. There is one complaint for each file that could not
/// be read, in order; the other files are printed all the same. The
/// complaints are meant for standard error, one line each, whether or not
/// standard output is redirected.
pub fn handle_cat_content(sources: &Vec<CatSource>) -> (r: (String, Vec<String>))
    ensures
        r.0@ == cat_output(sources.deep_view()),
        r.1.deep_view() == cat_complaints(sources.deep_view()),
{
    let mut buffer: Vec<char> = Vec::new();
    let mut complaints: Vec<String> = Vec::new();
    let ghost all = sources.deep_view();
    let mut i: usize = 0;
    while i < sources.len()
        invariant
            i <= sources.len(),
            all == sources.deep_view(),
            buffer@ == cat_buffer(all.take(i as int)),
            complaints.deep_view() == cat_complaints(all.take(i as int)),
        decreases sources.len() - i,
    {
        let source = &sources[i];
        proof {
            assert(all.take(i + 1).drop_last() =~= all.take(i as int));
        }
        match &source.read {
            FileRead::Contents(text) => {
                let chars = to_chars(text.as_str());
                let end = skip_whitespace_back(&chars, 0, chars.len());
                assert(chars@.subrange(0, chars.len() as int) =~= chars@);
                let mut k: usize = 0;
                let ghost before = buffer@;
                while k < end
                    invariant
                        k <= end <= chars.len(),
                        buffer@ == before + chars@.subrange(0, k as int),
                    decreases end - k,
                {
                    buffer.push(chars[k]);
                    k += 1;
                }
            },
            FileRead::Missing => {
                let mut line = "cat: ".to_owned();
                line.append(source.path.as_str());
                line.append(": No such file or directory");
                complaints.push(line);
            },
            FileRead::Failed(reason) => {
                let mut line = "cat: ".to_owned();
                line.append(source.path.as_str());
                line.append(": ");
                line.append(reason.as_str());
                complaints.push(line);
            },
        }
        i += 1;
    }
    assert(all.take(i as int) =~= all);
    let end = skip_whitespace_back(&buffer, 0, buffer.len());
    assert(buffer@.subrange(0, buffer.len() as int) =~= buffer@);
    (to_string(&buffer, 0, end), complaints)
}

} // verus!
