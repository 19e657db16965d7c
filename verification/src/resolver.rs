//! Finding a program by name among the directories of a search path.
//!
//! The directories are searched in the order in which the search path lists
//! them, and the first executable file with the wanted name wins. Reading the
//! directories is left to the caller, who hands over what was found as
//! [`PathEntry`] values in search order.

use vstd::prelude::*;
use crate::text::{join, push_char, to_chars};

verus! {

/// A file found in a directory of the search path.
#[derive(Debug, PartialEq, Eq)]
pub struct PathEntry {
    /// The path under which the file was found.
    pub path: String,
    /// The file's name within its directory.
    pub file_name: String,
    /// The file's permission bits.
    pub mode: u32,
}

/// The mathematical value of a [`PathEntry`].
pub struct PathEntryView {
    pub path: Seq<char>,
    pub file_name: Seq<char>,
    pub mode: u32,
}

impl View for PathEntry {
    type V = PathEntryView;

    open spec fn view(&self) -> PathEntryView {
        PathEntryView { path: self.path@, file_name: self.file_name@, mode: self.mode }
    }
}

impl DeepView for PathEntry {
    type V = PathEntryView;

    open spec fn deep_view(&self) -> PathEntryView {
        self.view()
    }
}

/// The permission bits `mode` allow someone to execute the file: the owner,
/// the group or the others.
pub open spec fn is_executable_mode(mode: u32) -> bool {
    mode & 0o111 != 0
}

/// The entry is an executable file called `name`.
pub open spec fn entry_matches(name: Seq<char>, entry: PathEntryView) -> bool {
    entry.file_name == name && is_executable_mode(entry.mode)
}

/// The path of the first entry that is an executable file called `name`.
pub open spec fn resolve(name: Seq<char>, entries: Seq<PathEntryView>) -> Option<Seq<char>>
    decreases entries.len(),
{
    if entries.len() == 0 {
        None
    } else if entry_matches(name, entries[0]) {
        Some(entries[0].path)
    } else {
        resolve(name, entries.drop_first())
    }
}

/// `resolve` finds the first matching entry, and nothing exactly when no
/// entry matches.
pub proof fn lemma_resolve(name: Seq<char>, entries: Seq<PathEntryView>)
    ensures
        match resolve(name, entries) {
            Some(path) => exists|i: int|
                0 <= i < entries.len() && #[trigger] entry_matches(name, entries[i])
                    && entries[i].path == path && forall|j: int|
                    0 <= j < i ==> !entry_matches(name, entries[j]),
            None => forall|i: int| 0 <= i < entries.len() ==> !entry_matches(name, entries[i]),
        },
    decreases entries.len(),
{
    if entries.len() > 0 && !entry_matches(name, entries[0]) {
        let rest = entries.drop_first();
        lemma_resolve(name, rest);
        match resolve(name, rest) {
            Some(path) => {
                let i = choose|i: int|
                    0 <= i < rest.len() && #[trigger] entry_matches(name, rest[i]) && rest[i].path
                        == path && forall|j: int| 0 <= j < i ==> !entry_matches(name, rest[j]);
                assert forall|j: int| 0 <= j < i + 1 implies !entry_matches(name, entries[j]) by {
                    if j > 0 {
                        assert(entries[j] == rest[j - 1]);
                    }
                }
            },
            None => {
                assert forall|i: int| 0 <= i < entries.len() implies !entry_matches(
                    name,
                    entries[i],
                ) by {
                    if i > 0 {
                        assert(entries[i] == rest[i - 1]);
                    }
                }
            },
        }
    }
}

/// The scanner state of [`split`]: the pieces that are complete and the
/// characters of the piece that is still open.
pub struct Pieces {
    pub done: Seq<Seq<char>>,
    pub open: Seq<char>,
}

/// The state of [`split`] after reading `c`: a separator closes the open
/// piece, any other character is added to it.
pub open spec fn split_step(st: Pieces, c: char, sep: char) -> Pieces {
    if c == sep {
        Pieces { done: st.done.push(st.open), open: Seq::empty() }
    } else {
        Pieces { done: st.done, open: st.open.push(c) }
    }
}

/// The pieces of `s` between the occurrences of `sep`, empty ones included.
/// There is always one piece more than there are separators.
pub open spec fn split(s: Seq<char>, sep: char) -> Seq<Seq<char>> {
    let st = s.fold_left(
        Pieces { done: Seq::empty(), open: Seq::empty() },
        |st: Pieces, c: char| split_step(st, c, sep),
    );
    st.done.push(st.open)
}

/// Splitting and joining again gives back the text, and no piece holds a
/// separator.
pub proof fn lemma_split_join(s: Seq<char>, sep: char)
    ensures
        join(split(s, sep), seq![sep]) == s,
        split(s, sep).len() >= 1,
        forall|i: int| 0 <= i < split(s, sep).len() ==> !(#[trigger] split(s, sep)[i]).contains(sep),
    decreases s.len(),
{
    let start = Pieces { done: Seq::empty(), open: Seq::empty() };
    let f = |st: Pieces, c: char| split_step(st, c, sep);
    if s.len() > 0 {
        let front = s.drop_last();
        lemma_split_join(front, sep);
        let before = front.fold_left(start, f);
        let parts = split(front, sep);
        let now = split(s, sep);
        assert(parts.drop_last() =~= before.done);
        if s.last() == sep {
            assert(now.drop_last() =~= parts);
        } else {
            assert(now.drop_last() =~= before.done);
            assert(s =~= front.push(s.last()));
        }
    }
}

/// Tells whether permission bits allow someone to execute the file.
pub fn is_executable(mode: u32) -> (r: bool)
    ensures
        r == is_executable_mode(mode),
{
    mode & 0o111 != 0
}

/// Splits a search path into its directories, in order. The directories are
/// separated by `:`; an empty piece is kept as it is.
pub fn split_path_list(path: &str) -> (dirs: Vec<String>)
    ensures
        dirs.deep_view() == split(path@, ':'),
{
    let chars = to_chars(path);
    let mut dirs: Vec<String> = Vec::new();
    let mut current = String::new();
    let ghost start = Pieces { done: Seq::empty(), open: Seq::empty() };
    let ghost f = |st: Pieces, c: char| split_step(st, c, ':');
    assert(dirs.deep_view() =~= Seq::<Seq<char>>::empty());
    let mut i: usize = 0;
    while i < chars.len()
        invariant
            i <= chars.len(),
            f == |st: Pieces, c: char| split_step(st, c, ':'),
            start == (Pieces { done: Seq::empty(), open: Seq::empty() }),
            chars@.take(i as int).fold_left(start, f) == (Pieces {
                done: dirs.deep_view(),
                open: current@,
            }),
        decreases chars.len() - i,
    {
        let c = chars[i];
        proof {
            assert(chars@.take(i + 1).drop_last() =~= chars@.take(i as int));
        }
        if c == ':' {
            let ghost before = dirs.deep_view();
            let ghost piece = current@;
            dirs.push(current);
            current = String::new();
            assert(dirs.deep_view() =~= before.push(piece));
        } else {
            push_char(&mut current, c);
        }
        i += 1;
    }
    dirs.push(current);
    dirs
}

/// Finds the program `command` among the entries of the search path, which
/// are given in search order: the path of the first entry that has this file
/// name and may be executed.
pub fn handle_path(command: &str, entries: &Vec<PathEntry>) -> (r: Option<String>)
    ensures
        r.deep_view() == resolve(command@, entries.deep_view()),
{
    let name = to_chars(command);
    let ghost all = entries.deep_view();
    let mut i: usize = 0;
    assert(all.skip(0) =~= all);
    while i < entries.len()
        invariant
            i <= entries.len(),
            name@ == command@,
            all == entries.deep_view(),
            resolve(command@, all) == resolve(command@, all.skip(i as int)),
        decreases entries.len() - i,
    {
        let entry = &entries[i];
        let file_name = to_chars(entry.file_name.as_str());
        proof {
            assert(all.skip(i as int).drop_first() =~= all.skip(i + 1));
        }
        if is_executable(entry.mode) && same_chars(&file_name, &name) {
            return Some(entry.path.clone());
        }
        i += 1;
    }
    None
}

/// Tells whether two character vectors hold the same text.
fn same_chars(a: &Vec<char>, b: &Vec<char>) -> (r: bool)
    ensures
        r == (a@ == b@),
{
    if a.len() != b.len() {
        return false;
    }
    let mut i: usize = 0;
    while i < a.len()
        invariant
            i <= a.len(),
            a.len() == b.len(),
            forall|j: int| 0 <= j < i ==> a@[j] == b@[j],
        decreases a.len() - i,
    {
        if a[i] != b[i] {
            return false;
        }
        i += 1;
    }
    assert(a@ =~= b@);
    true
}

} // verus!
