//! Output redirection: splitting a raw line into the command and the file
//! that its standard output is to be written to.

use vstd::prelude::*;
use crate::text::{find, find_first, lemma_find, occurs_at, to_chars, to_string, trim, trim_range};

verus! {

/// The marker `1>`.
pub open spec fn long_marker() -> Seq<char> {
    seq!['1', '>']
}

/// The marker `>`.
pub open spec fn short_marker() -> Seq<char> {
    seq!['>']
}

/// The command part and the redirection target of the line `s`.
///
/// The line is cut at the first `1>` or, if there is none, at the first `>`.
/// What stands before the marker, trimmed, is the command part; what stands
/// after it, trimmed, is the target. A line without a marker is all command.
pub open spec fn split_redirect(s: Seq<char>) -> (Seq<char>, Option<Seq<char>>) {
    match find(s, long_marker()) {
        Some(i) => (trim(s.take(i)), Some(trim(s.skip(i + 2)))),
        None => match find(s, short_marker()) {
            Some(i) => (trim(s.take(i)), Some(trim(s.skip(i + 1)))),
            None => (trim(s), None),
        },
    }
}

/// A line has a redirection target exactly when it holds a `>` somewhere,
/// be it inside quotes or not.
pub proof fn lemma_target_iff_marker(s: Seq<char>)
    ensures
        split_redirect(s).1.is_some() <==> s.contains('>'),
{
    lemma_find(s, long_marker());
    lemma_find(s, short_marker());
    if find(s, long_marker()).is_none() {
        match find(s, short_marker()) {
            Some(i) => {
                assert(s.subrange(i, i + 1)[0] == '>');
            },
            None => {
                if s.contains('>') {
                    let i = choose|i: int| 0 <= i < s.len() && s[i] == '>';
                    assert(s.subrange(i, i + 1) =~= short_marker());
                    assert(occurs_at(s, short_marker(), i));
                }
            },
        }
    }
}

/// Splits a raw line into its command part and the file that its standard
/// output is redirected to.
///
/// The line is searched as it stands, before any tokenizing: a `>` inside
/// quotes is taken for a marker too.
pub fn split_redirect_input(input: &str) -> (r: (String, Option<String>))
    ensures
        r.0@ == split_redirect(input@).0,
        match r.1 {
            Some(target) => split_redirect(input@).1 == Some(target@),
            None => split_redirect(input@).1.is_none(),
        },
        r.1.is_some() <==> input@.contains('>'),
{
    let chars = to_chars(input);
    let n = chars.len();
    let long: Vec<char> = vec!['1', '>'];
    let short: Vec<char> = vec!['>'];
    proof {
        lemma_target_iff_marker(input@);
        lemma_find(input@, long_marker());
        lemma_find(input@, short_marker());
        assert(short@ =~= short_marker());
    }
    let (at, width): (usize, usize) = match find_first(&chars, &long) {
        Some(i) => (i, 2),
        None => match find_first(&chars, &short) {
            Some(i) => (i, 1),
            None => {
                let (from, to) = trim_range(&chars, 0, n);
                assert(chars@.subrange(0, n as int) =~= chars@);
                return (to_string(&chars, from, to), None);
            },
        },
    };
    let (from, to) = trim_range(&chars, 0, at);
    let (target_from, target_to) = trim_range(&chars, at + width, n);
    (to_string(&chars, from, to), Some(to_string(&chars, target_from, target_to)))
}

} // verus!
