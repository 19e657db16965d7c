//! The quote-aware tokenizer: turns a raw line into its argument strings.
//!
//! The tokenizer is a scanner that reads the line one character at a time.
//! Its meaning is given by [`scan_step`], the transition on one character,
//! and [`tokenize`], which runs the scanner over a whole line and closes the
//! word that is still open at the end. An unterminated quote closes at the end
//! of the input, and a backslash that ends the input is dropped; neither is an
//! error.

use vstd::prelude::*;
use crate::text::{is_whitespace, is_space, join, push_char, to_chars};

verus! {

/// Where the scanner stands between two characters.
#[derive(Clone, Copy, Debug, PartialEq, Eq)]
pub enum ScanMode {
    /// Outside any quotes.
    Normal,
    /// Inside single quotes.
    SingleQuoted,
    /// Inside double quotes.
    DoubleQuoted,
    /// Right after a backslash; `quoted` tells whether it stood inside
    /// double quotes.
    Escaped { quoted: bool },
}

/// The scanner's state: its mode, the words that are complete, and the
/// characters gathered for the word that is still open.
pub struct Scan {
    pub mode: ScanMode,
    pub done: Seq<Seq<char>>,
    pub word: Seq<char>,
}

/// The state before the first character.
pub open spec fn scan_start() -> Scan {
    Scan { mode: ScanMode::Normal, done: Seq::empty(), word: Seq::empty() }
}

/// The state after reading `c` in state `st`.
pub open spec fn scan_step(st: Scan, c: char) -> Scan {
    match st.mode {
        ScanMode::Normal => {
            if c == '\\' {
                Scan { mode: ScanMode::Escaped { quoted: false }, ..st }
            } else if c == '\'' {
                Scan { mode: ScanMode::SingleQuoted, ..st }
            } else if c == '"' {
                Scan { mode: ScanMode::DoubleQuoted, ..st }
            } else if is_whitespace(c) {
                if st.word.len() > 0 {
                    Scan { mode: ScanMode::Normal, done: st.done.push(st.word), word: Seq::empty() }
                } else {
                    st
                }
            } else {
                Scan { word: st.word.push(c), ..st }
            }
        },
        ScanMode::SingleQuoted => {
            if c == '\'' {
                Scan { mode: ScanMode::Normal, ..st }
            } else {
                Scan { word: st.word.push(c), ..st }
            }
        },
        ScanMode::DoubleQuoted => {
            if c == '\\' {
                Scan { mode: ScanMode::Escaped { quoted: true }, ..st }
            } else if c == '"' {
                Scan { mode: ScanMode::Normal, ..st }
            } else {
                Scan { word: st.word.push(c), ..st }
            }
        },
        ScanMode::Escaped { quoted: false } => {
            Scan { mode: ScanMode::Normal, word: st.word.push(c), ..st }
        },
        ScanMode::Escaped { quoted: true } => {
            if c == '"' || c == '\\' {
                Scan { mode: ScanMode::DoubleQuoted, word: st.word.push(c), ..st }
            } else {
                Scan { mode: ScanMode::DoubleQuoted, word: st.word.push('\\').push(c), ..st }
            }
        },
    }
}

/// The state after reading all of `s`, starting in state `st`.
pub open spec fn scan_from(st: Scan, s: Seq<char>) -> Scan {
    s.fold_left(st, |acc: Scan, c: char| scan_step(acc, c))
}

/// The words of a finished scan: the complete ones, then the open one unless
/// it is empty.
pub open spec fn scan_finish(st: Scan) -> Seq<Seq<char>> {
    if st.word.len() > 0 {
        st.done.push(st.word)
    } else {
        st.done
    }
}

/// The tokens of the line `s`.
pub open spec fn tokenize(s: Seq<char>) -> Seq<Seq<char>> {
    scan_finish(scan_from(scan_start(), s))
}

/// Reading one more character is one more step.
pub proof fn lemma_scan_push(st: Scan, s: Seq<char>, c: char)
    ensures
        scan_from(st, s.push(c)) == scan_step(scan_from(st, s), c),
{
    assert(s.push(c).drop_last() =~= s);
}

/// Reading `a` and then `b` is reading `a + b`.
pub proof fn lemma_scan_concat(st: Scan, a: Seq<char>, b: Seq<char>)
    ensures
        scan_from(st, a + b) == scan_from(scan_from(st, a), b),
{
    let s = a + b;
    let f = |acc: Scan, c: char| scan_step(acc, c);
    s.lemma_fold_left_split(st, f, a.len() as int);
    assert(s.subrange(0, a.len() as int) =~= a);
    assert(s.subrange(a.len() as int, s.len() as int) =~= b);
}

/// Every word that the scanner has completed holds at least one character.
pub open spec fn done_nonempty(st: Scan) -> bool {
    forall|i: int| 0 <= i < st.done.len() ==> (#[trigger] st.done[i]).len() > 0
}

/// A step never completes an empty word.
pub proof fn lemma_step_done_nonempty(st: Scan, c: char)
    requires
        done_nonempty(st),
    ensures
        done_nonempty(scan_step(st, c)),
{
}

/// A scan never completes an empty word.
pub proof fn lemma_scan_done_nonempty(st: Scan, s: Seq<char>)
    requires
        done_nonempty(st),
    ensures
        done_nonempty(scan_from(st, s)),
    decreases s.len(),
{
    if s.len() > 0 {
        lemma_scan_done_nonempty(st, s.drop_last());
        lemma_step_done_nonempty(scan_from(st, s.drop_last()), s.last());
    }
}

/// No token is empty: whitespace runs, empty quotes and a lone backslash
/// produce no argument.
pub proof fn lemma_tokens_nonempty(s: Seq<char>)
    ensures
        forall|i: int| 0 <= i < tokenize(s).len() ==> (#[trigger] tokenize(s)[i]).len() > 0,
{
    lemma_scan_done_nonempty(scan_start(), s);
}

/// Outside quotes, a backslash makes the next character literal: the
/// backslash is dropped and the character joins the open word, whatever it
/// is.
pub proof fn lemma_escape_outside_quotes(st: Scan, c: char)
    requires
        st.mode == ScanMode::Normal,
    ensures
        scan_step(scan_step(st, '\\'), c) == (Scan {
            mode: ScanMode::Normal,
            done: st.done,
            word: st.word.push(c),
        }),
{
}

/// Inside double quotes, a backslash escapes `"` and `\` only: before any
/// other character it stays in the word.
pub proof fn lemma_escape_inside_double_quotes(st: Scan, c: char)
    requires
        st.mode == ScanMode::DoubleQuoted,
    ensures
        scan_step(scan_step(st, '\\'), c) == (Scan {
            mode: ScanMode::DoubleQuoted,
            done: st.done,
            word: if c == '"' || c == '\\' {
                st.word.push(c)
            } else {
                st.word.push('\\').push(c)
            },
        }),
{
}

/// Inside single quotes, every character but the quote itself joins the open
/// word as it is.
pub proof fn lemma_scan_single_quoted(st: Scan, w: Seq<char>)
    requires
        st.mode == ScanMode::SingleQuoted,
        forall|i: int| 0 <= i < w.len() ==> w[i] != '\'',
    ensures
        scan_from(st, w) == (Scan {
            mode: ScanMode::SingleQuoted,
            done: st.done,
            word: st.word + w,
        }),
    decreases w.len(),
{
    if w.len() > 0 {
        lemma_scan_single_quoted(st, w.drop_last());
        assert(st.word + w =~= (st.word + w.drop_last()).push(w.last()));
    }
}

/// Quotes do not end a word: a single-quoted region read outside quotes adds
/// its contents to the open word, and completes nothing.
pub proof fn lemma_single_quotes_join(st: Scan, w: Seq<char>)
    requires
        st.mode == ScanMode::Normal,
        forall|i: int| 0 <= i < w.len() ==> w[i] != '\'',
    ensures
        scan_from(st, seq!['\''] + w + seq!['\'']) == (Scan {
            mode: ScanMode::Normal,
            done: st.done,
            word: st.word + w,
        }),
{
    let open = seq!['\''];
    lemma_scan_push(st, Seq::empty(), '\'');
    lemma_scan_concat(st, open, w);
    lemma_scan_single_quoted(scan_from(st, open), w);
    lemma_scan_push(st, open + w, '\'');
    assert((open + w).push('\'') =~= open + w + seq!['\'']);
}

/// A character that the tokenizer takes as it is wherever it stands: neither
/// whitespace, nor a quote, nor a backslash.
pub open spec fn is_plain(c: char) -> bool {
    !is_whitespace(c) && c != '\\' && c != '\'' && c != '"'
}

/// A non-empty word made of plain characters only.
pub open spec fn is_plain_word(w: Seq<char>) -> bool {
    w.len() > 0 && forall|i: int| 0 <= i < w.len() ==> is_plain(#[trigger] w[i])
}

/// Outside quotes, plain characters are added to the open word one by one.
pub proof fn lemma_scan_plain(st: Scan, w: Seq<char>)
    requires
        st.mode == ScanMode::Normal,
        forall|i: int| 0 <= i < w.len() ==> is_plain(#[trigger] w[i]),
    ensures
        scan_from(st, w) == (Scan { mode: ScanMode::Normal, done: st.done, word: st.word + w }),
    decreases w.len(),
{
    if w.len() > 0 {
        lemma_scan_plain(st, w.drop_last());
        assert(st.word + w =~= (st.word + w.drop_last()).push(w.last()));
    }
}

/// The state after scanning plain words joined by single spaces: all words
/// but the last are complete, and the last one is open.
proof fn lemma_scan_plain_words(words: Seq<Seq<char>>)
    requires
        words.len() > 0,
        forall|i: int| 0 <= i < words.len() ==> is_plain_word(#[trigger] words[i]),
    ensures
        scan_from(scan_start(), join(words, seq![' '])) == (Scan {
            mode: ScanMode::Normal,
            done: words.drop_last(),
            word: words.last(),
        }),
    decreases words.len(),
{
    let last = words.last();
    if words.len() == 1 {
        lemma_scan_plain(scan_start(), last);
        assert(words.drop_last() =~= Seq::<Seq<char>>::empty());
    } else {
        let front = words.drop_last();
        lemma_scan_plain_words(front);
        let head = join(front, seq![' ']);
        lemma_scan_push(scan_start(), head, ' ');
        assert(head + seq![' '] =~= head.push(' '));
        let after_space = scan_from(scan_start(), head + seq![' ']);
        assert(front.drop_last().push(front.last()) =~= front);
        lemma_scan_concat(scan_start(), head + seq![' '], last);
        lemma_scan_plain(after_space, last);
    }
}

/// Tokenizing words that are already separated leaves them as they are:
/// when every word is non-empty and free of whitespace, quotes and
/// backslashes, the line made of the words with one space between each two
/// tokenizes to exactly those words, in order.
pub proof fn lemma_tokenize_plain_words(words: Seq<Seq<char>>)
    requires
        forall|i: int| 0 <= i < words.len() ==> is_plain_word(#[trigger] words[i]),
    ensures
        tokenize(join(words, seq![' '])) == words,
{
    if words.len() > 0 {
        lemma_scan_plain_words(words);
    }
}

/// Tokenizes `chars[from..]`.
pub(crate) fn tokenize_chars(chars: &Vec<char>, from: usize) -> (args: Vec<String>)
    requires
        from <= chars.len(),
    ensures
        args.deep_view() == tokenize(chars@.skip(from as int)),
{
    let mut args: Vec<String> = Vec::new();
    let mut current = String::new();
    let mut mode = ScanMode::Normal;
    let ghost line = chars@.skip(from as int);
    let mut i: usize = from;
    assert(args.deep_view() =~= Seq::<Seq<char>>::empty());
    while i < chars.len()
        invariant
            from <= i <= chars.len(),
            line == chars@.skip(from as int),
            scan_from(scan_start(), line.take(i - from)) == (Scan {
                mode,
                done: args.deep_view(),
                word: current@,
            }),
        decreases chars.len() - i,
    {
        let c = chars[i];
        let ghost before = Scan { mode, done: args.deep_view(), word: current@ };
        proof {
            lemma_scan_push(scan_start(), line.take(i - from), c);
            assert(line.take(i - from).push(c) =~= line.take(i + 1 - from));
        }
        match mode {
            ScanMode::Normal => {
                if c == '\\' {
                    mode = ScanMode::Escaped { quoted: false };
                } else if c == '\'' {
                    mode = ScanMode::SingleQuoted;
                } else if c == '"' {
                    mode = ScanMode::DoubleQuoted;
                } else if is_space(c) {
                    if !current.as_str().is_empty() {
                        let ghost old_args = args.deep_view();
                        args.push(current);
                        current = String::new();
                        assert(args.deep_view() =~= old_args.push(before.word));
                    }
                } else {
                    push_char(&mut current, c);
                }
            },
            ScanMode::SingleQuoted => {
                if c == '\'' {
                    mode = ScanMode::Normal;
                } else {
                    push_char(&mut current, c);
                }
            },
            ScanMode::DoubleQuoted => {
                if c == '\\' {
                    mode = ScanMode::Escaped { quoted: true };
                } else if c == '"' {
                    mode = ScanMode::Normal;
                } else {
                    push_char(&mut current, c);
                }
            },
            ScanMode::Escaped { quoted } => {
                if quoted {
                    if c != '"' && c != '\\' {
                        push_char(&mut current, '\\');
                    }
                    push_char(&mut current, c);
                    mode = ScanMode::DoubleQuoted;
                } else {
                    push_char(&mut current, c);
                    mode = ScanMode::Normal;
                }
            },
        }
        i += 1;
    }
    if !current.as_str().is_empty() {
        args.push(current);
    }
    args
}

/// Splits a command line into its arguments, honoring single quotes, double
/// quotes and backslash escapes.
///
/// Outside quotes a backslash makes the next character literal. Inside single
/// quotes every character but the closing quote is literal. Inside double
/// quotes a backslash escapes only `"` and `\`, and stays in the word before
/// any other character. Runs of unquoted, unescaped whitespace separate the
/// arguments; entering or leaving quotes does not.
///
/// No argument is empty. An unterminated quote ends with the input, and a
/// backslash that ends the input is dropped.
pub fn parse_shell_arguments(input: &str) -> (args: Vec<String>)
    ensures
        args.deep_view() == tokenize(input@),
        forall|i: int| 0 <= i < args.len() ==> (#[trigger] args[i])@.len() > 0,
{
    let chars = to_chars(input);
    assert(chars@.skip(0) =~= chars@);
    let args = tokenize_chars(&chars, 0);
    proof {
        lemma_tokens_nonempty(input@);
        assert forall|i: int| 0 <= i < args.len() implies (#[trigger] args[i])@.len() > 0 by {
            assert(args.deep_view()[i] == args[i]@);
        }
    }
    args
}

} // verus!
