//! Character-level helpers shared by the interpreter: whitespace, trimming,
//! word splitting, searching, joining, and conversions between strings and
//! character sequences.
//!
//! Every contract in this crate speaks of a string through its view, the
//! sequence of its characters. The executable helpers work on a `Vec<char>`
//! and a half-open range of indices into it, so that no intermediate string
//! is built while a line is taken apart.

use vstd::prelude::*;

verus! {

/// The characters that separate words: the Unicode `White_Space` set.
pub open spec fn is_whitespace(c: char) -> bool {
    let n = c as u32;
    ||| 0x09 <= n <= 0x0D
    ||| n == 0x20
    ||| n == 0x85
    ||| n == 0xA0
    ||| n == 0x1680
    ||| 0x2000 <= n <= 0x200A
    ||| n == 0x2028
    ||| n == 0x2029
    ||| n == 0x202F
    ||| n == 0x205F
    ||| n == 0x3000
}

/// `s` without its leading whitespace.
pub open spec fn trim_start(s: Seq<char>) -> Seq<char>
    decreases s.len(),
{
    if s.len() > 0 && is_whitespace(s[0]) {
        trim_start(s.drop_first())
    } else {
        s
    }
}

/// `s` without its trailing whitespace.
pub open spec fn trim_end(s: Seq<char>) -> Seq<char>
    decreases s.len(),
{
    if s.len() > 0 && is_whitespace(s.last()) {
        trim_end(s.drop_last())
    } else {
        s
    }
}

/// `s` without its leading and trailing whitespace.
pub open spec fn trim(s: Seq<char>) -> Seq<char> {
    trim_end(trim_start(s))
}

/// The number of characters at the start of `s` that are not whitespace.
pub open spec fn word_len(s: Seq<char>) -> nat
    decreases s.len(),
{
    if s.len() > 0 && !is_whitespace(s[0]) {
        1 + word_len(s.drop_first())
    } else {
        0
    }
}

/// The first whitespace-delimited word of `s`; empty when `s` has none.
pub open spec fn first_word(s: Seq<char>) -> Seq<char> {
    let t = trim_start(s);
    t.take(word_len(t) as int)
}

/// What follows the first whitespace-delimited word of `s`.
pub open spec fn after_first_word(s: Seq<char>) -> Seq<char> {
    let t = trim_start(s);
    t.skip(word_len(t) as int)
}

/// `pat` stands in `s` at index `i`.
pub open spec fn occurs_at(s: Seq<char>, pat: Seq<char>, i: int) -> bool {
    0 <= i && i + pat.len() <= s.len() && s.subrange(i, i + pat.len()) == pat
}

/// The least index at or after `i` where `pat` stands in `s`.
pub open spec fn find_from(s: Seq<char>, pat: Seq<char>, i: int) -> Option<int>
    decreases s.len() + 1 - i,
{
    if i < 0 || i + pat.len() > s.len() {
        None
    } else if occurs_at(s, pat, i) {
        Some(i)
    } else {
        find_from(s, pat, i + 1)
    }
}

/// The index of the first occurrence of `pat` in `s`.
pub open spec fn find(s: Seq<char>, pat: Seq<char>) -> Option<int> {
    find_from(s, pat, 0)
}

/// The parts in order, with `sep` between each two neighbours.
pub open spec fn join(parts: Seq<Seq<char>>, sep: Seq<char>) -> Seq<char>
    decreases parts.len(),
{
    if parts.len() == 0 {
        Seq::empty()
    } else if parts.len() == 1 {
        parts[0]
    } else {
        join(parts.drop_last(), sep) + sep + parts.last()
    }
}

/// `find_from` returns the least occurrence at or after `i`, and `None`
/// exactly when there is none.
pub proof fn lemma_find_from(s: Seq<char>, pat: Seq<char>, i: int)
    requires
        0 <= i,
    ensures
        match find_from(s, pat, i) {
            Some(k) => i <= k && occurs_at(s, pat, k) && forall|j: int|
                i <= j < k ==> !occurs_at(s, pat, j),
            None => forall|j: int| i <= j ==> !occurs_at(s, pat, j),
        },
    decreases s.len() + 1 - i,
{
    if i + pat.len() > s.len() {
    } else if occurs_at(s, pat, i) {
    } else {
        lemma_find_from(s, pat, i + 1);
    }
}

/// `find` returns the first occurrence of the pattern, and `None` exactly
/// when the pattern does not occur.
pub proof fn lemma_find(s: Seq<char>, pat: Seq<char>)
    ensures
        match find(s, pat) {
            Some(k) => occurs_at(s, pat, k) && forall|j: int| j < k ==> !occurs_at(s, pat, j),
            None => forall|j: int| !occurs_at(s, pat, j),
        },
{
    lemma_find_from(s, pat, 0);
}

/// Leading whitespace is exactly what `trim_start` removes: if the first `k`
/// characters are whitespace and the next one is not, the rest is the result.
pub proof fn lemma_trim_start_skip(s: Seq<char>, k: int)
    requires
        0 <= k <= s.len(),
        forall|j: int| 0 <= j < k ==> is_whitespace(s[j]),
        k < s.len() ==> !is_whitespace(s[k]),
    ensures
        trim_start(s) == s.skip(k),
    decreases k,
{
    if k > 0 {
        lemma_trim_start_skip(s.drop_first(), k - 1);
    }
}

/// Trailing whitespace is exactly what `trim_end` removes.
pub proof fn lemma_trim_end_take(s: Seq<char>, k: int)
    requires
        0 <= k <= s.len(),
        forall|j: int| k <= j < s.len() ==> is_whitespace(s[j]),
        k > 0 ==> !is_whitespace(s[k - 1]),
    ensures
        trim_end(s) == s.take(k),
    decreases s.len() - k,
{
    if k < s.len() {
        lemma_trim_end_take(s.drop_last(), k);
    }
}

/// `s` holds no whitespace.
pub open spec fn is_word(s: Seq<char>) -> bool {
    forall|i: int| 0 <= i < s.len() ==> !is_whitespace(#[trigger] s[i])
}

/// The characters that `word_len` counts are no whitespace.
pub proof fn lemma_word_prefix(s: Seq<char>)
    ensures
        word_len(s) <= s.len(),
        is_word(s.take(word_len(s) as int)),
    decreases s.len(),
{
    if s.len() > 0 && !is_whitespace(s[0]) {
        let rest = s.drop_first();
        lemma_word_prefix(rest);
        assert forall|i: int| 0 <= i < word_len(s) implies !is_whitespace(
            #[trigger] s.take(word_len(s) as int)[i],
        ) by {
            if i > 0 {
                assert(s[i] == rest.take(word_len(rest) as int)[i - 1]);
            }
        }
    }
}

/// The first word of a line holds no whitespace.
pub proof fn lemma_first_word_is_word(s: Seq<char>)
    ensures
        is_word(first_word(s)),
{
    lemma_word_prefix(trim_start(s));
}

/// Trimming the end twice is trimming it once.
pub proof fn lemma_trim_end_idempotent(s: Seq<char>)
    ensures
        trim_end(trim_end(s)) == trim_end(s),
    decreases s.len(),
{
    if s.len() > 0 && is_whitespace(s.last()) {
        lemma_trim_end_idempotent(s.drop_last());
    }
}

/// A run of `k` characters without whitespace, followed by whitespace or the
/// end, is the first word's length.
pub proof fn lemma_word_len(s: Seq<char>, k: int)
    requires
        0 <= k <= s.len(),
        forall|j: int| 0 <= j < k ==> !is_whitespace(s[j]),
        k < s.len() ==> is_whitespace(s[k]),
    ensures
        word_len(s) == k,
    decreases k,
{
    if k > 0 {
        lemma_word_len(s.drop_first(), k - 1);
    }
}

/// Decides whether `c` separates words.
pub fn is_space(c: char) -> (r: bool)
    ensures
        r == is_whitespace(c),
{
    let n: u32 = c as u32;
    (0x09 <= n && n <= 0x0D) || n == 0x20 || n == 0x85 || n == 0xA0 || n == 0x1680 || (0x2000 <= n
        && n <= 0x200A) || n == 0x2028 || n == 0x2029 || n == 0x202F || n == 0x205F || n == 0x3000
}

/// Appends one character to a string.
///
/// Wraps `String::push`, which adds the given character at the end of the
/// string and leaves the characters before it as they were.
#[verifier::external_body]
pub(crate) fn push_char(s: &mut String, c: char)
    ensures
        final(s)@ == old(s)@.push(c),
{
    s.push(c);
}

/// The characters of `s`, in order.
pub fn to_chars(s: &str) -> (v: Vec<char>)
    ensures
        v@ == s@,
{
    let mut v: Vec<char> = Vec::new();
    for c in it: s.chars()
        invariant
            v@ == it.seq().take(it.index() as int),
    {
        v.push(c);
    }
    v
}

/// The string made of `chars[from..to]`.
pub(crate) fn to_string(chars: &Vec<char>, from: usize, to: usize) -> (s: String)
    requires
        from <= to <= chars.len(),
    ensures
        s@ == chars@.subrange(from as int, to as int),
{
    let mut s = String::new();
    let mut i: usize = from;
    while i < to
        invariant
            from <= i <= to <= chars.len(),
            s@ == chars@.subrange(from as int, i as int),
        decreases to - i,
    {
        push_char(&mut s, chars[i]);
        i += 1;
    }
    s
}

/// The index of the first character of `chars[from..to]` that is not
/// whitespace, or `to`.
pub(crate) fn skip_whitespace(chars: &Vec<char>, from: usize, to: usize) -> (r: usize)
    requires
        from <= to <= chars.len(),
    ensures
        from <= r <= to,
        chars@.subrange(r as int, to as int) == trim_start(chars@.subrange(from as int, to as int)),
{
    let mut i: usize = from;
    while i < to && is_space(chars[i])
        invariant
            from <= i <= to <= chars.len(),
            forall|j: int| from <= j < i ==> is_whitespace(chars@[j]),
        decreases to - i,
    {
        i += 1;
    }
    proof {
        lemma_trim_start_skip(chars@.subrange(from as int, to as int), i - from);
    }
    i
}

/// The index after the last character of `chars[from..to]` that is not
/// whitespace, or `from`.
pub(crate) fn skip_whitespace_back(chars: &Vec<char>, from: usize, to: usize) -> (r: usize)
    requires
        from <= to <= chars.len(),
    ensures
        from <= r <= to,
        chars@.subrange(from as int, r as int) == trim_end(chars@.subrange(from as int, to as int)),
{
    let mut i: usize = to;
    while i > from && is_space(chars[i - 1])
        invariant
            from <= i <= to <= chars.len(),
            forall|j: int| i <= j < to ==> is_whitespace(chars@[j]),
        decreases i - from,
    {
        i -= 1;
    }
    proof {
        lemma_trim_end_take(chars@.subrange(from as int, to as int), i - from);
    }
    i
}

/// The bounds of `chars[from..to]` without its leading and trailing
/// whitespace.
pub(crate) fn trim_range(chars: &Vec<char>, from: usize, to: usize) -> (r: (usize, usize))
    requires
        from <= to <= chars.len(),
    ensures
        from <= r.0 <= r.1 <= to,
        chars@.subrange(r.0 as int, r.1 as int) == trim(chars@.subrange(from as int, to as int)),
{
    let start = skip_whitespace(chars, from, to);
    let end = skip_whitespace_back(chars, start, to);
    (start, end)
}

/// The index where the word that starts at `from` ends: that of the first
/// whitespace character of `chars[from..to]`, or `to`.
pub(crate) fn word_end(chars: &Vec<char>, from: usize, to: usize) -> (r: usize)
    requires
        from <= to <= chars.len(),
    ensures
        from <= r <= to,
        r - from == word_len(chars@.subrange(from as int, to as int)),
{
    let mut i: usize = from;
    while i < to && !is_space(chars[i])
        invariant
            from <= i <= to <= chars.len(),
            forall|j: int| from <= j < i ==> !is_whitespace(chars@[j]),
        decreases to - i,
    {
        i += 1;
    }
    proof {
        lemma_word_len(chars@.subrange(from as int, to as int), i - from);
    }
    i
}

/// The bounds of the first whitespace-delimited word of `chars[from..]`.
pub(crate) fn first_word_range(chars: &Vec<char>, from: usize) -> (r: (usize, usize))
    requires
        from <= chars.len(),
    ensures
        from <= r.0 <= r.1 <= chars.len(),
        chars@.subrange(r.0 as int, r.1 as int) == first_word(chars@.skip(from as int)),
        chars@.skip(r.1 as int) == after_first_word(chars@.skip(from as int)),
{
    let n = chars.len();
    let start = skip_whitespace(chars, from, n);
    let end = word_end(chars, start, n);
    (start, end)
}

/// Tells whether `pat` stands in `chars` at index `at`.
pub(crate) fn matches_at(chars: &Vec<char>, pat: &Vec<char>, at: usize) -> (r: bool)
    requires
        at <= chars.len(),
    ensures
        r == occurs_at(chars@, pat@, at as int),
{
    if pat.len() > chars.len() - at {
        return false;
    }
    let mut k: usize = 0;
    while k < pat.len()
        invariant
            at + pat.len() <= chars.len(),
            k <= pat.len(),
            forall|j: int| 0 <= j < k ==> chars@[at + j] == pat@[j],
        decreases pat.len() - k,
    {
        if chars[at + k] != pat[k] {
            return false;
        }
        k += 1;
    }
    assert(chars@.subrange(at as int, at + pat.len()) =~= pat@);
    true
}

/// The index of the first occurrence of `pat` in `chars`.
pub(crate) fn find_first(chars: &Vec<char>, pat: &Vec<char>) -> (r: Option<usize>)
    ensures
        match r {
            Some(i) => find(chars@, pat@) == Some(i as int),
            None => find(chars@, pat@).is_none(),
        },
{
    let mut i: usize = 0;
    loop
        invariant
            i <= chars.len(),
            find(chars@, pat@) == find_from(chars@, pat@, i as int),
        decreases chars.len() - i,
    {
        if matches_at(chars, pat, i) {
            return Some(i);
        }
        if i == chars.len() {
            assert(find_from(chars@, pat@, i + 1).is_none());
            return None;
        }
        i += 1;
    }
}

/// Tells whether `chars[from..to]` spells the text `lit`.
pub(crate) fn range_is(chars: &Vec<char>, from: usize, to: usize, lit: &str) -> (r: bool)
    requires
        from <= to <= chars.len(),
    ensures
        r == (chars@.subrange(from as int, to as int) == lit@),
{
    let pat = to_chars(lit);
    if pat.len() != to - from {
        return false;
    }
    matches_at(chars, &pat, from)
}

/// The arguments joined by single spaces.
pub fn join_arguments(argv: &Vec<String>) -> (out: String)
    ensures
        out@ == join(argv.deep_view(), seq![' ']),
{
    let mut out = String::new();
    let mut i: usize = 0;
    while i < argv.len()
        invariant
            i <= argv.len(),
            out@ == join(argv.deep_view().take(i as int), seq![' ']),
        decreases argv.len() - i,
    {
        if i > 0 {
            push_char(&mut out, ' ');
        }
        out.append(argv[i].as_str());
        i += 1;
        assert(argv.deep_view().take(i as int).drop_last() =~= argv.deep_view().take(i - 1));
    }
    assert(argv.deep_view().take(argv.len() as int) =~= argv.deep_view());
    out
}

} // verus!
