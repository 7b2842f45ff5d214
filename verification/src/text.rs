//! Text as sequences of characters.
//!
//! Everything in this crate that looks inside a string works on code points,
//! never on bytes. This module turns strings into character vectors and back,
//! classifies characters, measures runs of characters of one class, and trims
//! white space.

use vstd::prelude::*;
use vstd::slice::slice_subrange;

verus! {

/// `String::push` of the standard library: the character is appended to the
/// string, and nothing else about the string changes.
pub assume_specification[ String::push ](s: &mut String, c: char)
    ensures
        final(s)@ == old(s)@.push(c),
;

/// The characters of a string, in order.
pub fn to_chars(s: &str) -> (out: Vec<char>)
    ensures
        out@ == s@,
{
    let mut out: Vec<char> = Vec::new();
    for c in it: s.chars()
        invariant
            out@ == it.seq().take(it.index() as int),
            it.seq() == s@,
    {
        out.push(c);
    }
    out
}

/// The string made of the given characters, in order.
pub fn from_chars(chars: &[char]) -> (out: String)
    ensures
        out@ == chars@,
{
    let mut out = String::new();
    let mut i: usize = 0;
    while i < chars.len()
        invariant
            i <= chars.len(),
            out@ == chars@.take(i as int),
        decreases chars.len() - i,
    {
        out.push(chars[i]);
        i += 1;
    }
    out
}

/// Whether two character slices hold the same characters.
pub fn same_chars(a: &[char], b: &[char]) -> (same: bool)
    ensures
        same == (a@ == b@),
{
    if a.len() != b.len() {
        return false;
    }
    let mut i: usize = 0;
    while i < a.len()
        invariant
            a.len() == b.len(),
            i <= a.len(),
            a@.take(i as int) == b@.take(i as int),
        decreases a.len() - i,
    {
        if a[i] != b[i] {
            return false;
        }
        assert(a@.take(i + 1) == a@.take(i as int).push(a@[i as int]));
        assert(b@.take(i + 1) == b@.take(i as int).push(b@[i as int]));
        i += 1;
    }
    assert(a@ == a@.take(a.len() as int));
    assert(b@ == b@.take(b.len() as int));
    true
}

/// Whether a character slice holds exactly the characters of a string.
pub fn equals_str(a: &[char], s: &str) -> (same: bool)
    ensures
        same == (a@ == s@),
{
    let mut i: usize = 0;
    for c in it: s.chars()
        invariant
            it.seq() == s@,
            i == it.index(),
            i <= a.len(),
            a@.take(i as int) == s@.take(i as int),
    {
        if i >= a.len() || a[i] != c {
            assert(a@ != s@) by {
                if a@ == s@ {
                    assert(a@[i as int] == s@[i as int]);
                }
            }
            return false;
        }
        assert(a@.take(i + 1) == a@.take(i as int).push(a@[i as int]));
        assert(s@.take(i + 1) == s@.take(i as int).push(s@[i as int]));
        i += 1;
    }
    assert(s@.take(i as int) == s@);
    if i == a.len() {
        assert(a@.take(i as int) == a@);
        true
    } else {
        false
    }
}

/// The code points that Unicode gives the property `White_Space`.
pub open spec fn is_whitespace(c: char) -> bool {
    let n = c as u32;
    ||| 0x09 <= n <= 0x0d
    ||| n == 0x20
    ||| n == 0x85
    ||| n == 0xa0
    ||| n == 0x1680
    ||| 0x2000 <= n <= 0x200a
    ||| n == 0x2028
    ||| n == 0x2029
    ||| n == 0x202f
    ||| n == 0x205f
    ||| n == 0x3000
}

/// The classes of characters that the scanners of this crate tell apart.
#[derive(Clone, Copy, Debug)]
pub enum CharClass {
    /// White space, as `is_whitespace` defines it.
    Whitespace,
    /// Anything but white space.
    Token,
    /// What an attribute key is made of: no white space, no `=`, no `"`.
    Key,
    /// Anything but a double quote.
    Unquoted,
    /// The decimal digits `0` to `9`.
    Digit,
    /// Anything but a line feed.
    LineText,
}

/// Whether a character belongs to a class.
pub open spec fn in_class(class: CharClass, c: char) -> bool {
    match class {
        CharClass::Whitespace => is_whitespace(c),
        CharClass::Token => !is_whitespace(c),
        CharClass::Key => !is_whitespace(c) && c != '=' && c != '"',
        CharClass::Unquoted => c != '"',
        CharClass::Digit => '0' <= c <= '9',
        CharClass::LineText => c != '\n',
    }
}

/// Decides `is_whitespace`.
pub fn whitespace(c: char) -> (b: bool)
    ensures
        b == is_whitespace(c),
{
    let n: u32 = c as u32;
    (0x09 <= n && n <= 0x0d) || n == 0x20 || n == 0x85 || n == 0xa0 || n == 0x1680 || (0x2000 <= n
        && n <= 0x200a) || n == 0x2028 || n == 0x2029 || n == 0x202f || n == 0x205f || n == 0x3000
}

/// Decides `in_class`.
pub fn class_has(class: CharClass, c: char) -> (b: bool)
    ensures
        b == in_class(class, c),
{
    match class {
        CharClass::Whitespace => whitespace(c),
        CharClass::Token => !whitespace(c),
        CharClass::Key => !whitespace(c) && c != '=' && c != '"',
        CharClass::Unquoted => c != '"',
        CharClass::Digit => '0' <= c && c <= '9',
        CharClass::LineText => c != '\n',
    }
}

/// How many characters at the front of `s` belong to `class`, up to the first
/// one that does not.
pub open spec fn run_len(s: Seq<char>, class: CharClass) -> nat
    decreases s.len(),
{
    if s.len() > 0 && in_class(class, s[0]) {
        1 + run_len(s.drop_first(), class)
    } else {
        0
    }
}

/// How many characters at the back of `s` belong to `class`, down to the last
/// one that does not.
pub open spec fn trailing_len(s: Seq<char>, class: CharClass) -> nat
    decreases s.len(),
{
    if s.len() > 0 && in_class(class, s.last()) {
        1 + trailing_len(s.drop_last(), class)
    } else {
        0
    }
}

/// A run is a prefix: it is no longer than the sequence, every character in it
/// belongs to the class, and the character after it, if any, does not.
pub proof fn lemma_run_len(s: Seq<char>, class: CharClass)
    ensures
        run_len(s, class) <= s.len(),
        forall|i: int| 0 <= i < run_len(s, class) ==> in_class(class, #[trigger] s[i]),
        run_len(s, class) < s.len() ==> !in_class(class, s[run_len(s, class) as int]),
    decreases s.len(),
{
    if s.len() > 0 && in_class(class, s[0]) {
        let rest = s.drop_first();
        lemma_run_len(rest, class);
        assert forall|i: int| 0 <= i < run_len(s, class) implies in_class(
            class,
            #[trigger] s[i],
        ) by {
            if i > 0 {
                assert(s[i] == rest[i - 1]);
            }
        }
        if run_len(s, class) < s.len() {
            assert(s[run_len(s, class) as int] == rest[run_len(rest, class) as int]);
        }
    }
}

/// The mirror image of `lemma_run_len` for the back of a sequence.
pub proof fn lemma_trailing_len(s: Seq<char>, class: CharClass)
    ensures
        trailing_len(s, class) <= s.len(),
        forall|i: int|
            s.len() - trailing_len(s, class) <= i < s.len() ==> in_class(class, #[trigger] s[i]),
        trailing_len(s, class) < s.len() ==> !in_class(
            class,
            s[s.len() - trailing_len(s, class) - 1],
        ),
    decreases s.len(),
{
    if s.len() > 0 && in_class(class, s.last()) {
        let rest = s.drop_last();
        lemma_trailing_len(rest, class);
        assert forall|i: int| s.len() - trailing_len(s, class) <= i < s.len() implies in_class(
            class,
            #[trigger] s[i],
        ) by {
            if i < s.len() - 1 {
                assert(s[i] == rest[i]);
            }
        }
        if trailing_len(s, class) < s.len() {
            assert(s[s.len() - trailing_len(s, class) - 1] == rest[rest.len() - trailing_len(
                rest,
                class,
            ) - 1]);
        }
    }
}

/// A sequence whose first `n` characters belong to the class and whose next
/// character, if there is one, does not, has a run of exactly `n`.
pub proof fn lemma_run_len_is(s: Seq<char>, class: CharClass, n: nat)
    requires
        n <= s.len(),
        forall|i: int| 0 <= i < n ==> in_class(class, #[trigger] s[i]),
        n < s.len() ==> !in_class(class, s[n as int]),
    ensures
        run_len(s, class) == n,
    decreases n,
{
    if n > 0 {
        let rest = s.drop_first();
        assert forall|i: int| 0 <= i < n - 1 implies in_class(class, #[trigger] rest[i]) by {
            assert(rest[i] == s[i + 1]);
        }
        lemma_run_len_is(rest, class, (n - 1) as nat);
    }
}

/// The counterpart of `lemma_run_len_is` for the back of a sequence.
pub proof fn lemma_trailing_len_is(s: Seq<char>, class: CharClass, n: nat)
    requires
        n <= s.len(),
        forall|i: int| s.len() - n <= i < s.len() ==> in_class(class, #[trigger] s[i]),
        n < s.len() ==> !in_class(class, s[s.len() - n - 1]),
    ensures
        trailing_len(s, class) == n,
    decreases n,
{
    if n > 0 {
        let rest = s.drop_last();
        assert forall|i: int| rest.len() - (n - 1) <= i < rest.len() implies in_class(
            class,
            #[trigger] rest[i],
        ) by {
            assert(rest[i] == s[i]);
        }
        lemma_trailing_len_is(rest, class, (n - 1) as nat);
    }
}

/// The end of the run of `class` that starts at `from`.
pub fn scan(s: &[char], from: usize, class: CharClass) -> (end: usize)
    requires
        from <= s.len(),
    ensures
        from <= end <= s.len(),
        end == from + run_len(s@.skip(from as int), class),
{
    let mut end: usize = from;
    while end < s.len() && class_has(class, s[end])
        invariant
            from <= end <= s.len(),
            forall|i: int| from <= i < end ==> in_class(class, #[trigger] s@[i]),
        decreases s.len() - end,
    {
        end += 1;
    }
    proof {
        let tail = s@.skip(from as int);
        assert forall|i: int| 0 <= i < end - from implies in_class(class, #[trigger] tail[i]) by {
            assert(tail[i] == s@[from + i]);
        }
        lemma_run_len_is(tail, class, (end - from) as nat);
    }
    end
}

/// The start of the run of `class` that ends just before `to`.
pub fn scan_back(s: &[char], to: usize, class: CharClass) -> (start: usize)
    requires
        to <= s.len(),
    ensures
        start <= to,
        start == to - trailing_len(s@.take(to as int), class),
{
    let mut start: usize = to;
    while start > 0 && class_has(class, s[start - 1])
        invariant
            start <= to <= s.len(),
            forall|i: int| start <= i < to ==> in_class(class, #[trigger] s@[i]),
        decreases start,
    {
        start -= 1;
    }
    proof {
        let head = s@.take(to as int);
        assert forall|i: int| head.len() - (to - start) <= i < head.len() implies in_class(
            class,
            #[trigger] head[i],
        ) by {
            assert(head[i] == s@[i]);
        }
        lemma_trailing_len_is(head, class, (to - start) as nat);
    }
    start
}

/// `s` without the white space at its front.
pub open spec fn trim_start(s: Seq<char>) -> Seq<char> {
    s.skip(run_len(s, CharClass::Whitespace) as int)
}

/// `s` without the white space at its back.
pub open spec fn trim_end(s: Seq<char>) -> Seq<char> {
    s.take(s.len() - trailing_len(s, CharClass::Whitespace))
}

/// `s` without the white space at either end.
pub open spec fn trim(s: Seq<char>) -> Seq<char> {
    trim_end(trim_start(s))
}

/// Whether `s` holds nothing but white space.
pub open spec fn is_blank(s: Seq<char>) -> bool {
    trim(s).len() == 0
}

/// A sequence is blank exactly when each of its characters is white space.
pub proof fn lemma_blank_means_all_whitespace(s: Seq<char>)
    ensures
        is_blank(s) <==> (forall|i: int| 0 <= i < s.len() ==> is_whitespace(#[trigger] s[i])),
{
    let lead = run_len(s, CharClass::Whitespace);
    lemma_run_len(s, CharClass::Whitespace);
    let rest = trim_start(s);
    lemma_trailing_len(rest, CharClass::Whitespace);
    if is_blank(s) {
        assert(trailing_len(rest, CharClass::Whitespace) == rest.len());
        if lead < s.len() {
            assert(rest[0] == s[lead as int]);
            assert(in_class(CharClass::Whitespace, rest[0]));
        }
    }
    if forall|i: int| 0 <= i < s.len() ==> is_whitespace(#[trigger] s[i]) {
        if lead < s.len() {
            assert(is_whitespace(s[lead as int]));
        }
    }
}

/// The part of `s` that `trim` keeps.
pub fn trimmed(s: &[char]) -> (out: &[char])
    ensures
        out@ == trim(s@),
{
    let start = scan(s, 0, CharClass::Whitespace);
    assert(s@.skip(0) == s@);
    let tail = slice_subrange(s, start, s.len());
    assert(tail@ == trim_start(s@));
    let end = scan_back(tail, tail.len(), CharClass::Whitespace);
    assert(tail@.take(tail.len() as int) == tail@);
    slice_subrange(tail, 0, end)
}

/// Whether `s` begins with the characters of `prefix`.
pub fn starts_with(s: &[char], prefix: &[char]) -> (b: bool)
    ensures
        b == prefix@.is_prefix_of(s@),
{
    if prefix.len() > s.len() {
        return false;
    }
    same_chars(slice_subrange(s, 0, prefix.len()), prefix)
}

/// Whether `s` ends with the characters of `suffix`.
pub fn ends_with(s: &[char], suffix: &[char]) -> (b: bool)
    ensures
        b == suffix@.is_suffix_of(s@),
{
    if suffix.len() > s.len() {
        return false;
    }
    same_chars(slice_subrange(s, s.len() - suffix.len(), s.len()), suffix)
}

} // verus!
