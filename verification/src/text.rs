//! Helpers for moving between strings and sequences of characters.
//!
//! Contracts across the crate speak of text as `Seq<char>`, the view of `str`
//! and `String`.  The functions here convert between the two executable
//! representations used by the crate, `String` at the public surface and
//! `Vec<char>` where characters are inspected one by one.

use vstd::prelude::*;
use vstd::string::*;

verus! {

/// `String::push` appends one character to the end of the string.
pub assume_specification[ String::push ](s: &mut String, ch: char)
    ensures
        final(s)@ == old(s)@.push(ch),
;

/// The texts of a sequence of strings, in order.
pub open spec fn texts(strings: Seq<String>) -> Seq<Seq<char>> {
    Seq::new(strings.len(), |i: int| strings[i]@)
}

/// The characters of `s`, in order.
pub fn chars_of(s: &str) -> (out: Vec<char>)
    ensures
        out@ == s@,
{
    let mut out: Vec<char> = Vec::new();
    for ch in iter: s.chars()
        invariant
            out@ == iter.seq().take(iter.index() as int),
            iter.seq() == s@,
    {
        out.push(ch);
        assert(iter.seq().take(iter.index() + 1) == iter.seq().take(iter.index() as int).push(ch));
    }
    assert(s@.take(s@.len() as int) == s@);
    out
}

/// The string whose characters are those of `chars`, in order.
pub fn string_of(chars: &Vec<char>) -> (out: String)
    ensures
        out@ == chars@,
{
    let mut out = String::new();
    let mut i: usize = 0;
    while i < chars.len()
        invariant
            i <= chars.len(),
            out@ == chars@.take(i as int),
        decreases chars.len() - i,
    {
        out.push(chars[i]);
        i = i + 1;
        assert(chars@.take(i as int) == chars@.take(i - 1).push(chars@[i - 1]));
    }
    assert(chars@.take(chars.len() as int) == chars@);
    out
}

/// The one-character string holding `ch`.
pub fn string_of_char(ch: char) -> (out: String)
    ensures
        out@ == seq![ch],
{
    let mut out = String::new();
    out.push(ch);
    assert(out@ == seq![ch]);
    out
}

/// The characters of `chars` from `from` up to `to`, as a string.
pub fn substring(chars: &Vec<char>, from: usize, to: usize) -> (out: String)
    requires
        from <= to <= chars.len(),
    ensures
        out@ == chars@.subrange(from as int, to as int),
{
    let mut out = String::new();
    let mut i: usize = from;
    while i < to
        invariant
            from <= i <= to <= chars.len(),
            out@ == chars@.subrange(from as int, i as int),
        decreases to - i,
    {
        out.push(chars[i]);
        i = i + 1;
        assert(chars@.subrange(from as int, i as int) == chars@.subrange(from as int, i - 1).push(
            chars@[i - 1],
        ));
    }
    out
}

/// The length of `s` without the run of `c` at its end.
pub open spec fn trimmed_end_len(s: Seq<char>, c: char) -> nat
    decreases s.len(),
{
    if s.len() > 0 && s.last() == c {
        trimmed_end_len(s.drop_last(), c)
    } else {
        s.len()
    }
}

/// `s` without the run of `c` at its end.
pub open spec fn trim_end_matches(s: Seq<char>, c: char) -> Seq<char> {
    s.take(trimmed_end_len(s, c) as int)
}

/// The position after the last `sep` in `s`, 0 where `s` holds none.
pub open spec fn tail_start(s: Seq<char>, sep: char) -> nat
    decreases s.len(),
{
    if s.len() == 0 {
        0
    } else if s.last() == sep {
        s.len()
    } else {
        tail_start(s.drop_last(), sep)
    }
}

/// What follows the last `sep` in `s`; all of `s` where it holds none.
pub open spec fn after_last(s: Seq<char>, sep: char) -> Seq<char> {
    s.skip(tail_start(s, sep) as int)
}

/// Whether `s` starts with `prefix`.
pub open spec fn starts_with(s: Seq<char>, prefix: Seq<char>) -> bool {
    prefix.len() <= s.len() && s.take(prefix.len() as int) == prefix
}

/// Whether `s` ends with `suffix`.
pub open spec fn ends_with(s: Seq<char>, suffix: Seq<char>) -> bool {
    suffix.len() <= s.len() && s.skip(s.len() - suffix.len()) == suffix
}

/// Computes [`trimmed_end_len`].
pub fn trim_end_len(chars: &Vec<char>, c: char) -> (len: usize)
    ensures
        len == trimmed_end_len(chars@, c),
        len <= chars.len(),
{
    let mut k: usize = chars.len();
    assert(chars@.take(k as int) == chars@);
    while k > 0 && chars[k - 1] == c
        invariant
            k <= chars.len(),
            trimmed_end_len(chars@, c) == trimmed_end_len(chars@.take(k as int), c),
        decreases k,
    {
        assert(chars@.take(k as int).drop_last() == chars@.take(k - 1));
        k = k - 1;
    }
    k
}

/// Computes [`tail_start`].
pub fn tail_start_of(chars: &Vec<char>, sep: char) -> (start: usize)
    ensures
        start == tail_start(chars@, sep),
        start <= chars.len(),
{
    let mut k: usize = chars.len();
    assert(chars@.take(k as int) == chars@);
    while k > 0 && chars[k - 1] != sep
        invariant
            k <= chars.len(),
            tail_start(chars@, sep) == tail_start(chars@.take(k as int), sep),
        decreases k,
    {
        assert(chars@.take(k as int).drop_last() == chars@.take(k - 1));
        k = k - 1;
    }
    k
}

/// Whether the characters of `chars` from `at` on start with `pattern`.
pub fn matches_at(chars: &Vec<char>, at: usize, pattern: &Vec<char>) -> (found: bool)
    requires
        at <= chars.len(),
    ensures
        found == starts_with(chars@.skip(at as int), pattern@),
{
    if pattern.len() > chars.len() - at {
        return false;
    }
    let ghost rest = chars@.skip(at as int);
    let mut i: usize = 0;
    while i < pattern.len()
        invariant
            i <= pattern.len() <= chars.len() - at,
            rest == chars@.skip(at as int),
            rest.take(i as int) == pattern@.take(i as int),
        decreases pattern.len() - i,
    {
        if chars[at + i] != pattern[i] {
            assert(rest.take(pattern.len() as int)[i as int] != pattern@[i as int]);
            return false;
        }
        assert(rest.take(i + 1) == rest.take(i as int).push(rest[i as int]));
        assert(pattern@.take(i + 1) == pattern@.take(i as int).push(pattern@[i as int]));
        i = i + 1;
    }
    assert(pattern@.take(pattern.len() as int) == pattern@);
    true
}

/// Whether `chars` ends with `pattern`.
pub fn has_suffix(chars: &Vec<char>, pattern: &Vec<char>) -> (found: bool)
    ensures
        found == ends_with(chars@, pattern@),
{
    if pattern.len() > chars.len() {
        return false;
    }
    let at = chars.len() - pattern.len();
    let found = matches_at(chars, at, pattern);
    assert(chars@.skip(at as int).take(pattern.len() as int) == chars@.skip(at as int));
    found
}

/// The texts of `words` with `sep` between each two.
pub open spec fn join_words(words: Seq<Seq<char>>, sep: char) -> Seq<char>
    decreases words.len(),
{
    if words.len() == 0 {
        Seq::empty()
    } else if words.len() == 1 {
        words[0]
    } else {
        join_words(words.drop_last(), sep) + seq![sep] + words.last()
    }
}

/// The texts of `words` with `sep` between each two.
pub fn join(words: &Vec<String>, sep: char) -> (out: String)
    ensures
        out@ == join_words(texts(words@), sep),
{
    let mut out = String::new();
    let mut i: usize = 0;
    let ghost all = texts(words@);
    assert(all.take(0) =~= Seq::<Seq<char>>::empty());
    while i < words.len()
        invariant
            i <= words.len(),
            all == texts(words@),
            out@ == join_words(all.take(i as int), sep),
        decreases words.len() - i,
    {
        let ghost before = out@;
        if i > 0 {
            out.push(sep);
        }
        out.append(words[i].as_str());
        proof {
            let next = all.take(i + 1);
            assert(next.drop_last() =~= all.take(i as int));
            assert(next.last() == words@[i as int]@);
            if i == 0 {
                assert(before =~= Seq::<char>::empty());
                assert(next[0] == words@[0]@);
                assert(out@ =~= words@[0]@);
            } else {
                assert(out@ =~= before + seq![sep] + words@[i as int]@);
            }
        }
        i = i + 1;
    }
    assert(all.take(words.len() as int) =~= all);
    out
}

/// A copy of a list of strings.
pub fn copy_strings(list: &Vec<String>) -> (copy: Vec<String>)
    ensures
        texts(copy@) == texts(list@),
{
    let mut copy: Vec<String> = Vec::new();
    let mut i: usize = 0;
    while i < list.len()
        invariant
            i <= list.len(),
            copy@.len() == i,
            forall|k: int| 0 <= k < i ==> copy@[k]@ == list@[k]@,
        decreases list.len() - i,
    {
        copy.push(list[i].clone());
        i = i + 1;
    }
    assert(texts(copy@) =~= texts(list@));
    copy
}

/// The views of a list of character vectors.
pub open spec fn char_views(pieces: Seq<Vec<char>>) -> Seq<Seq<char>> {
    Seq::new(pieces.len(), |i: int| pieces[i]@)
}

/// The pieces of `s` between the occurrences of `sep`: one more piece than
/// there are occurrences.
pub open spec fn split_on(s: Seq<char>, sep: char) -> Seq<Seq<char>>
    decreases s.len(),
{
    if s.len() == 0 {
        seq![Seq::empty()]
    } else {
        let before = split_on(s.drop_last(), sep);
        if s.last() == sep {
            before.push(Seq::empty())
        } else {
            before.drop_last().push(before.last().push(s.last()))
        }
    }
}

/// Computes [`split_on`].
pub fn split(chars: &Vec<char>, sep: char) -> (pieces: Vec<Vec<char>>)
    ensures
        char_views(pieces@) == split_on(chars@, sep),
{
    let mut pieces: Vec<Vec<char>> = Vec::new();
    let mut current: Vec<char> = Vec::new();
    let mut i: usize = 0;
    assert(chars@.take(0) =~= Seq::<char>::empty());
    assert(char_views(pieces@).push(current@) =~= seq![Seq::<char>::empty()]);
    while i < chars.len()
        invariant
            i <= chars.len(),
            split_on(chars@.take(i as int), sep) == char_views(pieces@).push(current@),
        decreases chars.len() - i,
    {
        let ghost done = char_views(pieces@);
        let ghost word = current@;
        let ghost next = chars@.take(i + 1);
        assert(next.drop_last() == chars@.take(i as int));
        assert(next.last() == chars@[i as int]);
        assert(done.push(word).drop_last() =~= done);
        if chars[i] == sep {
            pieces.push(current);
            current = Vec::new();
            assert(char_views(pieces@) =~= done.push(word));
            assert(current@ =~= Seq::<char>::empty());
        } else {
            current.push(chars[i]);
        }
        i = i + 1;
    }
    assert(chars@.take(i as int) == chars@);
    let ghost done = char_views(pieces@);
    pieces.push(current);
    assert(char_views(pieces@) =~= done.push(current@));
    pieces
}

/// Whether `ch` is white space as `char::is_whitespace` sees it: whether it
/// has the Unicode property `White_Space`.
pub uninterp spec fn is_white(ch: char) -> bool;

/// `char::is_whitespace` tells whether a character has the Unicode property
/// `White_Space`; the answer depends on the character alone.
pub assume_specification[ char::is_whitespace ](ch: char) -> (white: bool)
    ensures
        white == is_white(ch),
;

/// How many characters at the start of `s` are white space.
pub open spec fn leading_white(s: Seq<char>) -> nat
    decreases s.len(),
{
    if s.len() > 0 && is_white(s[0]) {
        1 + leading_white(s.skip(1))
    } else {
        0
    }
}

/// How many characters at the end of `s` are white space.
pub open spec fn trailing_white(s: Seq<char>) -> nat
    decreases s.len(),
{
    if s.len() > 0 && is_white(s.last()) {
        1 + trailing_white(s.drop_last())
    } else {
        0
    }
}

/// `s` without the white space at its start and at its end.
pub open spec fn trimmed(s: Seq<char>) -> Seq<char> {
    let rest = s.skip(leading_white(s) as int);
    rest.take(rest.len() - trailing_white(rest))
}

/// `chars` without the white space at its start and at its end.
pub fn trim(chars: &Vec<char>) -> (text: String)
    ensures
        text@ == trimmed(chars@),
{
    let ghost all = chars@;
    let mut start: usize = 0;
    assert(all.skip(0) == all);
    while start < chars.len() && chars[start].is_whitespace()
        invariant
            start <= chars.len(),
            all == chars@,
            leading_white(all) == start + leading_white(all.skip(start as int)),
        decreases chars.len() - start,
    {
        assert(all.skip(start as int)[0] == chars@[start as int]);
        assert(all.skip(start as int).skip(1) == all.skip(start + 1));
        start = start + 1;
    }
    assert(start == leading_white(all)) by {
        if start < chars.len() {
            assert(all.skip(start as int)[0] == chars@[start as int]);
        }
    }
    let ghost rest = all.skip(start as int);
    let mut end: usize = chars.len();
    assert(rest.take(rest.len() as int) == rest);
    while end > start && chars[end - 1].is_whitespace()
        invariant
            start <= end <= chars.len(),
            all == chars@,
            rest == all.skip(start as int),
            trailing_white(rest) == (chars.len() - end) + trailing_white(rest.take(end - start)),
        decreases end,
    {
        assert(rest.take(end - start).last() == chars@[end - 1]);
        assert(rest.take(end - start).drop_last() == rest.take(end - 1 - start));
        end = end - 1;
    }
    assert(chars.len() - end == trailing_white(rest)) by {
        if end > start {
            assert(rest.take(end - start).last() == chars@[end - 1]);
        }
    }
    let text = substring(chars, start, end);
    assert(chars@.subrange(start as int, end as int) =~= rest.take(rest.len() - trailing_white(
        rest,
    )));
    text
}

/// Whether every character of `s` is white space.
pub open spec fn is_blank(s: Seq<char>) -> bool {
    forall|i: int| 0 <= i < s.len() ==> is_white(#[trigger] s[i])
}

/// Whether every character of `text` is white space.
pub fn blank(text: &str) -> (yes: bool)
    ensures
        yes == is_blank(text@),
{
    let chars = chars_of(text);
    let mut i: usize = 0;
    while i < chars.len()
        invariant
            i <= chars.len(),
            chars@ == text@,
            forall|k: int| 0 <= k < i ==> is_white(#[trigger] chars@[k]),
        decreases chars.len() - i,
    {
        if !chars[i].is_whitespace() {
            return false;
        }
        i = i + 1;
    }
    true
}

} // verus!
