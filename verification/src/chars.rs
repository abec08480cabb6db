//! Character-level views of strings: conversion between `String` and a
//! vector of `char`s, and the sequence operations the editors are specified with.
use vstd::prelude::*;

verus! {

broadcast use vstd::string::group_string_axioms;

/// Appends one character to a string (`String::push`).
/// Trusted: the string's characters afterwards are the old ones followed by `c`.
#[verifier::external_body]
pub(crate) fn push_char(s: &mut String, c: char)
    ensures
        final(s)@ == old(s)@.push(c),
{
    s.push(c)
}

/// The characters of `s`, in order.
pub fn to_chars(s: &str) -> (v: Vec<char>)
    ensures
        v@ == s@,
{
    let mut v: Vec<char> = Vec::new();
    for c in it: s.chars()
        invariant
            v@ == it.history(),
    {
        v.push(c);
    }
    proof {
        assert(v@ =~= s@);
    }
    v
}

/// The string made of the characters of `v`, in order.
pub fn from_chars(v: &Vec<char>) -> (s: String)
    ensures
        s@ == v@,
{
    let mut s = String::new();
    let mut i: usize = 0;
    while i < v.len()
        invariant
            i <= v.len(),
            s@ == v@.take(i as int),
        decreases v.len() - i,
    {
        push_char(&mut s, v[i]);
        proof {
            assert(v@.take(i + 1) =~= v@.take(i as int).push(v@[i as int]));
        }
        i = i + 1;
    }
    proof {
        assert(v@.take(v.len() as int) =~= v@);
    }
    s
}

/// The first `n` characters of `s`, or all of `s` when it is shorter.
pub open spec fn take_upto(s: Seq<char>, n: int) -> Seq<char> {
    if n < s.len() { s.take(n) } else { s }
}

/// What follows the first `n` characters of `s` (empty when `s` is shorter).
pub open spec fn skip_from(s: Seq<char>, n: int) -> Seq<char> {
    if n < s.len() { s.skip(n) } else { Seq::empty() }
}

/// The number of line breaks in `s`.
pub open spec fn newlines(s: Seq<char>) -> nat
    decreases s.len(),
{
    if s.len() == 0 {
        0
    } else {
        newlines(s.drop_last()) + if s.last() == '\n' { 1nat } else { 0nat }
    }
}

/// The index of the last line break in `s`, or -1 when there is none.
pub open spec fn last_newline(s: Seq<char>) -> int
    decreases s.len(),
{
    if s.len() == 0 {
        -1
    } else if s.last() == '\n' {
        s.len() - 1
    } else {
        last_newline(s.drop_last())
    }
}

/// Where the line holding position `n` starts: just after the last line break
/// among the first `n` characters.
pub open spec fn line_begin(s: Seq<char>, n: int) -> int {
    last_newline(take_upto(s, n)) + 1
}

/// The index of the first line break at or after `i`, or `s.len()` when there is none.
pub open spec fn next_newline(s: Seq<char>, i: int) -> int
    decreases s.len() - i,
{
    if i >= s.len() {
        s.len() as int
    } else if i >= 0 && s[i] == '\n' {
        i
    } else {
        next_newline(s, i + 1)
    }
}

pub proof fn lemma_last_newline_bounds(s: Seq<char>)
    ensures
        -1 <= last_newline(s) < s.len(),
        last_newline(s) >= 0 ==> s[last_newline(s)] == '\n',
        forall|j: int| last_newline(s) < j < s.len() ==> s[j] != '\n',
    decreases s.len(),
{
    if s.len() > 0 && s.last() != '\n' {
        lemma_last_newline_bounds(s.drop_last());
        assert forall|j: int| last_newline(s) < j < s.len() implies s[j] != '\n' by {
            if j < s.len() - 1 {
                assert(s.drop_last()[j] == s[j]);
            }
        }
    }
}

pub proof fn lemma_next_newline_bounds(s: Seq<char>, i: int)
    requires
        0 <= i,
    ensures
        i <= next_newline(s, i) <= s.len() || (i > s.len() && next_newline(s, i) == s.len()),
        next_newline(s, i) < s.len() ==> s[next_newline(s, i)] == '\n',
        forall|j: int| i <= j < next_newline(s, i) ==> s[j] != '\n',
    decreases s.len() - i,
{
    if i < s.len() && s[i] != '\n' {
        lemma_next_newline_bounds(s, i + 1);
    }
}

/// Counts the line breaks among the first `n` characters of `v`.
pub fn count_newlines(v: &Vec<char>, n: usize) -> (r: usize)
    ensures
        r == newlines(take_upto(v@, n as int)),
        r <= take_upto(v@, n as int).len(),
{
    let end = if n < v.len() { n } else { v.len() };
    let mut i: usize = 0;
    let mut r: usize = 0;
    while i < end
        invariant
            end <= v.len(),
            end == take_upto(v@, n as int).len(),
            i <= end,
            r == newlines(v@.take(i as int)),
            r <= i,
        decreases end - i,
    {
        proof {
            assert(v@.take(i + 1).drop_last() =~= v@.take(i as int));
        }
        if v[i] == '\n' {
            r = r + 1;
        }
        i = i + 1;
    }
    proof {
        assert(v@.take(end as int) =~= take_upto(v@, n as int));
    }
    r
}

/// The start of the line holding position `n` of `v`.
pub fn line_start(v: &Vec<char>, n: usize) -> (r: usize)
    ensures
        r == line_begin(v@, n as int),
        r <= take_upto(v@, n as int).len(),
{
    let end = if n < v.len() { n } else { v.len() };
    let mut i: usize = 0;
    let mut r: usize = 0;
    while i < end
        invariant
            end <= v.len(),
            end == take_upto(v@, n as int).len(),
            i <= end,
            r == last_newline(v@.take(i as int)) + 1,
            r <= i,
        decreases end - i,
    {
        proof {
            assert(v@.take(i + 1).drop_last() =~= v@.take(i as int));
        }
        if v[i] == '\n' {
            r = i + 1;
        }
        i = i + 1;
    }
    proof {
        assert(v@.take(end as int) =~= take_upto(v@, n as int));
    }
    r
}

/// The first line break of `v` at or after `i`, or its length when there is none.
pub fn find_newline(v: &Vec<char>, i: usize) -> (r: usize)
    ensures
        r == next_newline(v@, i as int),
{
    if i >= v.len() {
        return v.len();
    }
    let mut j: usize = i;
    while j < v.len() && v[j] != '\n'
        invariant
            i <= j <= v.len(),
            next_newline(v@, i as int) == next_newline(v@, j as int),
        decreases v.len() - j,
    {
        j = j + 1;
    }
    j
}

/// `v` with the characters from `start` up to `end` removed (positions past
/// the end of `v` count as its end).
pub fn cut(v: &Vec<char>, start: usize, end: usize) -> (r: Vec<char>)
    ensures
        r@ == take_upto(v@, start as int) + skip_from(v@, end as int),
{
    let mut r: Vec<char> = Vec::new();
    let a = if start < v.len() { start } else { v.len() };
    let mut i: usize = 0;
    while i < a
        invariant
            a <= v.len(),
            i <= a,
            r@ == v@.take(i as int),
        decreases a - i,
    {
        r.push(v[i]);
        proof {
            assert(v@.take(i + 1) =~= v@.take(i as int).push(v@[i as int]));
        }
        i = i + 1;
    }
    let ghost front = r@;
    if end < v.len() {
        let mut j: usize = end;
        while j < v.len()
            invariant
                end <= j <= v.len(),
                front == v@.take(a as int),
                r@ == front + v@.subrange(end as int, j as int),
            decreases v.len() - j,
        {
            r.push(v[j]);
            proof {
                assert(v@.subrange(end as int, j + 1) =~= v@.subrange(end as int, j as int).push(v@[j as int]));
            }
            j = j + 1;
        }
        proof {
            assert(v@.subrange(end as int, v.len() as int) =~= skip_from(v@, end as int));
        }
    } else {
        proof {
            assert(r@ =~= front + skip_from(v@, end as int));
        }
    }
    proof {
        assert(v@.take(a as int) =~= take_upto(v@, start as int));
    }
    r
}

/// `v` with `c` inserted at position `i` (appended when `i` is past the end).
pub fn insert_at(v: &Vec<char>, i: usize, c: char) -> (r: Vec<char>)
    ensures
        r@ == take_upto(v@, i as int) + seq![c] + skip_from(v@, i as int),
{
    let mut r: Vec<char> = Vec::new();
    let a = if i < v.len() { i } else { v.len() };
    let mut k: usize = 0;
    while k < a
        invariant
            a <= v.len(),
            k <= a,
            r@ == v@.take(k as int),
        decreases a - k,
    {
        r.push(v[k]);
        proof {
            assert(v@.take(k + 1) =~= v@.take(k as int).push(v@[k as int]));
        }
        k = k + 1;
    }
    r.push(c);
    let ghost front = r@;
    let mut j: usize = a;
    while j < v.len()
        invariant
            a <= j <= v.len(),
            front == v@.take(a as int).push(c),
            r@ == front + v@.subrange(a as int, j as int),
        decreases v.len() - j,
    {
        r.push(v[j]);
        proof {
            assert(v@.subrange(a as int, j + 1) =~= v@.subrange(a as int, j as int).push(v@[j as int]));
        }
        j = j + 1;
    }
    proof {
        assert(v@.take(a as int) =~= take_upto(v@, i as int));
        assert(v@.subrange(a as int, v.len() as int) =~= skip_from(v@, i as int));
        assert(r@ =~= take_upto(v@, i as int) + seq![c] + skip_from(v@, i as int));
    }
    r
}

/// The index of the last occurrence of `c` in `s`, or -1 when there is none.
pub open spec fn last_index_of(s: Seq<char>, c: char) -> int
    decreases s.len(),
{
    if s.len() == 0 {
        -1
    } else if s.last() == c {
        s.len() - 1
    } else {
        last_index_of(s.drop_last(), c)
    }
}

pub proof fn lemma_last_index_of_bounds(s: Seq<char>, c: char)
    ensures
        -1 <= last_index_of(s, c) < s.len(),
        last_index_of(s, c) >= 0 ==> s[last_index_of(s, c)] == c,
    decreases s.len(),
{
    if s.len() > 0 && s.last() != c {
        lemma_last_index_of_bounds(s.drop_last(), c);
    }
}

/// The last occurrence of `c` among the first `n` characters of `v`.
pub fn find_last(v: &Vec<char>, c: char, n: usize) -> (r: Option<usize>)
    ensures
        match r {
            Some(i) => i == last_index_of(take_upto(v@, n as int), c) && i < v@.len(),
            None => last_index_of(take_upto(v@, n as int), c) == -1,
        },
{
    let end = if n < v.len() { n } else { v.len() };
    let mut i: usize = 0;
    let mut r: Option<usize> = None;
    while i < end
        invariant
            end <= v.len(),
            i <= end,
            match r {
                Some(k) => k == last_index_of(v@.take(i as int), c) && k < i,
                None => last_index_of(v@.take(i as int), c) == -1,
            },
        decreases end - i,
    {
        proof {
            assert(v@.take(i + 1).drop_last() =~= v@.take(i as int));
        }
        if v[i] == c {
            r = Some(i);
        }
        i = i + 1;
    }
    proof {
        assert(v@.take(end as int) =~= take_upto(v@, n as int));
    }
    r
}

/// The characters of `v` from position `i` on, as a string.
pub fn suffix_string(v: &Vec<char>, i: usize) -> (s: String)
    requires
        i <= v@.len(),
    ensures
        s@ == v@.skip(i as int),
{
    let mut s = String::new();
    let mut j: usize = i;
    while j < v.len()
        invariant
            i <= j <= v.len(),
            s@ == v@.subrange(i as int, j as int),
        decreases v.len() - j,
    {
        push_char(&mut s, v[j]);
        proof {
            assert(v@.subrange(i as int, j + 1) =~= v@.subrange(i as int, j as int).push(v@[j as int]));
        }
        j = j + 1;
    }
    proof {
        assert(v@.subrange(i as int, v.len() as int) =~= v@.skip(i as int));
    }
    s
}

/// Appends `t` to `s` (`String::push_str`).
/// Trusted: the string's characters afterwards are the old ones followed by those of `t`.
#[verifier::external_body]
pub(crate) fn push_str(s: &mut String, t: &str)
    ensures
        final(s)@ == old(s)@ + t@,
{
    s.push_str(t)
}

/// Whether two strings hold the same characters.
pub fn same_text(a: &str, b: &str) -> (r: bool)
    ensures
        r == (a@ == b@),
{
    let x = to_chars(a);
    let y = to_chars(b);
    if x.len() != y.len() {
        return false;
    }
    let mut i: usize = 0;
    while i < x.len()
        invariant
            x@ == a@,
            y@ == b@,
            x@.len() == y@.len(),
            i <= x@.len(),
            forall|j: int| 0 <= j < i ==> x@[j] == y@[j],
        decreases x.len() - i,
    {
        if x[i] != y[i] {
            proof {
                assert(x@[i as int] != y@[i as int]);
            }
            return false;
        }
        i = i + 1;
    }
    proof {
        assert(x@ =~= y@);
    }
    true
}

/// Whether `needle` occurs in `hay` as a contiguous stretch.
pub open spec fn contains_text(hay: Seq<char>, needle: Seq<char>) -> bool {
    exists|i: int| 0 <= i <= hay.len() - needle.len() && #[trigger] hay.subrange(i, i + needle.len()) == needle
}

/// Whether `needle` occurs in `hay` as a contiguous stretch.
pub fn contains_chars(hay: &Vec<char>, needle: &Vec<char>) -> (r: bool)
    ensures
        r == contains_text(hay@, needle@),
{
    if needle.len() > hay.len() {
        return false;
    }
    if needle.len() == 0 {
        proof {
            assert(hay@.subrange(0int, 0int + needle@.len()) =~= needle@);
        }
        return true;
    }
    let last = hay.len() - needle.len();
    let mut i: usize = 0;
    while i <= last
        invariant
            last == hay@.len() - needle@.len(),
            last < hay.len(),
            needle@.len() > 0,
            i <= last + 1,
            forall|k: int| 0 <= k < i ==> #[trigger] hay@.subrange(k, k + needle@.len()) != needle@,
        decreases last + 1 - i,
    {
        let mut j: usize = 0;
        assert(i + needle@.len() <= hay@.len());
        while j < needle.len() && hay[i + j] == needle[j]
            invariant
                i <= last,
                last == hay@.len() - needle@.len(),
                i + needle.len() <= hay.len(),
                needle@.len() > 0,
                j <= needle@.len(),
                forall|t: int| 0 <= t < j ==> hay@[i + t] == needle@[t],
            decreases needle.len() - j,
        {
            j = j + 1;
        }
        if j == needle.len() {
            proof {
                assert(hay@.subrange(i as int, i + needle@.len()) =~= needle@);
            }
            return true;
        }
        proof {
            assert(hay@.subrange(i as int, i + needle@.len())[j as int] != needle@[j as int]);
        }
        i = i + 1;
    }
    proof {
        assert forall|k: int| 0 <= k <= hay@.len() - needle@.len() implies #[trigger] hay@.subrange(k, k + needle@.len()) != needle@ by {
        }
    }
    false
}

/// The Unicode lowercase of a string, as `str::to_lowercase` computes it.
pub uninterp spec fn str_lowercase(s: Seq<char>) -> Seq<char>;

/// The Unicode uppercase of a string, as `str::to_uppercase` computes it.
pub uninterp spec fn str_uppercase(s: Seq<char>) -> Seq<char>;

/// Lowercases a string (`str::to_lowercase`).
/// Trusted: the result depends on the characters of `s` alone; it is named, not stated.
#[verifier::external_body]
pub(crate) fn to_lowercase(s: &str) -> (r: String)
    ensures
        r@ == str_lowercase(s@),
{
    s.to_lowercase()
}

/// Uppercases a string (`str::to_uppercase`).
/// Trusted: the result depends on the characters of `s` alone; it is named, not stated.
#[verifier::external_body]
pub(crate) fn to_uppercase(s: &str) -> (r: String)
    ensures
        r@ == str_uppercase(s@),
{
    s.to_uppercase()
}

} // verus!
