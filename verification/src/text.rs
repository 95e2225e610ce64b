//! Character-level text handling: conversion between strings and character
//! vectors, trimming, splitting, searching and decimal numbers.
//!
//! Every function is specified over `Seq<char>`, the view of a string.

use vstd::prelude::*;

verus! {

/// `String::push`: appends one character to the end of the string.
#[verifier::external_body]
fn push_char(s: &mut String, c: char)
    ensures
        final(s)@ == old(s)@.push(c),
{
    s.push(c)
}

/// The characters of `s`, in order.
pub fn chars_of(s: &str) -> (v: Vec<char>)
    ensures
        v@ == s@,
{
    let mut v: Vec<char> = Vec::new();
    for c in it: s.chars()
        invariant
            it.seq() == s@,
            v@ == s@.take(it.index() as int),
    {
        v.push(c);
        proof {
            assert(v@ =~= s@.take(it.index() + 1));
        }
    }
    proof {
        assert(s@.take(s@.len() as int) =~= s@);
    }
    v
}

/// The string made of the characters of `v`, in order.
pub fn string_of(v: &Vec<char>) -> (s: String)
    ensures
        s@ == v@,
{
    let mut s = String::new();
    let mut i: usize = 0;
    while i < v.len()
        invariant
            i <= v.len(),
            s@ == v@.take(i as int),
        decreases v.len() - i,
    {
        push_char(&mut s, v[i]);
        i += 1;
        proof {
            assert(s@ =~= v@.take(i as int));
        }
    }
    proof {
        assert(v@.take(v.len() as int) =~= v@);
    }
    s
}

/// The views of a sequence of character vectors.
pub open spec fn views(v: Seq<Vec<char>>) -> Seq<Seq<char>> {
    Seq::new(v.len(), |i: int| v[i]@)
}

/// Whether `c` has the Unicode property `White_Space`.
pub open spec fn is_space(c: char) -> bool {
    let u = c as u32;
    (0x09 <= u <= 0x0d) || u == 0x20 || u == 0x85 || u == 0xa0 || u == 0x1680 || (0x2000 <= u
        <= 0x200a) || u == 0x2028 || u == 0x2029 || u == 0x202f || u == 0x205f || u == 0x3000
}

/// Decides [`is_space`].
pub fn is_space_char(c: char) -> (b: bool)
    ensures
        b == is_space(c),
{
    let u: u32 = c as u32;
    (0x09 <= u && u <= 0x0d) || u == 0x20 || u == 0x85 || u == 0xa0 || u == 0x1680 || (0x2000 <= u
        && u <= 0x200a) || u == 0x2028 || u == 0x2029 || u == 0x202f || u == 0x205f || u == 0x3000
}

/// The number of white-space characters at the start of `s`.
pub open spec fn leading_spaces(s: Seq<char>) -> nat
    decreases s.len(),
{
    if s.len() > 0 && is_space(s[0]) {
        1 + leading_spaces(s.drop_first())
    } else {
        0
    }
}

/// The number of white-space characters at the end of `s`.
pub open spec fn trailing_spaces(s: Seq<char>) -> nat
    decreases s.len(),
{
    if s.len() > 0 && is_space(s.last()) {
        1 + trailing_spaces(s.drop_last())
    } else {
        0
    }
}

/// `s` without the white space at its start and at its end.
pub open spec fn trimmed(s: Seq<char>) -> Seq<char> {
    let rest = s.skip(leading_spaces(s) as int);
    rest.take(rest.len() - trailing_spaces(rest))
}

/// The leading white space of `s` is a run of `leading_spaces(s)` characters
/// that ends at the first other character, if there is one.
pub proof fn lemma_leading_spaces(s: Seq<char>)
    ensures
        leading_spaces(s) <= s.len(),
        forall|i: int| 0 <= i < leading_spaces(s) ==> is_space(#[trigger] s[i]),
        leading_spaces(s) < s.len() ==> !is_space(s[leading_spaces(s) as int]),
    decreases s.len(),
{
    if s.len() > 0 && is_space(s[0]) {
        let t = s.drop_first();
        lemma_leading_spaces(t);
        assert forall|i: int| 0 <= i < leading_spaces(s) implies is_space(#[trigger] s[i]) by {
            if i > 0 {
                assert(s[i] == t[i - 1]);
            }
        }
        if leading_spaces(s) < s.len() {
            assert(s[leading_spaces(s) as int] == t[leading_spaces(t) as int]);
        }
    }
}

/// The trailing white space of `s` is a run of `trailing_spaces(s)` characters
/// that starts after the last other character, if there is one.
pub proof fn lemma_trailing_spaces(s: Seq<char>)
    ensures
        trailing_spaces(s) <= s.len(),
        forall|i: int| s.len() - trailing_spaces(s) <= i < s.len() ==> is_space(#[trigger] s[i]),
        trailing_spaces(s) < s.len() ==> !is_space(s[s.len() - trailing_spaces(s) - 1]),
    decreases s.len(),
{
    if s.len() > 0 && is_space(s.last()) {
        let t = s.drop_last();
        lemma_trailing_spaces(t);
        assert forall|i: int| s.len() - trailing_spaces(s) <= i < s.len() implies is_space(
            #[trigger] s[i],
        ) by {
            if i < s.len() - 1 {
                assert(s[i] == t[i]);
            }
        }
        if trailing_spaces(s) < s.len() {
            assert(s[s.len() - trailing_spaces(s) - 1] == t[t.len() - trailing_spaces(t) - 1]);
        }
    }
}

/// A run of white space at the start of `s` that ends at another character,
/// or at the end of `s`, is the whole leading white space.
pub proof fn lemma_leading_spaces_is(s: Seq<char>, k: int)
    requires
        0 <= k <= s.len(),
        forall|i: int| 0 <= i < k ==> is_space(#[trigger] s[i]),
        k < s.len() ==> !is_space(s[k]),
    ensures
        leading_spaces(s) == k,
    decreases s.len(),
{
    if k > 0 {
        let t = s.drop_first();
        assert(is_space(s[0]));
        assert forall|i: int| 0 <= i < k - 1 implies is_space(#[trigger] t[i]) by {
            assert(t[i] == s[i + 1]);
        }
        lemma_leading_spaces_is(t, k - 1);
    }
}

/// A run of white space at the end of `s` that starts after another
/// character, or at the start of `s`, is the whole trailing white space.
pub proof fn lemma_trailing_spaces_is(s: Seq<char>, k: int)
    requires
        0 <= k <= s.len(),
        forall|i: int| s.len() - k <= i < s.len() ==> is_space(#[trigger] s[i]),
        k < s.len() ==> !is_space(s[s.len() - k - 1]),
    ensures
        trailing_spaces(s) == k,
    decreases s.len(),
{
    if k > 0 {
        let t = s.drop_last();
        assert(is_space(s[s.len() - 1]));
        assert forall|i: int| t.len() - (k - 1) <= i < t.len() implies is_space(#[trigger] t[i]) by {
            assert(t[i] == s[i]);
        }
        lemma_trailing_spaces_is(t, k - 1);
    }
}

/// Removes the white space at both ends of `s`.
pub fn trim_chars(s: &Vec<char>) -> (r: Vec<char>)
    ensures
        r@ == trimmed(s@),
{
    let n = s.len();
    let mut a: usize = 0;
    while a < n && is_space_char(s[a])
        invariant
            a <= n,
            n == s.len(),
            forall|i: int| 0 <= i < a ==> is_space(#[trigger] s@[i]),
        decreases n - a,
    {
        a += 1;
    }
    let mut b: usize = n;
    while b > a && is_space_char(s[b - 1])
        invariant
            a <= b <= n,
            n == s.len(),
            forall|i: int| b <= i < n ==> is_space(#[trigger] s@[i]),
        decreases b,
    {
        b -= 1;
    }
    let mut r: Vec<char> = Vec::new();
    let mut i: usize = a;
    while i < b
        invariant
            a <= i <= b <= n,
            n == s.len(),
            r@ == s@.subrange(a as int, i as int),
        decreases b - i,
    {
        r.push(s[i]);
        i += 1;
        proof {
            assert(r@ =~= s@.subrange(a as int, i as int));
        }
    }
    proof {
        lemma_leading_spaces_is(s@, a as int);
        let rest = s@.skip(a as int);
        assert forall|i: int| rest.len() - (n - b) <= i < rest.len() implies is_space(
            #[trigger] rest[i],
        ) by {
            assert(rest[i] == s@[i + a]);
        }
        if n - b < rest.len() {
            assert(rest[rest.len() - (n - b) - 1] == s@[b - 1]);
        }
        lemma_trailing_spaces_is(rest, (n - b) as int);
        assert(r@ =~= trimmed(s@));
    }
    r
}

/// The pieces of `s` between occurrences of `sep`: one more than there are
/// occurrences, empty pieces included.
pub open spec fn split_on(s: Seq<char>, sep: char) -> Seq<Seq<char>>
    decreases s.len(),
{
    if s.len() == 0 {
        seq![Seq::<char>::empty()]
    } else {
        let head = split_on(s.drop_last(), sep);
        if s.last() == sep {
            head.push(Seq::<char>::empty())
        } else {
            head.drop_last().push(head.last().push(s.last()))
        }
    }
}

/// A split has at least one piece.
pub proof fn lemma_split_on_len(s: Seq<char>, sep: char)
    ensures
        split_on(s, sep).len() >= 1,
    decreases s.len(),
{
    if s.len() > 0 {
        lemma_split_on_len(s.drop_last(), sep);
    }
}

/// Splits `s` at every occurrence of `sep`.
pub fn split_chars(s: &Vec<char>, sep: char) -> (parts: Vec<Vec<char>>)
    ensures
        views(parts@) == split_on(s@, sep),
        parts@.len() >= 1,
{
    let mut parts: Vec<Vec<char>> = Vec::new();
    let mut cur: Vec<char> = Vec::new();
    let mut i: usize = 0;
    proof {
        assert(s@.take(0) =~= Seq::<char>::empty());
        assert(views(parts@).push(cur@) =~= split_on(s@.take(0), sep));
    }
    while i < s.len()
        invariant
            i <= s.len(),
            views(parts@).push(cur@) == split_on(s@.take(i as int), sep),
        decreases s.len() - i,
    {
        let c = s[i];
        proof {
            let next = s@.take(i + 1);
            assert(next.drop_last() =~= s@.take(i as int));
            assert(next.last() == c);
            let head = split_on(s@.take(i as int), sep);
            assert(head.last() == cur@);
            assert(head.drop_last() =~= views(parts@));
        }
        let ghost before = parts@;
        let ghost cur_before = cur@;
        if c == sep {
            parts.push(cur);
            cur = Vec::new();
            proof {
                assert(views(parts@) =~= views(before).push(cur_before));
            }
        } else {
            cur.push(c);
        }
        i += 1;
    }
    proof {
        assert(s@.take(s.len() as int) =~= s@);
    }
    let ghost before = parts@;
    parts.push(cur);
    proof {
        assert(views(parts@) =~= views(before).push(cur@));
    }
    parts
}

/// `s` without a carriage return at its end.
pub open spec fn strip_cr(s: Seq<char>) -> Seq<char> {
    if s.len() > 0 && s.last() == '\r' {
        s.drop_last()
    } else {
        s
    }
}

/// The lines of `s`. A line ends at a line feed; the line feed, and a
/// carriage return just before it, do not belong to the line. Text after the
/// last line feed is a line of its own unless it is empty.
pub open spec fn lines_of(s: Seq<char>) -> Seq<Seq<char>> {
    let parts = split_on(s, '\n');
    let ended = Seq::new((parts.len() - 1) as nat, |i: int| strip_cr(parts[i]));
    if parts.last().len() == 0 {
        ended
    } else {
        ended.push(parts.last())
    }
}

/// Breaks `s` into its lines.
pub fn split_lines(s: &Vec<char>) -> (lines: Vec<Vec<char>>)
    ensures
        views(lines@) == lines_of(s@),
{
    let mut parts = split_chars(s, '\n');
    let ghost all = views(parts@);
    let last = parts.pop().unwrap();
    let mut lines: Vec<Vec<char>> = Vec::new();
    let mut i: usize = 0;
    proof {
        assert(views(parts@) =~= all.drop_last());
        assert(last@ == all.last());
    }
    while i < parts.len()
        invariant
            i <= parts.len(),
            parts@.len() == all.len() - 1,
            views(parts@) == all.drop_last(),
            views(lines@) == Seq::new(i as nat, |k: int| strip_cr(all[k])),
        decreases parts.len() - i,
    {
        let ghost before = lines@;
        let mut line = parts[i].clone();
        proof {
            assert(views(parts@)[i as int] == parts@[i as int]@);
            assert(line@ == all[i as int]);
        }
        let m = line.len();
        if m > 0 && line[m - 1] == '\r' {
            line.pop();
        }
        proof {
            assert(line@ =~= strip_cr(all[i as int]));
        }
        lines.push(line);
        i += 1;
        proof {
            assert(views(lines@) =~= views(before).push(strip_cr(all[i - 1])));
            assert(views(lines@) =~= Seq::new(i as nat, |k: int| strip_cr(all[k])));
        }
    }
    if last.len() > 0 {
        let ghost before = lines@;
        lines.push(last);
        proof {
            assert(views(lines@) =~= views(before).push(last@));
        }
    }
    lines
}

/// The pieces of `parts` in one sequence, with `sep` between neighbours.
pub open spec fn join_with(parts: Seq<Seq<char>>, sep: Seq<char>) -> Seq<char>
    decreases parts.len(),
{
    if parts.len() == 0 {
        Seq::<char>::empty()
    } else if parts.len() == 1 {
        parts[0]
    } else {
        join_with(parts.drop_last(), sep) + sep + parts.last()
    }
}

/// Appends the characters of `tail` to `out`.
pub fn extend_chars(out: &mut Vec<char>, tail: &Vec<char>)
    ensures
        final(out)@ == old(out)@ + tail@,
{
    let mut i: usize = 0;
    while i < tail.len()
        invariant
            i <= tail.len(),
            out@ == old(out)@ + tail@.take(i as int),
        decreases tail.len() - i,
    {
        out.push(tail[i]);
        i += 1;
        proof {
            assert(out@ =~= old(out)@ + tail@.take(i as int));
        }
    }
    proof {
        assert(tail@.take(tail.len() as int) =~= tail@);
    }
}

/// Appends the characters of the string `tail` to `out`.
pub fn extend_str(out: &mut Vec<char>, tail: &str)
    ensures
        final(out)@ == old(out)@ + tail@,
{
    let t = chars_of(tail);
    extend_chars(out, &t);
}

/// Joins `parts`, putting `sep` between neighbours.
pub fn join_chars(parts: &Vec<Vec<char>>, sep: &Vec<char>) -> (r: Vec<char>)
    ensures
        r@ == join_with(views(parts@), sep@),
{
    let mut r: Vec<char> = Vec::new();
    let mut i: usize = 0;
    let ghost all = views(parts@);
    proof {
        assert(all.take(0) =~= Seq::<Seq<char>>::empty());
    }
    while i < parts.len()
        invariant
            i <= parts.len(),
            all == views(parts@),
            r@ == join_with(all.take(i as int), sep@),
        decreases parts.len() - i,
    {
        proof {
            let next = all.take(i + 1);
            assert(next.drop_last() =~= all.take(i as int));
            assert(next.last() == parts@[i as int]@);
            if i == 0 {
                assert(next[0] == parts@[0]@);
            }
        }
        if i > 0 {
            extend_chars(&mut r, sep);
        }
        extend_chars(&mut r, &parts[i]);
        i += 1;
        proof {
            assert(r@ =~= join_with(all.take(i as int), sep@));
        }
    }
    proof {
        assert(all.take(parts.len() as int) =~= all);
    }
    r
}

/// Whether `needle` occurs in `hay` at position `at`.
pub open spec fn occurs_at(hay: Seq<char>, needle: Seq<char>, at: int) -> bool {
    0 <= at && at + needle.len() <= hay.len() && hay.subrange(at, at + needle.len()) == needle
}

/// Whether `needle` occurs somewhere in `hay`.
pub open spec fn has_infix(hay: Seq<char>, needle: Seq<char>) -> bool {
    exists|at: int| occurs_at(hay, needle, at)
}

/// Decides [`occurs_at`].
pub fn matches_at(hay: &Vec<char>, needle: &Vec<char>, at: usize) -> (b: bool)
    ensures
        b == occurs_at(hay@, needle@, at as int),
{
    if needle.len() > hay.len() || at > hay.len() - needle.len() {
        return false;
    }
    let mut k: usize = 0;
    while k < needle.len()
        invariant
            k <= needle.len(),
            at + needle.len() <= hay.len(),
            forall|j: int| 0 <= j < k ==> hay@[at + j] == needle@[j],
        decreases needle.len() - k,
    {
        if hay[at + k] != needle[k] {
            proof {
                let sub = hay@.subrange(at as int, at + needle.len());
                assert(sub[k as int] == hay@[at + k]);
            }
            return false;
        }
        k += 1;
    }
    proof {
        assert(hay@.subrange(at as int, at + needle.len()) =~= needle@);
    }
    true
}

/// Decides [`has_infix`].
pub fn contains_chars(hay: &Vec<char>, needle: &Vec<char>) -> (b: bool)
    ensures
        b == has_infix(hay@, needle@),
{
    if needle.len() > hay.len() {
        return false;
    }
    let limit = hay.len() - needle.len();
    let mut at: usize = 0;
    while at < limit
        invariant
            at <= limit,
            limit == hay.len() - needle.len(),
            forall|j: int| 0 <= j < at ==> !occurs_at(hay@, needle@, j),
        decreases limit - at,
    {
        if matches_at(hay, needle, at) {
            return true;
        }
        at += 1;
    }
    matches_at(hay, needle, limit)
}

/// Whether `s` begins with `prefix`.
pub open spec fn has_prefix(s: Seq<char>, prefix: Seq<char>) -> bool {
    occurs_at(s, prefix, 0)
}

/// Decides [`has_prefix`].
pub fn starts_with_chars(s: &Vec<char>, prefix: &Vec<char>) -> (b: bool)
    ensures
        b == has_prefix(s@, prefix@),
{
    matches_at(s, prefix, 0)
}

/// Decides whether two strings hold the same text.
pub fn same_text(a: &str, b: &str) -> (r: bool)
    ensures
        r == (a@ == b@),
{
    let x = a.to_owned();
    let y = b.to_owned();
    x == y
}

/// Decides whether two character vectors hold the same text.
pub fn same_chars(a: &Vec<char>, b: &Vec<char>) -> (r: bool)
    ensures
        r == (a@ == b@),
{
    if a.len() != b.len() {
        return false;
    }
    let r = matches_at(a, b, 0);
    proof {
        assert(a@.subrange(0, a@.len() as int) =~= a@);
    }
    r
}

/// Whether `c` does not occur in `s`.
pub open spec fn lacks(s: Seq<char>, c: char) -> bool {
    forall|i: int| 0 <= i < s.len() ==> s[i] != c
}

/// Whether `s` has no white space at either end.
pub open spec fn is_tight(s: Seq<char>) -> bool {
    s.len() == 0 || (!is_space(s[0]) && !is_space(s.last()))
}

/// A separator at the end of a text begins a new, empty piece.
pub proof fn lemma_split_on_push_sep(s: Seq<char>, sep: char)
    ensures
        split_on(s.push(sep), sep) == split_on(s, sep).push(Seq::<char>::empty()),
{
    assert(s.push(sep).drop_last() =~= s);
}

/// Text without a separator, added to the end of a text, lengthens its
/// last piece.
pub proof fn lemma_split_on_append_plain(a: Seq<char>, b: Seq<char>, sep: char)
    requires
        lacks(b, sep),
    ensures
        split_on(a + b, sep) == split_on(a, sep).drop_last().push(split_on(a, sep).last() + b),
    decreases b.len(),
{
    lemma_split_on_len(a, sep);
    let parts = split_on(a, sep);
    if b.len() == 0 {
        assert(a + b =~= a);
        assert(parts.last() + b =~= parts.last());
        assert(parts.drop_last().push(parts.last()) =~= parts);
    } else {
        let head = b.drop_last();
        assert(lacks(head, sep)) by {
            assert forall|i: int| 0 <= i < head.len() implies head[i] != sep by {
                assert(head[i] == b[i]);
            }
        }
        lemma_split_on_append_plain(a, head, sep);
        assert((a + b).drop_last() =~= a + head);
        assert((a + b).last() == b.last());
        assert(b.last() == b[b.len() - 1]);
        let before = split_on(a + head, sep);
        assert(before.last() == parts.last() + head);
        assert(before.drop_last() =~= parts.drop_last());
        assert((parts.last() + head).push(b.last()) =~= parts.last() + b);
    }
}

/// The pieces of a split hold no separator, nor any other character that
/// the text does not hold.
pub proof fn lemma_split_on_pieces(s: Seq<char>, sep: char)
    ensures
        forall|i: int|
            0 <= i < split_on(s, sep).len() ==> lacks(#[trigger] split_on(s, sep)[i], sep),
        forall|i: int, c: char|
            0 <= i < split_on(s, sep).len() && lacks(s, c) ==> #[trigger] lacks(
                split_on(s, sep)[i],
                c,
            ),
    decreases s.len(),
{
    lemma_split_on_len(s, sep);
    if s.len() > 0 {
        let head = split_on(s.drop_last(), sep);
        lemma_split_on_pieces(s.drop_last(), sep);
        lemma_split_on_len(s.drop_last(), sep);
        assert forall|i: int, c: char|
            0 <= i < split_on(s, sep).len() && (c == sep || lacks(s, c)) implies #[trigger] lacks(
            split_on(s, sep)[i],
            c,
        ) by {
            if c != sep {
                assert(lacks(s.drop_last(), c)) by {
                    assert forall|j: int| 0 <= j < s.drop_last().len() implies s.drop_last()[j]
                        != c by {
                        assert(s.drop_last()[j] == s[j]);
                    }
                }
                assert(s[s.len() - 1] != c);
            }
            if s.last() == sep {
                if i < head.len() {
                    assert(split_on(s, sep)[i] == head[i]);
                }
            } else {
                if i < head.len() - 1 {
                    assert(split_on(s, sep)[i] == head[i]);
                } else {
                    assert(lacks(head[head.len() - 1], c));
                    let piece = head.last().push(s.last());
                    assert(split_on(s, sep)[i] == piece);
                    assert forall|j: int| 0 <= j < piece.len() implies piece[j] != c by {
                        if j < head.last().len() {
                            assert(piece[j] == head.last()[j]);
                        }
                    }
                }
            }
        }
    }
}

/// Splitting undoes joining: the pieces of texts without a separator,
/// joined by the separator, are those texts.
pub proof fn lemma_split_join(parts: Seq<Seq<char>>, sep: char)
    requires
        parts.len() >= 1,
        forall|i: int| 0 <= i < parts.len() ==> lacks(#[trigger] parts[i], sep),
    ensures
        split_on(join_with(parts, seq![sep]), sep) == parts,
    decreases parts.len(),
{
    let none = Seq::<char>::empty();
    assert(split_on(none, sep) =~= seq![none]);
    if parts.len() == 1 {
        lemma_split_on_append_plain(none, parts[0], sep);
        assert(none + parts[0] =~= parts[0]);
        assert(seq![none].drop_last().push(parts[0]) =~= parts);
    } else {
        let head = parts.drop_last();
        assert forall|i: int| 0 <= i < head.len() implies lacks(#[trigger] head[i], sep) by {
            assert(head[i] == parts[i]);
        }
        lemma_split_join(head, sep);
        let joined = join_with(head, seq![sep]);
        lemma_split_on_push_sep(joined, sep);
        assert(joined + seq![sep] =~= joined.push(sep));
        lemma_split_on_append_plain(joined.push(sep), parts.last(), sep);
        assert(none + parts.last() =~= parts.last());
        assert(head.push(none).drop_last().push(parts.last()) =~= parts);
    }
}

/// What is trimmed is tight, and is a stretch of the text.
pub proof fn lemma_trimmed_is_tight(s: Seq<char>)
    ensures
        is_tight(trimmed(s)),
        forall|c: char| lacks(s, c) ==> lacks(trimmed(s), c),
{
    lemma_leading_spaces(s);
    let a = leading_spaces(s) as int;
    let rest = s.skip(a);
    lemma_trailing_spaces(rest);
    let t = trimmed(s);
    if t.len() > 0 {
        assert(t[0] == rest[0]);
        assert(rest[0] == s[a]);
        assert(trailing_spaces(rest) < rest.len());
        assert(t.last() == rest[rest.len() - trailing_spaces(rest) - 1]);
    }
    assert forall|c: char| lacks(s, c) implies lacks(trimmed(s), c) by {
        assert forall|i: int| 0 <= i < t.len() implies t[i] != c by {
            assert(t[i] == s[i + a]);
        }
    }
}

/// Trimming takes the white space off a tight text that has white space
/// put around it.
pub proof fn lemma_trim_padded(before: Seq<char>, s: Seq<char>, after: Seq<char>)
    requires
        is_tight(s),
        forall|i: int| 0 <= i < before.len() ==> is_space(#[trigger] before[i]),
        forall|i: int| 0 <= i < after.len() ==> is_space(#[trigger] after[i]),
    ensures
        trimmed(before + s + after) == s,
{
    let whole = before + s + after;
    if s.len() == 0 {
        assert forall|i: int| 0 <= i < whole.len() implies is_space(#[trigger] whole[i]) by {
            if i < before.len() {
                assert(whole[i] == before[i]);
            } else {
                assert(whole[i] == after[i - before.len()]);
            }
        }
        lemma_leading_spaces_is(whole, whole.len() as int);
        assert(trimmed(whole) =~= s);
    } else {
        assert forall|i: int| 0 <= i < before.len() implies is_space(#[trigger] whole[i]) by {
            assert(whole[i] == before[i]);
        }
        assert(whole[before.len() as int] == s[0]);
        lemma_leading_spaces_is(whole, before.len() as int);
        let rest = whole.skip(before.len() as int);
        assert(rest =~= s + after);
        assert forall|i: int| rest.len() - after.len() <= i < rest.len() implies is_space(
            #[trigger] rest[i],
        ) by {
            assert(rest[i] == after[i - s.len()]);
        }
        assert(rest[rest.len() - after.len() - 1] == s.last());
        lemma_trailing_spaces_is(rest, after.len() as int);
        assert(trimmed(whole) =~= s);
    }
}

/// White space added at the end of a text is trimmed away with the rest.
pub proof fn lemma_trim_push_space(s: Seq<char>, c: char)
    requires
        is_space(c),
    ensures
        trimmed(s.push(c)) == trimmed(s),
{
    let t = s.push(c);
    lemma_leading_spaces(s);
    let a = leading_spaces(s) as int;
    if a == s.len() {
        assert forall|i: int| 0 <= i < t.len() implies is_space(#[trigger] t[i]) by {
            if i < s.len() {
                assert(t[i] == s[i]);
            }
        }
        lemma_leading_spaces_is(t, t.len() as int);
        assert(trimmed(t) =~= Seq::<char>::empty());
        assert(trimmed(s) =~= Seq::<char>::empty());
    } else {
        assert forall|i: int| 0 <= i < a implies is_space(#[trigger] t[i]) by {
            assert(t[i] == s[i]);
        }
        assert(t[a] == s[a]);
        lemma_leading_spaces_is(t, a);
        let rest = s.skip(a);
        let rest2 = t.skip(a);
        assert(rest2 =~= rest.push(c));
        lemma_trailing_spaces(rest);
        let k = trailing_spaces(rest) as int;
        assert(rest2.drop_last() =~= rest);
        assert(trailing_spaces(rest2) == k + 1);
        assert(trimmed(t) =~= trimmed(s));
    }
}

/// A character added at the end of a text brings no new occurrence of a
/// needle that does not end with it.
pub proof fn lemma_infix_push(hay: Seq<char>, needle: Seq<char>, c: char)
    requires
        needle.len() > 0,
        needle.last() != c,
    ensures
        has_infix(hay.push(c), needle) == has_infix(hay, needle),
        has_prefix(hay.push(c), needle) == has_prefix(hay, needle),
{
    let t = hay.push(c);
    assert forall|at: int| occurs_at(t, needle, at) == occurs_at(hay, needle, at) by {
        if 0 <= at && at + needle.len() <= hay.len() {
            assert(t.subrange(at, at + needle.len()) =~= hay.subrange(at, at + needle.len()));
        } else if 0 <= at && at + needle.len() == t.len() {
            let sub = t.subrange(at, at + needle.len());
            assert(sub.last() == c);
        }
    }
    if has_infix(t, needle) {
        let at = choose|at: int| occurs_at(t, needle, at);
        assert(occurs_at(hay, needle, at));
    }
    if has_infix(hay, needle) {
        let at = choose|at: int| occurs_at(hay, needle, at);
        assert(occurs_at(t, needle, at));
    }
}

/// What occurs in a stretch of a text occurs in the text.
pub proof fn lemma_infix_of_infix(hay: Seq<char>, part: Seq<char>, needle: Seq<char>)
    requires
        has_infix(hay, part),
        has_infix(part, needle),
    ensures
        has_infix(hay, needle),
{
    let a = choose|a: int| occurs_at(hay, part, a);
    let b = choose|b: int| occurs_at(part, needle, b);
    let x = hay.subrange(a + b, a + b + needle.len());
    let y = part.subrange(b, b + needle.len());
    assert(x =~= y) by {
        assert(hay.subrange(a, a + part.len()) == part);
        assert forall|i: int| 0 <= i < needle.len() implies #[trigger] x[i] == y[i] by {
            assert(hay.subrange(a, a + part.len())[b + i] == hay[a + b + i]);
        }
    }
    assert(occurs_at(hay, needle, a + b));
}

/// What is trimmed is a stretch of the text.
pub proof fn lemma_trimmed_is_infix(s: Seq<char>)
    ensures
        has_infix(s, trimmed(s)),
{
    lemma_leading_spaces(s);
    let a = leading_spaces(s) as int;
    let rest = s.skip(a);
    lemma_trailing_spaces(rest);
    let t = trimmed(s);
    assert(s.subrange(a, a + t.len()) =~= t);
    assert(occurs_at(s, t, a));
}

/// The pieces of a split are stretches of the text, and the last piece
/// stands at its end.
pub proof fn lemma_pieces_are_infixes(s: Seq<char>, sep: char)
    ensures
        forall|i: int|
            0 <= i < split_on(s, sep).len() ==> has_infix(s, #[trigger] split_on(s, sep)[i]),
        occurs_at(s, split_on(s, sep).last(), s.len() - split_on(s, sep).last().len()),
    decreases s.len(),
{
    lemma_split_on_len(s, sep);
    let parts = split_on(s, sep);
    if s.len() == 0 {
        assert(s.subrange(0, 0) =~= parts[0]);
        assert(occurs_at(s, parts[0], 0));
    } else {
        let h = s.drop_last();
        let head = split_on(h, sep);
        lemma_pieces_are_infixes(h, sep);
        lemma_split_on_len(h, sep);
        let last_at = h.len() - head.last().len();
        if s.last() == sep {
            assert(s.subrange(s.len() as int, s.len() as int) =~= parts.last());
        } else {
            let x = s.subrange(last_at, s.len() as int);
            let y = head.last().push(s.last());
            assert(x =~= y) by {
                assert(h.subrange(last_at, h.len() as int) == head.last());
                assert forall|j: int| 0 <= j < x.len() implies #[trigger] x[j] == y[j] by {
                    if j < head.last().len() {
                        assert(h.subrange(last_at, h.len() as int)[j] == h[last_at + j]);
                    }
                }
            }
        }
        assert(occurs_at(s, parts.last(), s.len() - parts.last().len()));
        assert forall|i: int| 0 <= i < parts.len() implies has_infix(s, #[trigger] parts[i]) by {
            if i == parts.len() - 1 {
                assert(occurs_at(s, parts[i], s.len() - parts.last().len()));
            } else {
                assert(parts[i] == head[i]);
                assert(has_infix(h, head[i]));
                let at = choose|at: int| occurs_at(h, head[i], at);
                assert(s.subrange(at, at + head[i].len()) =~= h.subrange(at, at + head[i].len()));
                assert(occurs_at(s, head[i], at));
            }
        }
    }
}

/// What occurs in two texts joined by a character that it does not hold
/// occurs in one of the two.
pub proof fn lemma_infix_across(a: Seq<char>, sep: char, b: Seq<char>, needle: Seq<char>)
    requires
        needle.len() > 0,
        lacks(needle, sep),
        has_infix(a.push(sep) + b, needle),
    ensures
        has_infix(a, needle) || has_infix(b, needle),
{
    let t = a.push(sep) + b;
    let at = choose|at: int| occurs_at(t, needle, at);
    let sub = t.subrange(at, at + needle.len());
    if at + needle.len() <= a.len() {
        assert(a.subrange(at, at + needle.len()) =~= sub);
        assert(occurs_at(a, needle, at));
    } else if at > a.len() {
        let off = at - a.len() - 1;
        assert(b.subrange(off, off + needle.len()) =~= sub);
        assert(occurs_at(b, needle, off));
    } else {
        assert(sub[a.len() - at] == sep);
        assert(needle[a.len() - at] != sep);
    }
}

} // verus!
