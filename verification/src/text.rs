//! Text as sequences of characters: conversions between strings and
//! character vectors, trimming, substring search and line splitting.
//!
//! Every contract in this crate speaks of text through its view, a
//! `Seq<char>`. The executable functions work on `Vec<char>`, so that a
//! position in the vector is a position in the view.

use vstd::prelude::*;

verus! {

/// Whether a character has the Unicode `White_Space` property.
pub uninterp spec fn is_white_space(c: char) -> bool;

/// `char::is_whitespace` of the standard library: it reports the Unicode
/// `White_Space` property of the character, which is what `is_white_space`
/// names. Nothing is claimed about which characters have it.
pub assume_specification[ char::is_whitespace ](c: char) -> (b: bool)
    ensures
        b == is_white_space(c),
;

/// `String::push` of the standard library: it appends the character to the
/// end of the string and leaves the rest as it was.
pub assume_specification[ String::push ](s: &mut String, c: char)
    ensures
        final(s)@ == old(s)@.push(c),
;

/// The views of a sequence of character vectors.
pub open spec fn line_views(lines: Seq<Vec<char>>) -> Seq<Seq<char>> {
    Seq::new(lines.len(), |i: int| lines[i]@)
}

/// The views of a sequence of strings.
pub open spec fn string_views(strings: Seq<String>) -> Seq<Seq<char>> {
    Seq::new(strings.len(), |i: int| strings[i]@)
}

/// Copies the characters of a string slice into a vector.
pub fn to_chars(s: &str) -> (v: Vec<char>)
    ensures
        v@ == s@,
{
    let mut v: Vec<char> = Vec::new();
    for c in it: s.chars()
        invariant
            v@ == it.seq().take(it.index() as int),
            it.seq() == s@,
    {
        v.push(c);
    }
    v
}

/// Builds a string from the characters of a vector.
pub fn to_string(v: &Vec<char>) -> (s: String)
    ensures
        s@ == v@,
{
    let mut s = String::new();
    let mut i: usize = 0;
    while i < v.len()
        invariant
            i <= v.len(),
            s@ == v@.take(i as int),
        decreases v.len() - i,
    {
        s.push(v[i]);
        i += 1;
    }
    s
}

/// Copies the characters `v[from..to]` into a new vector.
pub fn slice(v: &Vec<char>, from: usize, to: usize) -> (r: Vec<char>)
    requires
        from <= to <= v.len(),
    ensures
        r@ == v@.subrange(from as int, to as int),
{
    let mut r: Vec<char> = Vec::new();
    let mut i: usize = from;
    while i < to
        invariant
            from <= i <= to <= v.len(),
            r@ == v@.subrange(from as int, i as int),
        decreases to - i,
    {
        r.push(v[i]);
        i += 1;
    }
    r
}

/// Appends the characters of `tail` to `v`.
pub fn append(v: &mut Vec<char>, tail: &Vec<char>)
    ensures
        final(v)@ == old(v)@ + tail@,
{
    let mut i: usize = 0;
    while i < tail.len()
        invariant
            i <= tail.len(),
            v@ == old(v)@ + tail@.take(i as int),
        decreases tail.len() - i,
    {
        v.push(tail[i]);
        i += 1;
    }
}

/// Whether two character vectors hold the same text.
pub fn same_text(a: &Vec<char>, b: &Vec<char>) -> (r: bool)
    ensures
        r == (a@ == b@),
{
    if a.len() != b.len() {
        return false;
    }
    let mut i: usize = 0;
    while i < a.len()
        invariant
            a.len() == b.len(),
            i <= a.len(),
            a@.take(i as int) == b@.take(i as int),
        decreases a.len() - i,
    {
        if a[i] != b[i] {
            return false;
        }
        assert(a@.take(i + 1) == a@.take(i as int).push(a@[i as int]));
        assert(b@.take(i + 1) == b@.take(i as int).push(b@[i as int]));
        i += 1;
    }
    assert(a@ == a@.take(a.len() as int));
    assert(b@ == b@.take(b.len() as int));
    true
}

/// `s` without its leading white space.
pub open spec fn trim_start(s: Seq<char>) -> Seq<char>
    decreases s.len(),
{
    if s.len() > 0 && is_white_space(s[0]) {
        trim_start(s.drop_first())
    } else {
        s
    }
}

/// `s` without its trailing white space.
pub open spec fn trim_end(s: Seq<char>) -> Seq<char>
    decreases s.len(),
{
    if s.len() > 0 && is_white_space(s.last()) {
        trim_end(s.drop_last())
    } else {
        s
    }
}

/// `s` without its leading and trailing white space.
pub open spec fn trimmed(s: Seq<char>) -> Seq<char> {
    trim_end(trim_start(s))
}

/// The bounds of the trimmed text inside `v`.
pub fn trim_bounds(v: &Vec<char>) -> (r: (usize, usize))
    ensures
        r.0 <= r.1 <= v.len(),
        v@.subrange(r.0 as int, r.1 as int) == trimmed(v@),
{
    let mut from: usize = 0;
    assert(v@.skip(0) == v@);
    while from < v.len() && v[from].is_whitespace()
        invariant
            from <= v.len(),
            trim_start(v@) == trim_start(v@.skip(from as int)),
        decreases v.len() - from,
    {
        assert(v@.skip(from as int).drop_first() == v@.skip(from + 1));
        from += 1;
    }
    assert(v@.skip(from as int) == v@.subrange(from as int, v.len() as int));
    let mut to: usize = v.len();
    while to > from && v[to - 1].is_whitespace()
        invariant
            from <= to <= v.len(),
            trimmed(v@) == trim_end(v@.subrange(from as int, to as int)),
        decreases to,
    {
        assert(v@.subrange(from as int, to as int).drop_last() == v@.subrange(
            from as int,
            to - 1,
        ));
        to -= 1;
    }
    (from, to)
}

/// A copy of `v` without its leading and trailing white space.
pub fn trim(v: &Vec<char>) -> (r: Vec<char>)
    ensures
        r@ == trimmed(v@),
{
    let (from, to) = trim_bounds(v);
    slice(v, from, to)
}

/// Whether `needle` stands in `hay` at position `at`.
pub open spec fn matches_at(hay: Seq<char>, needle: Seq<char>, at: int) -> bool {
    &&& 0 <= at
    &&& at + needle.len() <= hay.len()
    &&& hay.subrange(at, at + needle.len()) == needle
}

/// Whether `needle` occurs somewhere in `hay`.
pub open spec fn occurs_in(needle: Seq<char>, hay: Seq<char>) -> bool {
    exists|at: int| matches_at(hay, needle, at)
}

/// Whether `at` is the position of the first occurrence of `needle` in `hay`.
pub open spec fn is_first_match(hay: Seq<char>, needle: Seq<char>, at: int) -> bool {
    &&& matches_at(hay, needle, at)
    &&& forall|before: int| 0 <= before < at ==> !matches_at(hay, needle, before)
}

/// The position of the first occurrence of `needle` in `hay`, if there is one.
pub open spec fn first_match(hay: Seq<char>, needle: Seq<char>) -> Option<int> {
    if occurs_in(needle, hay) {
        Some(choose|at: int| is_first_match(hay, needle, at))
    } else {
        None
    }
}

/// Two first occurrences are the same position.
pub proof fn lemma_first_match_unique(hay: Seq<char>, needle: Seq<char>, a: int, b: int)
    requires
        is_first_match(hay, needle, a),
        is_first_match(hay, needle, b),
    ensures
        a == b,
{
    if a < b {
        assert(!matches_at(hay, needle, a));
    } else if b < a {
        assert(!matches_at(hay, needle, b));
    }
}

/// A position that is a first occurrence is what `first_match` gives.
pub proof fn lemma_first_match_is(hay: Seq<char>, needle: Seq<char>, at: int)
    requires
        is_first_match(hay, needle, at),
    ensures
        first_match(hay, needle) == Some(at),
{
    assert(matches_at(hay, needle, at));
    let chosen = choose|c: int| is_first_match(hay, needle, c);
    lemma_first_match_unique(hay, needle, at, chosen);
}

/// Whatever `first_match` gives is a first occurrence.
pub proof fn lemma_first_match_some(hay: Seq<char>, needle: Seq<char>)
    requires
        occurs_in(needle, hay),
    ensures
        first_match(hay, needle) is Some,
        is_first_match(hay, needle, first_match(hay, needle)->0),
{
    let some = choose|at: int| matches_at(hay, needle, at);
    lemma_least_match(hay, needle, some);
}

/// Below any occurrence there is a first one.
proof fn lemma_least_match(hay: Seq<char>, needle: Seq<char>, at: int)
    requires
        matches_at(hay, needle, at),
    ensures
        exists|first: int| is_first_match(hay, needle, first),
    decreases at,
{
    if exists|before: int| 0 <= before < at && matches_at(hay, needle, before) {
        let before = choose|before: int| 0 <= before < at && matches_at(hay, needle, before);
        lemma_least_match(hay, needle, before);
    } else {
        assert(is_first_match(hay, needle, at));
    }
}

/// Whether `needle` stands in `hay` at position `at`.
pub fn matches_here(hay: &Vec<char>, needle: &Vec<char>, at: usize) -> (r: bool)
    ensures
        r == matches_at(hay@, needle@, at as int),
{
    if at > hay.len() || needle.len() > hay.len() - at {
        return false;
    }
    let mut i: usize = 0;
    while i < needle.len()
        invariant
            at + needle.len() <= hay.len(),
            i <= needle.len(),
            hay@.subrange(at as int, at + i) == needle@.take(i as int),
        decreases needle.len() - i,
    {
        if hay[at + i] != needle[i] {
            assert(hay@.subrange(at as int, at + needle.len())[i as int] != needle@[i as int]);
            return false;
        }
        assert(hay@.subrange(at as int, at + i + 1) == hay@.subrange(at as int, at + i).push(
            hay@[at + i],
        ));
        assert(needle@.take(i + 1) == needle@.take(i as int).push(needle@[i as int]));
        i += 1;
    }
    assert(needle@ == needle@.take(needle.len() as int));
    true
}

/// Whether `v` begins with `prefix`.
pub fn starts_with(v: &Vec<char>, prefix: &Vec<char>) -> (r: bool)
    ensures
        r == prefix@.is_prefix_of(v@),
{
    let r = matches_here(v, prefix, 0);
    proof {
        if prefix@.len() <= v@.len() {
            assert(v@.subrange(0, prefix@.len() as int) == v@.subrange(0, 0int + prefix@.len()));
        }
    }
    r
}

/// The position of the first occurrence of `needle` in `hay`.
pub fn find(hay: &Vec<char>, needle: &Vec<char>) -> (r: Option<usize>)
    ensures
        match r {
            Some(at) => first_match(hay@, needle@) == Some(at as int) && is_first_match(
                hay@,
                needle@,
                at as int,
            ),
            None => first_match(hay@, needle@) is None,
        },
{
    if needle.len() > hay.len() {
        return None;
    }
    let last: usize = hay.len() - needle.len();
    let mut at: usize = 0;
    loop
        invariant
            last == hay.len() - needle.len(),
            at <= last,
            forall|before: int| 0 <= before < at ==> !matches_at(hay@, needle@, before),
        decreases last - at,
    {
        if matches_here(hay, needle, at) {
            proof {
                lemma_first_match_is(hay@, needle@, at as int);
            }
            return Some(at);
        }
        if at == last {
            return None;
        }
        at += 1;
    }
}

/// Whether `needle` occurs somewhere in `hay`.
pub fn contains(hay: &Vec<char>, needle: &Vec<char>) -> (r: bool)
    ensures
        r == occurs_in(needle@, hay@),
{
    find(hay, needle).is_some()
}

/// The position of the first line feed in `s`, or the length of `s` if it
/// holds none.
pub open spec fn line_end(s: Seq<char>) -> int
    decreases s.len(),
{
    if s.len() == 0 || s[0] == '\n' {
        0
    } else {
        1 + line_end(s.drop_first())
    }
}

/// `line` without one trailing carriage return.
pub open spec fn without_carriage_return(line: Seq<char>) -> Seq<char> {
    if line.len() > 0 && line.last() == '\r' {
        line.drop_last()
    } else {
        line
    }
}

/// The lines of a text. A line ends at a line feed, or at a carriage return
/// directly followed by one; neither belongs to the line. The last line needs
/// no line feed, and a text that ends in one has no empty line after it.
pub open spec fn lines(s: Seq<char>) -> Seq<Seq<char>>
    decreases s.len(),
{
    let end = line_end(s);
    if s.len() == 0 {
        Seq::empty()
    } else if 0 <= end < s.len() {
        seq![without_carriage_return(s.take(end))] + lines(s.skip(end + 1))
    } else {
        seq![s]
    }
}

/// The text whose lines are `lines`, each followed by a line feed.
pub open spec fn join_lines(lines: Seq<Seq<char>>) -> Seq<char>
    decreases lines.len(),
{
    if lines.len() == 0 {
        Seq::empty()
    } else {
        join_lines(lines.drop_last()) + lines.last() + seq!['\n']
    }
}

/// `line_end` is the position before which no line feed stands and at which
/// one does, or the text ends.
pub proof fn lemma_line_end(s: Seq<char>, end: int)
    requires
        0 <= end <= s.len(),
        forall|i: int| 0 <= i < end ==> s[i] != '\n',
        end < s.len() ==> s[end] == '\n',
    ensures
        line_end(s) == end,
    decreases end,
{
    if end > 0 {
        lemma_line_end(s.drop_first(), end - 1);
    }
}

/// Splits a text into its lines.
pub fn split_lines(text: &Vec<char>) -> (out: Vec<Vec<char>>)
    ensures
        line_views(out@) == lines(text@),
{
    let mut out: Vec<Vec<char>> = Vec::new();
    let mut start: usize = 0;
    assert(text@.skip(0) == text@);
    while start < text.len()
        invariant
            start <= text.len(),
            lines(text@) == line_views(out@) + lines(text@.skip(start as int)),
        decreases text.len() - start,
    {
        let mut end: usize = start;
        while end < text.len() && text[end] != '\n'
            invariant
                start <= end <= text.len(),
                forall|i: int| start <= i < end ==> text@[i] != '\n',
            decreases text.len() - end,
        {
            end += 1;
        }
        let ghost rest = text@.skip(start as int);
        let ghost before = out@;
        proof {
            lemma_line_end(rest, end - start);
        }
        if end == text.len() {
            let line = slice(text, start, end);
            out.push(line);
            proof {
                assert(line@ == rest);
                assert(lines(rest) == seq![rest]);
                assert(lines(text@.skip(end as int)) == Seq::<Seq<char>>::empty());
                assert(line_views(out@) == line_views(before) + seq![rest]);
            }
            start = end;
        } else {
            let stop: usize = if end > start && text[end - 1] == '\r' {
                end - 1
            } else {
                end
            };
            let line = slice(text, start, stop);
            out.push(line);
            proof {
                let raw = rest.take(end - start);
                assert(raw == text@.subrange(start as int, end as int));
                assert(line@ == without_carriage_return(raw));
                assert(rest.skip(end - start + 1) == text@.skip(end + 1));
                assert(line_views(out@) == line_views(before) + seq![line@]);
            }
            start = end + 1;
        }
    }
    out
}

/// Whether `s` ends with `pattern`.
pub open spec fn ends_with(s: Seq<char>, pattern: Seq<char>) -> bool {
    pattern.len() <= s.len() && s.skip(s.len() - pattern.len()) == pattern
}

/// `s` without the copies of `pattern` that it ends with, however many they
/// are. An empty pattern takes nothing away.
pub open spec fn without_trailing(s: Seq<char>, pattern: Seq<char>) -> Seq<char>
    decreases s.len(),
{
    if pattern.len() > 0 && ends_with(s, pattern) {
        without_trailing(s.take(s.len() - pattern.len()), pattern)
    } else {
        s
    }
}

/// The length of `v` without the copies of `pattern` that it ends with.
pub fn trailing_bound(v: &Vec<char>, pattern: &Vec<char>) -> (end: usize)
    ensures
        end <= v.len(),
        v@.take(end as int) == without_trailing(v@, pattern@),
{
    let mut end: usize = v.len();
    assert(v@.take(end as int) == v@);
    if pattern.len() == 0 {
        return end;
    }
    while end >= pattern.len() && matches_here(v, pattern, end - pattern.len())
        invariant
            end <= v.len(),
            pattern.len() > 0,
            without_trailing(v@, pattern@) == without_trailing(v@.take(end as int), pattern@),
        decreases end,
    {
        proof {
            let kept = v@.take(end as int);
            assert(kept.skip(kept.len() - pattern@.len()) == v@.subrange(
                end - pattern@.len(),
                end - pattern@.len() + pattern@.len(),
            ));
            assert(kept.take(kept.len() - pattern@.len()) == v@.take(end - pattern@.len()));
        }
        end -= pattern.len();
    }
    proof {
        let kept = v@.take(end as int);
        if pattern@.len() <= kept.len() {
            assert(kept.skip(kept.len() - pattern@.len()) == v@.subrange(
                end - pattern@.len(),
                end - pattern@.len() + pattern@.len(),
            ));
        }
    }
    end
}

/// Whether a text can stand as one line: it holds no line feed and does not
/// end in a carriage return.
pub open spec fn is_single_line(line: Seq<char>) -> bool {
    &&& forall|i: int| 0 <= i < line.len() ==> line[i] != '\n'
    &&& line.len() > 0 ==> line.last() != '\r'
}

/// The joined text begins with its first line.
pub proof fn lemma_join_lines_first(all: Seq<Seq<char>>)
    requires
        all.len() > 0,
    ensures
        join_lines(all) == all[0] + seq!['\n'] + join_lines(all.drop_first()),
    decreases all.len(),
{
    if all.len() == 1 {
        assert(all.drop_last() == Seq::<Seq<char>>::empty());
        assert(all.drop_first() == Seq::<Seq<char>>::empty());
        assert(join_lines(all.drop_last()) == Seq::<char>::empty());
        assert(Seq::<char>::empty() + all[0] + seq!['\n'] == all[0] + seq!['\n']);
        assert(all[0] + seq!['\n'] + Seq::<char>::empty() == all[0] + seq!['\n']);
    } else {
        let head = all.drop_last();
        lemma_join_lines_first(head);
        assert(head.drop_first() == all.drop_first().drop_last());
        assert(all.drop_first().last() == all.last());
        assert(head[0] == all[0]);
        assert(join_lines(all) == all[0] + seq!['\n'] + join_lines(head.drop_first()) + all.last()
            + seq!['\n']);
        assert(join_lines(all.drop_first()) == join_lines(head.drop_first()) + all.last()
            + seq!['\n']);
    }
}

/// A text that begins with a line and a line feed has that line as its
/// first, and the lines of what follows after it.
pub proof fn lemma_lines_first(line: Seq<char>, rest: Seq<char>)
    requires
        is_single_line(line),
    ensures
        lines(line + seq!['\n'] + rest) == seq![line] + lines(rest),
{
    let text = line + seq!['\n'] + rest;
    lemma_line_end(text, line.len() as int);
    assert(text.take(line.len() as int) == line);
    assert(text.skip(line.len() as int + 1) == rest);
}

/// Splitting undoes joining: the lines of a text that was joined from
/// single lines are those lines.
pub proof fn lemma_lines_of_joined(all: Seq<Seq<char>>)
    requires
        forall|i: int| 0 <= i < all.len() ==> is_single_line(#[trigger] all[i]),
    ensures
        lines(join_lines(all)) == all,
    decreases all.len(),
{
    if all.len() > 0 {
        let rest = all.drop_first();
        assert forall|i: int| 0 <= i < rest.len() implies is_single_line(#[trigger] rest[i]) by {
            assert(rest[i] == all[i + 1]);
        }
        lemma_lines_of_joined(rest);
        lemma_join_lines_first(all);
        lemma_lines_first(all[0], join_lines(rest));
        assert(seq![all[0]] + rest == all);
    }
}

} // verus!
