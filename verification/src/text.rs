//! Text as sequences of characters: splitting on a separator, lines, trimming
//! and substring search, each with a mathematical definition and a verified
//! implementation.

use vstd::prelude::*;

verus! {

/// `String::push` appends one character to the end of the string.
pub assume_specification[ String::push ](s: &mut String, c: char)
    ensures
        final(s)@ == old(s)@.push(c),
;

/// Position of the first `mark` in `s`; `s.len()` when `s` holds none.
pub open spec fn first_index(s: Seq<char>, mark: char) -> int
    decreases s.len(),
{
    if s.len() == 0 || s[0] == mark {
        0
    } else {
        1 + first_index(s.drop_first(), mark)
    }
}

/// The pieces of `s` between occurrences of `sep`. There is always at least
/// one piece; two separators in a row enclose an empty piece.
pub open spec fn split(s: Seq<char>, sep: char) -> Seq<Seq<char>>
    decreases s.len(),
{
    let i = first_index(s, sep);
    if 0 <= i < s.len() {
        seq![s.take(i)] + split(s.skip(i + 1), sep)
    } else {
        seq![s]
    }
}

/// The pieces put back together with `sep` between neighbours.
pub open spec fn join(parts: Seq<Seq<char>>, sep: Seq<char>) -> Seq<char>
    decreases parts.len(),
{
    if parts.len() == 0 {
        Seq::empty()
    } else if parts.len() == 1 {
        parts[0]
    } else {
        join(parts.drop_last(), sep) + sep + parts.last()
    }
}

/// A line without the carriage return that may end it.
pub open spec fn strip_cr(line: Seq<char>) -> Seq<char> {
    if line.len() > 0 && line.last() == '\r' {
        line.drop_last()
    } else {
        line
    }
}

/// The lines of `s`. A line ends at a line feed, or at a carriage return
/// directly followed by one; the terminator is not part of the line. The
/// last line needs no terminator, and an empty text has no lines.
pub open spec fn lines(s: Seq<char>) -> Seq<Seq<char>>
    decreases s.len(),
{
    if s.len() == 0 {
        Seq::empty()
    } else {
        let i = first_index(s, '\n');
        if 0 <= i < s.len() {
            seq![strip_cr(s.take(i))] + lines(s.skip(i + 1))
        } else {
            seq![s]
        }
    }
}

/// The characters that count as white space: the code points with the
/// Unicode property `White_Space`.
pub open spec fn is_whitespace(c: char) -> bool {
    let n = c as u32;
    ||| 0x09 <= n <= 0x0D
    ||| n == 0x20
    ||| n == 0x85
    ||| n == 0xA0
    ||| n == 0x1680
    ||| 0x2000 <= n <= 0x200A
    ||| n == 0x2028
    ||| n == 0x2029
    ||| n == 0x202F
    ||| n == 0x205F
    ||| n == 0x3000
}

/// `s` without the white space it begins with.
pub open spec fn trim_start(s: Seq<char>) -> Seq<char>
    decreases s.len(),
{
    if s.len() > 0 && is_whitespace(s[0]) {
        trim_start(s.drop_first())
    } else {
        s
    }
}

/// `s` without the white space it ends with.
pub open spec fn trim_end(s: Seq<char>) -> Seq<char>
    decreases s.len(),
{
    if s.len() > 0 && is_whitespace(s.last()) {
        trim_end(s.drop_last())
    } else {
        s
    }
}

/// `s` without white space at either end.
pub open spec fn trim(s: Seq<char>) -> Seq<char> {
    trim_end(trim_start(s))
}

/// Whether `needle` occurs in `hay` at position `at`.
pub open spec fn occurs_at(hay: Seq<char>, needle: Seq<char>, at: int) -> bool {
    &&& 0 <= at
    &&& at + needle.len() <= hay.len()
    &&& hay.subrange(at, at + needle.len()) == needle
}

/// Whether `needle` occurs somewhere in `hay`. The empty text occurs in
/// every text.
pub open spec fn occurs(hay: Seq<char>, needle: Seq<char>) -> bool {
    exists|at: int| occurs_at(hay, needle, at)
}

/// `first_index` is the least position that holds `mark`.
pub proof fn lemma_first_index(s: Seq<char>, mark: char)
    ensures
        0 <= first_index(s, mark) <= s.len(),
        forall|j: int| 0 <= j < first_index(s, mark) ==> s[j] != mark,
        first_index(s, mark) < s.len() ==> s[first_index(s, mark)] == mark,
    decreases s.len(),
{
    if s.len() == 0 || s[0] == mark {
    } else {
        let rest = s.drop_first();
        lemma_first_index(rest, mark);
        assert forall|j: int| 0 <= j < first_index(s, mark) implies s[j] != mark by {
            if j > 0 {
                assert(s[j] == rest[j - 1]);
            }
        }
        if first_index(s, mark) < s.len() {
            assert(s[first_index(s, mark)] == rest[first_index(rest, mark)]);
        }
    }
}

/// A position `k` that holds the first `mark` of `s` (or is the end of a text
/// without one) is `first_index`.
pub proof fn lemma_first_index_is(s: Seq<char>, mark: char, k: int)
    requires
        0 <= k <= s.len(),
        forall|j: int| 0 <= j < k ==> s[j] != mark,
        k < s.len() ==> s[k] == mark,
    ensures
        first_index(s, mark) == k,
{
    lemma_first_index(s, mark);
}

/// A text that ends a line (it is empty or ends in a line feed), followed by
/// one more line and its line feed, followed by more text: the lines are those
/// of the first text, the new line, and those of the rest.
pub proof fn lemma_lines_insert(before: Seq<char>, line: Seq<char>, after: Seq<char>)
    requires
        before.len() == 0 || before.last() == '\n',
        forall|j: int| 0 <= j < line.len() ==> line[j] != '\n',
    ensures
        lines(before + line + seq!['\n'] + after) == lines(before) + seq![strip_cr(line)] + lines(
            after,
        ),
    decreases before.len(),
{
    let whole = before + line + seq!['\n'] + after;
    if before.len() == 0 {
        assert(whole =~= line + seq!['\n'] + after);
        lemma_first_index_is(whole, '\n', line.len() as int);
        assert(whole.take(line.len() as int) =~= line);
        assert(whole.skip(line.len() as int + 1) =~= after);
        assert(lines(before) =~= Seq::<Seq<char>>::empty());
        assert(seq![strip_cr(line)] + lines(after) =~= lines(before) + seq![strip_cr(line)]
            + lines(after));
    } else {
        lemma_first_index(before, '\n');
        let i = first_index(before, '\n');
        assert(i < before.len()) by {
            if i >= before.len() {
                assert(before[before.len() - 1] != '\n');
            }
        }
        lemma_first_index_is(whole, '\n', i);
        let rest = before.skip(i + 1);
        assert(whole.take(i) =~= before.take(i));
        assert(whole.skip(i + 1) =~= rest + line + seq!['\n'] + after);
        assert(rest.len() == 0 || rest.last() == '\n') by {
            if rest.len() > 0 {
                assert(rest.last() == before.last());
            }
        }
        lemma_lines_insert(rest, line, after);
        assert(seq![strip_cr(before.take(i))] + (lines(rest) + seq![strip_cr(line)] + lines(after))
            =~= (seq![strip_cr(before.take(i))] + lines(rest)) + seq![strip_cr(line)] + lines(
            after,
        ));
    }
}

/// The characters of a string slice.
pub fn to_chars(s: &str) -> (v: Vec<char>)
    ensures
        v@ == s@,
{
    let mut v: Vec<char> = Vec::new();
    for c in it: s.chars()
        invariant
            v@ == it.seq().take(it.index() as int),
    {
        v.push(c);
    }
    v
}

/// The string made of the given characters.
pub fn from_chars(v: &Vec<char>) -> (s: String)
    ensures
        s@ == v@,
{
    let mut s = String::new();
    let mut i: usize = 0;
    while i < v.len()
        invariant
            i <= v.len(),
            s@ == v@.take(i as int),
        decreases v.len() - i,
    {
        s.push(v[i]);
        i += 1;
    }
    s
}

/// The characters of `v` from `lo` up to `hi`.
pub fn copy_range(v: &Vec<char>, lo: usize, hi: usize) -> (r: Vec<char>)
    requires
        lo <= hi <= v.len(),
    ensures
        r@ == v@.subrange(lo as int, hi as int),
{
    let mut r: Vec<char> = Vec::new();
    let mut i: usize = lo;
    while i < hi
        invariant
            lo <= i <= hi <= v.len(),
            r@ == v@.subrange(lo as int, i as int),
        decreases hi - i,
    {
        r.push(v[i]);
        i += 1;
    }
    r
}

/// Whether two character vectors hold the same text.
pub fn same_chars(a: &Vec<char>, b: &Vec<char>) -> (r: bool)
    ensures
        r == (a@ == b@),
{
    if a.len() != b.len() {
        return false;
    }
    let mut i: usize = 0;
    while i < a.len()
        invariant
            i <= a.len(),
            a.len() == b.len(),
            forall|j: int| 0 <= j < i ==> a@[j] == b@[j],
        decreases a.len() - i,
    {
        if a[i] != b[i] {
            return false;
        }
        i += 1;
    }
    assert(a@ =~= b@);
    true
}

/// Whether `c` is white space.
pub fn is_space(c: char) -> (r: bool)
    ensures
        r == is_whitespace(c),
{
    let n: u32 = c as u32;
    (0x09 <= n && n <= 0x0D) || n == 0x20 || n == 0x85 || n == 0xA0 || n == 0x1680 || (0x2000 <= n
        && n <= 0x200A) || n == 0x2028 || n == 0x2029 || n == 0x202F || n == 0x205F || n == 0x3000
}

/// The views of the pieces held by a vector of character vectors.
pub open spec fn pieces(parts: Seq<Vec<char>>) -> Seq<Seq<char>> {
    parts.map_values(|p: Vec<char>| p@)
}

/// Splits on a separator.
pub fn split_chars(v: &Vec<char>, sep: char) -> (parts: Vec<Vec<char>>)
    ensures
        pieces(parts@) == split(v@, sep),
{
    let mut parts: Vec<Vec<char>> = Vec::new();
    let mut start: usize = 0;
    let mut i: usize = 0;
    assert(v@.skip(0) =~= v@);
    assert(pieces(parts@) + split(v@.skip(0), sep) =~= split(v@, sep));
    while i < v.len()
        invariant
            start <= i <= v.len(),
            forall|j: int| start <= j < i ==> v@[j] != sep,
            split(v@, sep) == pieces(parts@) + split(v@.skip(start as int), sep),
        decreases v.len() - i,
    {
        if v[i] == sep {
            let piece = copy_range(v, start, i);
            proof {
                let tail = v@.skip(start as int);
                lemma_first_index_is(tail, sep, i - start);
                assert(tail.take(i - start) =~= piece@);
                assert(tail.skip(i - start + 1) =~= v@.skip(i + 1));
                assert(pieces(parts@.push(piece)) =~= pieces(parts@) + seq![piece@]);
            }
            parts.push(piece);
            start = i + 1;
        }
        i += 1;
    }
    let piece = copy_range(v, start, v.len());
    proof {
        let tail = v@.skip(start as int);
        lemma_first_index_is(tail, sep, tail.len() as int);
        assert(tail =~= piece@);
        assert(pieces(parts@.push(piece)) =~= pieces(parts@) + seq![piece@]);
    }
    parts.push(piece);
    parts
}

/// Splits into lines.
pub fn line_chars(v: &Vec<char>) -> (ls: Vec<Vec<char>>)
    ensures
        pieces(ls@) == lines(v@),
{
    let mut ls: Vec<Vec<char>> = Vec::new();
    let mut start: usize = 0;
    let mut i: usize = 0;
    assert(v@.skip(0) =~= v@);
    assert(pieces(ls@) + lines(v@.skip(0)) =~= lines(v@));
    while i < v.len()
        invariant
            start <= i <= v.len(),
            forall|j: int| start <= j < i ==> v@[j] != '\n',
            lines(v@) == pieces(ls@) + lines(v@.skip(start as int)),
        decreases v.len() - i,
    {
        if v[i] == '\n' {
            let end: usize = if i > start && v[i - 1] == '\r' {
                i - 1
            } else {
                i
            };
            let line = copy_range(v, start, end);
            proof {
                let tail = v@.skip(start as int);
                lemma_first_index_is(tail, '\n', i - start);
                let raw = tail.take(i - start);
                assert(raw =~= v@.subrange(start as int, i as int));
                assert(strip_cr(raw) =~= line@);
                assert(tail.skip(i - start + 1) =~= v@.skip(i + 1));
                assert(pieces(ls@.push(line)) =~= pieces(ls@) + seq![line@]);
            }
            ls.push(line);
            start = i + 1;
        }
        i += 1;
    }
    if start < v.len() {
        let line = copy_range(v, start, v.len());
        proof {
            let tail = v@.skip(start as int);
            lemma_first_index_is(tail, '\n', tail.len() as int);
            assert(tail =~= line@);
            assert(pieces(ls@.push(line)) =~= pieces(ls@) + seq![line@]);
        }
        ls.push(line);
    } else {
        assert(lines(v@.skip(start as int)) =~= Seq::<Seq<char>>::empty());
        assert(pieces(ls@) + Seq::<Seq<char>>::empty() =~= pieces(ls@));
    }
    ls
}

/// Removes white space at both ends.
pub fn trim_chars(v: &Vec<char>) -> (r: Vec<char>)
    ensures
        r@ == trim(v@),
{
    let mut lo: usize = 0;
    assert(v@.skip(0) =~= v@);
    while lo < v.len() && is_space(v[lo])
        invariant
            lo <= v.len(),
            trim_start(v@) == trim_start(v@.skip(lo as int)),
        decreases v.len() - lo,
    {
        assert(v@.skip(lo as int).drop_first() =~= v@.skip(lo + 1));
        lo += 1;
    }
    assert(trim_start(v@) == v@.skip(lo as int));
    let mut hi: usize = v.len();
    assert(v@.skip(lo as int) =~= v@.subrange(lo as int, hi as int));
    while hi > lo && is_space(v[hi - 1])
        invariant
            lo <= hi <= v.len(),
            trim(v@) == trim_end(v@.subrange(lo as int, hi as int)),
        decreases hi - lo,
    {
        assert(v@.subrange(lo as int, hi as int).drop_last() =~= v@.subrange(
            lo as int,
            hi - 1,
        ));
        hi -= 1;
    }
    copy_range(v, lo, hi)
}

/// Whether `needle` occurs in `hay`.
pub fn contains_chars(hay: &Vec<char>, needle: &Vec<char>) -> (r: bool)
    ensures
        r == occurs(hay@, needle@),
{
    if needle.len() > hay.len() {
        return false;
    }
    let last: usize = hay.len() - needle.len();
    let mut at: usize = 0;
    while at <= last
        invariant
            at <= last + 1,
            last == hay.len() - needle.len(),
            needle.len() <= hay.len(),
            forall|k: int| 0 <= k < at ==> !occurs_at(hay@, needle@, k),
        decreases last + 1 - at,
    {
        let mut j: usize = 0;
        while j < needle.len() && hay[at + j] == needle[j]
            invariant
                j <= needle.len(),
                at <= last,
                last == hay.len() - needle.len(),
                needle.len() <= hay.len(),
                forall|k: int| 0 <= k < j ==> hay@[at + k] == needle@[k],
            decreases needle.len() - j,
        {
            j += 1;
        }
        if j == needle.len() {
            assert(hay@.subrange(at as int, at + needle.len()) =~= needle@);
            assert(occurs_at(hay@, needle@, at as int));
            return true;
        }
        assert(!occurs_at(hay@, needle@, at as int)) by {
            if occurs_at(hay@, needle@, at as int) {
                assert(hay@.subrange(at as int, at + needle.len())[j as int] == needle@[j as int]);
            }
        }
        at += 1;
    }
    false
}

/// The texts held by a vector of strings.
pub open spec fn strings(v: Seq<String>) -> Seq<Seq<char>> {
    v.map_values(|s: String| s@)
}

/// The strings made of the given pieces.
pub fn to_strings(parts: &Vec<Vec<char>>) -> (out: Vec<String>)
    ensures
        strings(out@) == pieces(parts@),
{
    let mut out: Vec<String> = Vec::new();
    let mut i: usize = 0;
    while i < parts.len()
        invariant
            i <= parts.len(),
            strings(out@) == pieces(parts@.take(i as int)),
        decreases parts.len() - i,
    {
        let s = from_chars(&parts[i]);
        proof {
            assert(parts@.take(i + 1) =~= parts@.take(i as int).push(parts@[i as int]));
            assert(strings(out@.push(s)) =~= strings(out@).push(s@));
            assert(pieces(parts@.take(i as int).push(parts@[i as int])) =~= pieces(
                parts@.take(i as int),
            ).push(parts@[i as int]@));
        }
        out.push(s);
        i += 1;
    }
    proof {
        assert(parts@.take(parts.len() as int) =~= parts@);
    }
    out
}

/// Copies of the strings, in order.
pub fn copy_strings(v: &Vec<String>) -> (out: Vec<String>)
    ensures
        strings(out@) == strings(v@),
{
    let mut out: Vec<String> = Vec::new();
    let mut i: usize = 0;
    while i < v.len()
        invariant
            i <= v.len(),
            strings(out@) == strings(v@.take(i as int)),
        decreases v.len() - i,
    {
        let s = v[i].clone();
        proof {
            assert(v@.take(i + 1) =~= v@.take(i as int).push(v@[i as int]));
            assert(strings(out@.push(s)) =~= strings(out@).push(s@));
            assert(strings(v@.take(i as int).push(v@[i as int])) =~= strings(
                v@.take(i as int),
            ).push(v@[i as int]@));
        }
        out.push(s);
        i += 1;
    }
    proof {
        assert(v@.take(v.len() as int) =~= v@);
    }
    out
}

/// The pieces of a text between occurrences of a separator.
pub fn split_text(s: &str, sep: char) -> (parts: Vec<String>)
    ensures
        strings(parts@) == split(s@, sep),
{
    let chars = to_chars(s);
    let parts = split_chars(&chars, sep);
    to_strings(&parts)
}

/// The lines of a text.
pub fn text_lines(s: &str) -> (ls: Vec<String>)
    ensures
        strings(ls@) == lines(s@),
{
    let chars = to_chars(s);
    let ls = line_chars(&chars);
    to_strings(&ls)
}

/// A text without white space at either end.
pub fn trim_text(s: &str) -> (r: String)
    ensures
        r@ == trim(s@),
{
    let chars = to_chars(s);
    let trimmed = trim_chars(&chars);
    from_chars(&trimmed)
}

/// Whether a text is empty once trimmed.
pub fn is_blank(s: &str) -> (r: bool)
    ensures
        r == (trim(s@).len() == 0),
{
    let chars = to_chars(s);
    let trimmed = trim_chars(&chars);
    trimmed.len() == 0
}

/// Whether `needle` occurs in `hay`.
pub fn text_contains(hay: &str, needle: &str) -> (r: bool)
    ensures
        r == occurs(hay@, needle@),
{
    let h = to_chars(hay);
    let n = to_chars(needle);
    contains_chars(&h, &n)
}

/// Whether two texts are the same.
pub fn same_text(a: &str, b: &str) -> (r: bool)
    ensures
        r == (a@ == b@),
{
    let x = to_chars(a);
    let y = to_chars(b);
    same_chars(&x, &y)
}

} // verus!
