//! Searching byte strings: where a pattern occurs, and where it occurs first.

use vstd::prelude::*;
use vstd::slice::slice_subrange;

verus! {

/// `pat` stands in `hay` at index `i`.
pub open spec fn matches_at(hay: Seq<u8>, pat: Seq<u8>, i: int) -> bool {
    &&& 0 <= i
    &&& i + pat.len() <= hay.len()
    &&& hay.subrange(i, i + pat.len()) =~= pat
}

/// The least index at or after `from` at which `pat` stands in `hay`.
pub open spec fn first_match_from(hay: Seq<u8>, pat: Seq<u8>, from: int) -> Option<int>
    decreases hay.len() - from,
{
    if from < 0 || from + pat.len() > hay.len() {
        None
    } else if matches_at(hay, pat, from) {
        Some(from)
    } else {
        first_match_from(hay, pat, from + 1)
    }
}

/// The least index at which `pat` stands in `hay`.
pub open spec fn first_match(hay: Seq<u8>, pat: Seq<u8>) -> Option<int> {
    first_match_from(hay, pat, 0)
}

/// `pat` stands somewhere in `hay`.
pub open spec fn occurs_in(hay: Seq<u8>, pat: Seq<u8>) -> bool {
    first_match(hay, pat) is Some
}

/// What `first_match_from` finds is a match, no match lies between `from` and
/// it, and where it finds nothing there is no match at or after `from`.
pub proof fn lemma_first_match_from(hay: Seq<u8>, pat: Seq<u8>, from: int)
    requires
        0 <= from,
    ensures
        match first_match_from(hay, pat, from) {
            Some(i) => from <= i && matches_at(hay, pat, i) && forall|j: int|
                from <= j < i ==> !matches_at(hay, pat, j),
            None => forall|j: int| from <= j ==> !matches_at(hay, pat, j),
        },
    decreases hay.len() - from,
{
    if from + pat.len() > hay.len() {
    } else if matches_at(hay, pat, from) {
    } else {
        lemma_first_match_from(hay, pat, from + 1);
    }
}

/// An index at which `pat` stands, with no match between `from` and it, is
/// what `first_match_from` finds.
pub proof fn lemma_first_match_is(hay: Seq<u8>, pat: Seq<u8>, from: int, i: int)
    requires
        0 <= from <= i,
        matches_at(hay, pat, i),
        forall|j: int| from <= j < i ==> !matches_at(hay, pat, j),
    ensures
        first_match_from(hay, pat, from) == Some(i),
    decreases i - from,
{
    if from < i {
        lemma_first_match_is(hay, pat, from + 1, i);
    }
}

/// A pattern of one byte stands where that byte stands.
pub proof fn lemma_byte_matches(hay: Seq<u8>, byte: u8, i: int)
    ensures
        matches_at(hay, seq![byte], i) <==> 0 <= i < hay.len() && hay[i] == byte,
{
    if 0 <= i < hay.len() {
        assert(hay.subrange(i, i + 1)[0] == hay[i]);
        if hay[i] == byte {
            assert(hay.subrange(i, i + 1) =~= seq![byte]);
        }
    }
}

/// A pattern occurs in a text exactly when it stands at some index of it.
pub proof fn lemma_occurs_in(hay: Seq<u8>, pat: Seq<u8>)
    ensures
        occurs_in(hay, pat) <==> exists|i: int| matches_at(hay, pat, i),
{
    lemma_first_match_from(hay, pat, 0);
    if occurs_in(hay, pat) {
        assert(matches_at(hay, pat, first_match(hay, pat)->0));
    }
}

/// Tells whether `pat` stands in `hay` at index `i`. A pattern that does not
/// fit between `i` and the end of `hay` does not stand there.
pub fn starts_at(hay: &[u8], pat: &[u8], i: usize) -> (r: bool)
    ensures
        r == matches_at(hay@, pat@, i as int),
{
    let n: usize = pat.len();
    let m: usize = hay.len();
    if n > m || i > m - n {
        return false;
    }
    let mut k: usize = 0;
    while k < n
        invariant
            n == pat@.len(),
            m == hay@.len(),
            i + n <= m,
            k <= n,
            forall|j: int| 0 <= j < k ==> hay@[i + j] == pat@[j],
        decreases n - k,
    {
        if hay[i + k] != pat[k] {
            proof {
                assert(hay@.subrange(i as int, i + pat@.len())[k as int] == hay@[i + k]);
            }
            return false;
        }
        k += 1;
    }
    true
}

/// Tells whether two byte strings are the same.
pub fn same_bytes(a: &[u8], b: &[u8]) -> (r: bool)
    ensures
        r == (a@ == b@),
{
    if a.len() != b.len() {
        return false;
    }
    let r = starts_at(a, b, 0);
    assert(a@.subrange(0, b@.len() as int) =~= a@);
    r
}

/// Finds the first index at or after `from` at which `pat` stands in `hay`.
pub fn find_from(hay: &[u8], pat: &[u8], from: usize) -> (r: Option<usize>)
    ensures
        match r {
            Some(i) => first_match_from(hay@, pat@, from as int) == Some(i as int) && from <= i
                && i + pat@.len() <= hay@.len(),
            None => first_match_from(hay@, pat@, from as int) is None,
        },
{
    if pat.len() > hay.len() || from > hay.len() - pat.len() {
        return None;
    }
    let last: usize = hay.len() - pat.len();
    let mut i: usize = from;
    loop
        invariant
            last == hay@.len() - pat@.len(),
            from <= i <= last,
            first_match_from(hay@, pat@, from as int) == first_match_from(hay@, pat@, i as int),
        decreases last - i,
    {
        if starts_at(hay, pat, i) {
            return Some(i);
        }
        if i == last {
            assert(first_match_from(hay@, pat@, i + 1) is None);
            return None;
        }
        i += 1;
    }
}

/// Finds the first index at which `pat` stands in `hay`.
pub fn find(hay: &[u8], pat: &[u8]) -> (r: Option<usize>)
    ensures
        match r {
            Some(i) => first_match(hay@, pat@) == Some(i as int) && i + pat@.len() <= hay@.len(),
            None => first_match(hay@, pat@) is None,
        },
{
    find_from(hay, pat, 0)
}

/// Tells whether `pat` occurs in `hay`.
pub fn contains(hay: &[u8], pat: &[u8]) -> (r: bool)
    ensures
        r == occurs_in(hay@, pat@),
{
    find_from(hay, pat, 0).is_some()
}

/// `text` up to the first occurrence of `stop`; all of it where `stop` does
/// not occur.
pub open spec fn up_to(text: Seq<u8>, stop: Seq<u8>) -> Seq<u8> {
    match first_match(text, stop) {
        Some(i) => text.subrange(0, i),
        None => text,
    }
}

/// Cuts `text` off at the first occurrence of `stop`.
pub fn take_up_to<'a>(text: &'a [u8], stop: &[u8]) -> (r: &'a [u8])
    ensures
        r@ == up_to(text@, stop@),
{
    match find(text, stop) {
        Some(i) => slice_subrange(text, 0, i),
        None => text,
    }
}

/// The pieces that `delim` separates in `text` from index `from` on, in
/// order. Occurrences are taken from left to right and do not overlap, so
/// there is one piece more than there are occurrences.
pub open spec fn pieces_from(text: Seq<u8>, delim: Seq<u8>, from: int) -> Seq<Seq<u8>>
    decreases text.len() - from,
{
    match first_match_from(text, delim, from) {
        Some(i) => if from <= i && delim.len() > 0 && i + delim.len() <= text.len() {
            seq![text.subrange(from, i)] + pieces_from(text, delim, i + delim.len())
        } else {
            seq![text.subrange(from, text.len() as int)]
        },
        None => seq![text.subrange(from, text.len() as int)],
    }
}

/// The pieces that a non-empty `delim` separates in `text`.
pub open spec fn split(text: Seq<u8>, delim: Seq<u8>) -> Seq<Seq<u8>> {
    pieces_from(text, delim, 0)
}

/// The line feed, as a pattern.
pub open spec fn line_feed() -> Seq<u8> {
    seq![0x0au8]
}

/// A line without the carriage return that stood before its line feed.
pub open spec fn without_cr(line: Seq<u8>) -> Seq<u8> {
    if line.len() > 0 && line.last() == 0x0du8 {
        line.drop_last()
    } else {
        line
    }
}

/// The lines of `text` from index `from` on. A line ends at a line feed, or
/// at a carriage return directly before one; the last line may lack its
/// ending, and nothing follows a final line ending.
pub open spec fn lines_from(text: Seq<u8>, from: int) -> Seq<Seq<u8>>
    decreases text.len() - from,
{
    if from < 0 || from >= text.len() {
        seq![]
    } else {
        match first_match_from(text, line_feed(), from) {
            Some(i) => if from <= i < text.len() {
                seq![without_cr(text.subrange(from, i))] + lines_from(text, i + 1)
            } else {
                seq![text.subrange(from, text.len() as int)]
            },
            None => seq![text.subrange(from, text.len() as int)],
        }
    }
}

/// The lines of `text`.
pub open spec fn lines(text: Seq<u8>) -> Seq<Seq<u8>> {
    lines_from(text, 0)
}

/// The first of `items` in which `pat` occurs.
pub open spec fn first_with(items: Seq<Seq<u8>>, pat: Seq<u8>) -> Option<Seq<u8>>
    decreases items.len(),
{
    if items.len() == 0 {
        None
    } else if occurs_in(items[0], pat) {
        Some(items[0])
    } else {
        first_with(items.drop_first(), pat)
    }
}

/// Drops the carriage return at the end of a line, if there is one.
pub fn strip_cr<'a>(line: &'a [u8]) -> (r: &'a [u8])
    ensures
        r@ == without_cr(line@),
{
    let n: usize = line.len();
    if n > 0 && line[n - 1] == 0x0d {
        slice_subrange(line, 0, n - 1)
    } else {
        line
    }
}

/// Finds the first line of `text` in which `pat` occurs.
pub fn first_line_with<'a>(text: &'a [u8], pat: &[u8]) -> (r: Option<&'a [u8]>)
    ensures
        match first_with(lines(text@), pat@) {
            Some(line) => r matches Some(found) && found@ == line,
            None => r is None,
        },
{
    let feed: [u8; 1] = [0x0a];
    let n: usize = text.len();
    let mut from: usize = 0;
    while from < n
        invariant
            n == text@.len(),
            from <= n,
            feed@ == line_feed(),
            first_with(lines(text@), pat@) == first_with(lines_from(text@, from as int), pat@),
        decreases n - from,
    {
        let hit = find_from(text, feed.as_slice(), from);
        let ghost rest: Seq<Seq<u8>> = match hit {
            Some(i) => lines_from(text@, i + 1),
            None => seq![],
        };
        let line: &[u8] = match hit {
            Some(i) => strip_cr(slice_subrange(text, from, i)),
            None => slice_subrange(text, from, n),
        };
        proof {
            assert(lines_from(text@, from as int) =~= seq![line@] + rest);
            assert((seq![line@] + rest).drop_first() =~= rest);
        }
        if contains(line, pat) {
            return Some(line);
        }
        match hit {
            Some(i) => {
                from = i + 1;
            },
            None => {
                assert(first_with(rest, pat@) is None);
                return None;
            },
        }
    }
    None
}

} // verus!
