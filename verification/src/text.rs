//! Byte-string helpers shared by the parsers and planners.
//!
//! Everything the sandbox reads from the host (paths, environment records,
//! pidfiles, `tmpfiles.d` lines) is raw bytes, so the helpers here work on
//! `Vec<u8>` and speak of `Seq<u8>` in their contracts.

use vstd::prelude::*;
use vstd::string::StringSliceAdditionalSpecFns;

verus! {

/// The bytes of a piece of text.
pub open spec fn lit(s: &str) -> Seq<u8> {
    s.spec_bytes()
}

/// Copies the bytes of a piece of text into a fresh vector.
pub fn bytes_of(s: &str) -> (out: Vec<u8>)
    ensures
        out@ == lit(s),
{
    let src = s.as_bytes();
    let mut out: Vec<u8> = Vec::new();
    let mut i: usize = 0;
    while i < src.len()
        invariant
            i <= src@.len(),
            src@ == lit(s),
            out@ == src@.take(i as int),
        decreases src@.len() - i,
    {
        out.push(src[i]);
        assert(src@.take(i + 1) =~= src@.take(i as int).push(src@[i as int]));
        i += 1;
    }
    assert(src@.take(src@.len() as int) =~= src@);
    out
}

/// Whether two byte strings hold the same bytes.
pub fn bytes_eq(a: &Vec<u8>, b: &Vec<u8>) -> (same: bool)
    ensures
        same == (a@ == b@),
{
    if a.len() != b.len() {
        return false;
    }
    let mut i: usize = 0;
    while i < a.len()
        invariant
            a.len() == b.len(),
            i <= a.len(),
            forall|k: int| 0 <= k < i ==> a@[k] == b@[k],
        decreases a.len() - i,
    {
        if a[i] != b[i] {
            return false;
        }
        i += 1;
    }
    assert(a@ =~= b@);
    true
}

/// Whether a byte string equals a piece of text.
pub fn bytes_eq_str(a: &Vec<u8>, s: &str) -> (same: bool)
    ensures
        same == (a@ == lit(s)),
{
    let b = s.as_bytes();
    if a.len() != b.len() {
        return false;
    }
    let mut i: usize = 0;
    while i < a.len()
        invariant
            a.len() == b@.len(),
            b@ == lit(s),
            i <= a.len(),
            forall|k: int| 0 <= k < i ==> a@[k] == b@[k],
        decreases a.len() - i,
    {
        if a[i] != b[i] {
            return false;
        }
        i += 1;
    }
    assert(a@ =~= b@);
    true
}

/// A fresh copy of the bytes in `a[from..to]`.
pub fn copy_range(a: &Vec<u8>, from: usize, to: usize) -> (out: Vec<u8>)
    requires
        from <= to <= a.len(),
    ensures
        out@ == a@.subrange(from as int, to as int),
{
    let mut out: Vec<u8> = Vec::new();
    let mut i: usize = from;
    while i < to
        invariant
            from <= i <= to <= a.len(),
            out@ == a@.subrange(from as int, i as int),
        decreases to - i,
    {
        out.push(a[i]);
        assert(a@.subrange(from as int, i + 1) =~= a@.subrange(from as int, i as int).push(
            a@[i as int],
        ));
        i += 1;
    }
    out
}

/// A fresh copy of a byte string.
pub fn copy_bytes(a: &Vec<u8>) -> (out: Vec<u8>)
    ensures
        out@ == a@,
{
    let out = copy_range(a, 0, a.len());
    assert(a@.subrange(0, a@.len() as int) =~= a@);
    out
}

/// Appends `src` to `dst`.
pub fn append_bytes(dst: &mut Vec<u8>, src: &Vec<u8>)
    ensures
        final(dst)@ == old(dst)@ + src@,
{
    let mut i: usize = 0;
    while i < src.len()
        invariant
            i <= src.len(),
            dst@ == old(dst)@ + src@.take(i as int),
        decreases src.len() - i,
    {
        dst.push(src[i]);
        assert(src@.take(i + 1) =~= src@.take(i as int).push(src@[i as int]));
        i += 1;
    }
    assert(src@.take(src@.len() as int) =~= src@);
}

/// Appends a piece of text to `dst`.
pub fn append_str(dst: &mut Vec<u8>, s: &str)
    ensures
        final(dst)@ == old(dst)@ + lit(s),
{
    let src = bytes_of(s);
    append_bytes(dst, &src);
}

/// Whether `b` is whitespace that is trimmed from the ends of a line: a
/// space, or one of the control characters from tab to carriage return.
pub open spec fn is_space(b: u8) -> bool {
    b == 0x20 || (0x09 <= b <= 0x0d)
}

/// `s` without the whitespace in front.
pub open spec fn trim_start(s: Seq<u8>) -> Seq<u8>
    decreases s.len(),
{
    if s.len() > 0 && is_space(s[0]) {
        trim_start(s.skip(1))
    } else {
        s
    }
}

/// `s` without the whitespace at the end.
pub open spec fn trim_end(s: Seq<u8>) -> Seq<u8>
    decreases s.len(),
{
    if s.len() > 0 && is_space(s.last()) {
        trim_end(s.drop_last())
    } else {
        s
    }
}

/// `s` without the whitespace around it.
pub open spec fn trim(s: Seq<u8>) -> Seq<u8> {
    trim_end(trim_start(s))
}

/// Whitespace in front does not change what is left after trimming.
pub proof fn lemma_trim_start_skip(s: Seq<u8>, n: int)
    requires
        0 <= n <= s.len(),
        forall|k: int| 0 <= k < n ==> is_space(#[trigger] s[k]),
    ensures
        trim_start(s) == trim_start(s.skip(n)),
    decreases n,
{
    if n == 0 {
        assert(s.skip(0) =~= s);
    } else {
        assert(is_space(s[0]));
        assert forall|k: int| 0 <= k < n - 1 implies is_space(#[trigger] s.skip(1)[k]) by {
            assert(s.skip(1)[k] == s[k + 1]);
        }
        lemma_trim_start_skip(s.skip(1), n - 1);
        assert(s.skip(1).skip(n - 1) =~= s.skip(n));
    }
}

/// Whitespace at the end does not change what is left after trimming.
pub proof fn lemma_trim_end_take(s: Seq<u8>, n: int)
    requires
        0 <= n <= s.len(),
        forall|k: int| n <= k < s.len() ==> is_space(#[trigger] s[k]),
    ensures
        trim_end(s) == trim_end(s.take(n)),
    decreases s.len() - n,
{
    if n == s.len() {
        assert(s.take(n) =~= s);
    } else {
        assert(is_space(s[s.len() - 1]));
        assert forall|k: int| n <= k < s.len() - 1 implies is_space(#[trigger] s.drop_last()[k]) by {
            assert(s.drop_last()[k] == s[k]);
        }
        lemma_trim_end_take(s.drop_last(), n);
        assert(s.drop_last().take(n) =~= s.take(n));
    }
}

/// A string that neither starts nor ends with whitespace is its own trim.
pub proof fn lemma_trim_nothing(s: Seq<u8>)
    requires
        s.len() == 0 || (!is_space(s[0]) && !is_space(s.last())),
    ensures
        trim(s) == s,
{
}

/// Whether `b` is whitespace that is trimmed from the ends of a line.
pub fn is_space_byte(b: u8) -> (yes: bool)
    ensures
        yes == is_space(b),
{
    b == 0x20 || (0x09 <= b && b <= 0x0d)
}

/// A copy of `s` without the whitespace around it.
pub fn trim_bytes(s: &Vec<u8>) -> (out: Vec<u8>)
    ensures
        out@ == trim(s@),
{
    let mut start: usize = 0;
    while start < s.len() && is_space_byte(s[start])
        invariant
            start <= s.len(),
            forall|k: int| 0 <= k < start ==> is_space(#[trigger] s@[k]),
        decreases s.len() - start,
    {
        start += 1;
    }
    let ghost front = s@.skip(start as int);
    proof {
        lemma_trim_start_skip(s@, start as int);
        if start < s.len() {
            assert(front[0] == s@[start as int]);
        }
        assert(trim_start(s@) == front);
    }
    let mut stop: usize = s.len();
    while stop > start && is_space_byte(s[stop - 1])
        invariant
            start <= stop <= s.len(),
            front == s@.skip(start as int),
            forall|k: int| stop - start <= k < front.len() ==> is_space(#[trigger] front[k]),
        decreases stop,
    {
        stop -= 1;
    }
    proof {
        lemma_trim_end_take(front, stop - start);
        if stop > start {
            assert(front.take(stop - start).last() == s@[stop - 1]);
        }
        assert(front.take(stop - start) =~= s@.subrange(start as int, stop as int));
    }
    copy_range(s, start, stop)
}

/// Whether `s` starts with the bytes of `prefix`.
pub open spec fn starts_with(s: Seq<u8>, prefix: Seq<u8>) -> bool {
    prefix.len() <= s.len() && s.take(prefix.len() as int) == prefix
}

/// Whether `s` starts with the text `prefix`.
pub fn starts_with_str(s: &Vec<u8>, prefix: &str) -> (yes: bool)
    ensures
        yes == starts_with(s@, lit(prefix)),
{
    let p = prefix.as_bytes();
    if p.len() > s.len() {
        return false;
    }
    let mut i: usize = 0;
    while i < p.len()
        invariant
            i <= p@.len() <= s.len(),
            p@ == lit(prefix),
            forall|k: int| 0 <= k < i ==> s@[k] == p@[k],
        decreases p@.len() - i,
    {
        if s[i] != p[i] {
            assert(s@.take(p@.len() as int)[i as int] != p@[i as int]);
            return false;
        }
        i += 1;
    }
    assert(s@.take(p@.len() as int) =~= p@);
    true
}

/// The byte strings that a vector of byte vectors holds.
pub open spec fn deep(v: &Vec<Vec<u8>>) -> Seq<Seq<u8>> {
    Seq::new(v@.len(), |i: int| v@[i]@)
}

/// What separates the pieces of a byte string.
#[derive(Clone, Copy, Debug, PartialEq, Eq, Structural)]
pub enum Delim {
    /// One particular byte.
    Byte(u8),
    /// Space, tab, line feed, form feed or carriage return.
    AsciiWhitespace,
}

/// Whether `b` is one of the five ASCII whitespace bytes.
pub open spec fn is_ascii_whitespace(b: u8) -> bool {
    b == 0x20 || b == 0x09 || b == 0x0a || b == 0x0c || b == 0x0d
}

impl Delim {
    /// Whether `b` is a separator.
    pub open spec fn spec_matches(self, b: u8) -> bool {
        match self {
            Delim::Byte(sep) => b == sep,
            Delim::AsciiWhitespace => is_ascii_whitespace(b),
        }
    }

    /// Whether `b` is a separator.
    pub fn matches(self, b: u8) -> (hit: bool)
        ensures
            hit == self.spec_matches(b),
    {
        match self {
            Delim::Byte(sep) => b == sep,
            Delim::AsciiWhitespace => b == 0x20 || b == 0x09 || b == 0x0a || b == 0x0c || b
                == 0x0d,
        }
    }
}

/// The number of leading bytes of `s` that are not separators.
pub open spec fn run_len(s: Seq<u8>, d: Delim) -> nat
    decreases s.len(),
{
    if s.len() == 0 || d.spec_matches(s[0]) {
        0
    } else {
        1 + run_len(s.skip(1), d)
    }
}

/// The pieces of `s` between separators, empty pieces included: a string with
/// `n` separators has `n + 1` pieces.
pub open spec fn split(s: Seq<u8>, d: Delim) -> Seq<Seq<u8>>
    decreases s.len(),
{
    let n = run_len(s, d) as int;
    if n >= s.len() {
        seq![s]
    } else {
        seq![s.take(n)] + split(s.skip(n + 1), d)
    }
}

/// The test that a piece holds at least one byte.
pub open spec fn non_empty() -> spec_fn(Seq<u8>) -> bool {
    |piece: Seq<u8>| piece.len() > 0
}

/// The non-empty pieces of `s` between separators.
pub open spec fn fields(s: Seq<u8>, d: Delim) -> Seq<Seq<u8>> {
    split(s, d).filter(non_empty())
}

/// The pieces of `s` that a separator terminates, followed by what is left
/// after the last separator if that is not empty.
pub open spec fn records(s: Seq<u8>, d: Delim) -> Seq<Seq<u8>> {
    let pieces = split(s, d);
    if pieces.last().len() == 0 {
        pieces.drop_last()
    } else {
        pieces
    }
}

/// `run_len` never runs past the end, stops on a separator, and skips none.
pub proof fn lemma_run_len(s: Seq<u8>, d: Delim)
    ensures
        run_len(s, d) <= s.len(),
        run_len(s, d) < s.len() ==> d.spec_matches(s[run_len(s, d) as int]),
        forall|k: int| 0 <= k < run_len(s, d) ==> !d.spec_matches(#[trigger] s[k]),
    decreases s.len(),
{
    if s.len() == 0 || d.spec_matches(s[0]) {
    } else {
        lemma_run_len(s.skip(1), d);
        assert forall|k: int| 0 <= k < run_len(s, d) implies !d.spec_matches(#[trigger] s[k]) by {
            if k > 0 {
                assert(s[k] == s.skip(1)[k - 1]);
            }
        }
    }
}

/// A stretch without separators that ends at a separator or at the end is the
/// run that `run_len` measures.
pub proof fn lemma_run_len_is(s: Seq<u8>, d: Delim, n: int)
    requires
        0 <= n <= s.len(),
        forall|k: int| 0 <= k < n ==> !d.spec_matches(#[trigger] s[k]),
        n < s.len() ==> d.spec_matches(s[n]),
    ensures
        run_len(s, d) == n,
    decreases s.len(),
{
    if s.len() == 0 || d.spec_matches(s[0]) {
        if n > 0 {
            assert(!d.spec_matches(s[0]));
        }
    } else {
        assert(n > 0);
        assert forall|k: int| 0 <= k < n - 1 implies !d.spec_matches(
            #[trigger] s.skip(1)[k],
        ) by {
            assert(s.skip(1)[k] == s[k + 1]);
        }
        lemma_run_len_is(s.skip(1), d, n - 1);
    }
}

/// No piece of a split holds a separator, and there is at least one piece.
pub proof fn lemma_split_pieces(s: Seq<u8>, d: Delim)
    ensures
        split(s, d).len() >= 1,
        forall|i: int, k: int|
            0 <= i < split(s, d).len() && 0 <= k < split(s, d)[i].len() ==> !d.spec_matches(
                #[trigger] split(s, d)[i][k],
            ),
    decreases s.len(),
{
    lemma_run_len(s, d);
    let n = run_len(s, d) as int;
    if n >= s.len() {
    } else {
        let rest = split(s.skip(n + 1), d);
        lemma_split_pieces(s.skip(n + 1), d);
        assert forall|i: int, k: int|
            0 <= i < split(s, d).len() && 0 <= k < split(s, d)[i].len() implies !d.spec_matches(
            #[trigger] split(s, d)[i][k],
        ) by {
            if i == 0 {
                assert(split(s, d)[0] == s.take(n));
                assert(s.take(n)[k] == s[k]);
            } else {
                assert(split(s, d)[i] == rest[i - 1]);
            }
        }
    }
}

/// Splits `s` at every separator, keeping empty pieces.
pub fn split_bytes(s: &Vec<u8>, d: Delim) -> (out: Vec<Vec<u8>>)
    ensures
        deep(&out) == split(s@, d),
{
    let mut out: Vec<Vec<u8>> = Vec::new();
    let mut start: usize = 0;
    let mut done = false;
    assert(s@.skip(0) =~= s@);
    assert(deep(&out) =~= Seq::<Seq<u8>>::empty());
    while !done
        invariant
            start <= s.len(),
            !done ==> deep(&out) + split(s@.skip(start as int), d) == split(s@, d),
            done ==> deep(&out) == split(s@, d),
        decreases s.len() - start + (if done { 0int } else { 1int }),
    {
        let mut end: usize = start;
        while end < s.len() && !d.matches(s[end])
            invariant
                start <= end <= s.len(),
                forall|k: int| start <= k < end ==> !d.spec_matches(#[trigger] s@[k]),
            decreases s.len() - end,
        {
            end += 1;
        }
        let ghost rest = s@.skip(start as int);
        proof {
            assert forall|k: int| 0 <= k < end - start implies !d.spec_matches(
                #[trigger] rest[k],
            ) by {
                assert(rest[k] == s@[start + k]);
            }
            if end < s.len() {
                assert(rest[end - start] == s@[end as int]);
            }
            lemma_run_len_is(rest, d, end - start);
        }
        let piece = copy_range(s, start, end);
        let ghost before = deep(&out);
        out.push(piece);
        proof {
            assert(rest.take(end - start) =~= s@.subrange(start as int, end as int));
            assert(deep(&out) =~= before.push(piece@));
        }
        if end < s.len() {
            proof {
                assert(rest.skip(end - start + 1) =~= s@.skip(end + 1));
                assert(split(rest, d) == seq![rest.take(end - start)] + split(
                    rest.skip(end - start + 1),
                    d,
                ));
                assert(before.push(piece@) + split(s@.skip(end + 1), d) =~= before + split(
                    rest,
                    d,
                ));
            }
            start = end + 1;
        } else {
            proof {
                assert(rest.take(end - start) =~= rest);
                assert(split(rest, d) == seq![rest]);
                assert(before.push(piece@) =~= before + split(rest, d));
            }
            done = true;
        }
    }
    out
}

/// Drops the empty pieces from `pieces`.
pub fn drop_empty(pieces: Vec<Vec<u8>>) -> (out: Vec<Vec<u8>>)
    ensures
        deep(&out) == deep(&pieces).filter(non_empty()),
{
    let ghost all = deep(&pieces);
    let mut out: Vec<Vec<u8>> = Vec::new();
    let mut i: usize = 0;
    assert(all.take(0) =~= Seq::<Seq<u8>>::empty());
    assert(deep(&out) =~= Seq::<Seq<u8>>::empty());
    while i < pieces.len()
        invariant
            i <= pieces.len(),
            all == deep(&pieces),
            deep(&out) == all.take(i as int).filter(non_empty()),
        decreases pieces.len() - i,
    {
        let ghost before = deep(&out);
        proof {
            assert(all.take(i + 1) =~= all.take(i as int).push(all[i as int]));
            assert(all.take(i + 1).drop_last() =~= all.take(i as int));
            reveal(Seq::filter);
            assert(all[i as int] == pieces@[i as int]@);
            assert(all.take(i + 1).filter(non_empty()) == if non_empty()(all[i as int]) {
                all.take(i as int).filter(non_empty()).push(all[i as int])
            } else {
                all.take(i as int).filter(non_empty())
            });
        }
        if pieces[i].len() > 0 {
            let piece = copy_bytes(&pieces[i]);
            out.push(piece);
            assert(deep(&out) =~= before.push(piece@));
        }
        i += 1;
    }
    assert(all.take(all.len() as int) =~= all);
    out
}

/// The non-empty pieces of `s` between separators.
pub fn fields_of(s: &Vec<u8>, d: Delim) -> (out: Vec<Vec<u8>>)
    ensures
        deep(&out) == fields(s@, d),
{
    drop_empty(split_bytes(s, d))
}

/// The pieces of `s` that a separator terminates, and a last unterminated
/// piece if it is not empty.
pub fn records_of(s: &Vec<u8>, d: Delim) -> (out: Vec<Vec<u8>>)
    ensures
        deep(&out) == records(s@, d),
{
    let mut out = split_bytes(s, d);
    proof {
        lemma_split_pieces(s@, d);
    }
    let n = out.len();
    let ghost before = deep(&out);
    assert(before.last() == out@[n - 1]@);
    if out[n - 1].len() == 0 {
        out.pop();
        assert(deep(&out) =~= before.drop_last());
    }
    out
}

/// The pieces with the byte `sep` between each two.
pub open spec fn join_with(pieces: Seq<Seq<u8>>, sep: u8) -> Seq<u8>
    decreases pieces.len(),
{
    if pieces.len() == 0 {
        Seq::empty()
    } else if pieces.len() == 1 {
        pieces[0]
    } else {
        pieces[0] + seq![sep] + join_with(pieces.skip(1), sep)
    }
}

/// Splitting at a byte loses nothing: the pieces, with the byte between
/// them again, are the string that was split. With [`lemma_split_pieces`],
/// this says what the pieces are: the only way to cut the string at every
/// separator.
pub proof fn lemma_join_split(s: Seq<u8>, sep: u8)
    ensures
        join_with(split(s, Delim::Byte(sep)), sep) == s,
    decreases s.len(),
{
    let d = Delim::Byte(sep);
    lemma_run_len(s, d);
    let n = run_len(s, d) as int;
    if n < s.len() {
        let rest = split(s.skip(n + 1), d);
        lemma_join_split(s.skip(n + 1), sep);
        lemma_split_pieces(s.skip(n + 1), d);
        let pieces = seq![s.take(n)] + rest;
        assert(pieces.skip(1) =~= rest);
        assert(pieces[0] == s.take(n));
        assert(s[n] == sep);
        assert(s.take(n) + seq![sep] + s.skip(n + 1) =~= s);
    }
}

} // verus!
