//! Lexical paths.
//!
//! A path is a flag (does it start at the root?) and a sequence of names.
//! Reading a path from bytes drops empty names and `.`; `..` is kept as a
//! name, because what it means depends on the symlinks that precede it.
//! Nothing here touches the filesystem.

use crate::text::{bytes_eq, bytes_of, copy_bytes, deep, join_with, lit, split, split_bytes, Delim};
use crate::text::{lemma_run_len_is, lemma_split_pieces};
use vstd::prelude::*;
use vstd::std_specs::cmp::PartialEqSpecImpl;

verus! {

/// The byte that separates names in a path.
pub const SEPARATOR: u8 = 47;

/// The mathematical content of a path.
pub struct PathModel {
    /// Whether the path starts at the root.
    pub absolute: bool,
    /// The names, outermost first.
    pub parts: Seq<Seq<u8>>,
}

/// Whether `name` can stand between two separators: it is not empty, is not
/// `.`, and holds no separator.
pub open spec fn valid_part(name: Seq<u8>) -> bool {
    &&& name.len() > 0
    &&& name != seq![46u8]
    &&& forall|k: int| 0 <= k < name.len() ==> #[trigger] name[k] != SEPARATOR
}

/// The test that a piece between separators is kept as a name.
pub open spec fn is_name() -> spec_fn(Seq<u8>) -> bool {
    |piece: Seq<u8>| piece.len() > 0 && piece != seq![46u8]
}

/// The name `..`.
pub open spec fn dotdot() -> Seq<u8> {
    seq![46u8, 46u8]
}

/// The path that a byte string denotes.
pub open spec fn parse_path(s: Seq<u8>) -> PathModel {
    PathModel {
        absolute: s.len() > 0 && s[0] == SEPARATOR,
        parts: split(s, Delim::Byte(SEPARATOR)).filter(is_name()),
    }
}

/// The names of a path with separators between them.
pub open spec fn join_names(parts: Seq<Seq<u8>>) -> Seq<u8> {
    join_with(parts, SEPARATOR)
}

impl PathModel {
    /// The root directory.
    pub open spec fn root() -> PathModel {
        PathModel { absolute: true, parts: Seq::empty() }
    }

    /// Whether every name is valid.
    pub open spec fn wf(self) -> bool {
        forall|i: int| 0 <= i < self.parts.len() ==> valid_part(#[trigger] self.parts[i])
    }

    /// `self` followed by `other`; an absolute `other` replaces `self`.
    pub open spec fn join(self, other: PathModel) -> PathModel {
        if other.absolute {
            other
        } else {
            PathModel { absolute: self.absolute, parts: self.parts + other.parts }
        }
    }

    /// `self` with one more name at the end.
    pub open spec fn push(self, name: Seq<u8>) -> PathModel {
        PathModel { absolute: self.absolute, parts: self.parts.push(name) }
    }

    /// The path without its last name; the root and the empty path have none.
    pub open spec fn parent(self) -> Option<PathModel> {
        if self.parts.len() == 0 {
            None
        } else {
            Some(PathModel { absolute: self.absolute, parts: self.parts.drop_last() })
        }
    }

    /// The last name, unless there is none or it is `..`.
    pub open spec fn file_name(self) -> Option<Seq<u8>> {
        if self.parts.len() == 0 || self.parts.last() == dotdot() {
            None
        } else {
            Some(self.parts.last())
        }
    }

    /// Whether `base` is a leading part of `self`, name by name. The empty
    /// relative path leads every path; otherwise both must start alike.
    pub open spec fn starts_with(self, base: PathModel) -> bool {
        &&& base.parts.is_prefix_of(self.parts)
        &&& (base.absolute == self.absolute || (!base.absolute && base.parts.len() == 0))
    }

    /// What is left of `self` after `base`, where `base` leads `self`.
    pub open spec fn strip_prefix(self, base: PathModel) -> Option<PathModel> {
        if self.starts_with(base) {
            Some(
                PathModel {
                    absolute: self.absolute && !base.absolute,
                    parts: self.parts.skip(base.parts.len() as int),
                },
            )
        } else {
            None
        }
    }

    /// The place of `inner` below `self`: the names of `inner` after those
    /// of `self`, whether or not `inner` is absolute.
    pub open spec fn under(self, inner: PathModel) -> PathModel {
        PathModel { absolute: self.absolute, parts: self.parts + inner.parts }
    }

    /// The directory that holds this path, the root for a path that has none.
    pub open spec fn parent_or_root(self) -> PathModel {
        match self.parent() {
            Some(dir) => dir,
            None => PathModel::root(),
        }
    }

    /// The bytes that denote this path.
    pub open spec fn render(self) -> Seq<u8> {
        if self.absolute {
            seq![SEPARATOR] + join_names(self.parts)
        } else {
            join_names(self.parts)
        }
    }
}

/// Every name that reading keeps is valid.
pub proof fn lemma_parse_wf(s: Seq<u8>)
    ensures
        parse_path(s).wf(),
{
    let d = Delim::Byte(SEPARATOR);
    let pieces = split(s, d);
    let kept = pieces.filter(is_name());
    lemma_split_pieces(s, d);
    assert forall|i: int| 0 <= i < kept.len() implies valid_part(#[trigger] kept[i]) by {
        pieces.lemma_filter_pred(is_name(), i);
        assert(kept.contains(kept[i]));
        pieces.lemma_filter_contains_rev(is_name(), kept[i]);
        let j = choose|j: int| 0 <= j < pieces.len() && pieces[j] == kept[i];
        assert forall|k: int| 0 <= k < kept[i].len() implies #[trigger] kept[i][k]
            != SEPARATOR by {
            assert(!d.spec_matches(pieces[j][k]));
        }
    }
}

/// Splitting the joined names of a well-formed path gives the names back.
pub proof fn lemma_split_join(parts: Seq<Seq<u8>>)
    requires
        parts.len() > 0,
        forall|i: int| 0 <= i < parts.len() ==> valid_part(#[trigger] parts[i]),
    ensures
        split(join_names(parts), Delim::Byte(SEPARATOR)) == parts,
    decreases parts.len(),
{
    let d = Delim::Byte(SEPARATOR);
    let first = parts[0];
    assert(valid_part(first));
    if parts.len() == 1 {
        assert forall|k: int| 0 <= k < first.len() implies !d.spec_matches(#[trigger] first[k]) by {
            assert(first[k] != SEPARATOR);
        }
        lemma_run_len_is(first, d, first.len() as int);
        assert(split(first, d) =~= parts);
    } else {
        let rest = parts.skip(1);
        let s = join_names(parts);
        assert forall|i: int| 0 <= i < rest.len() implies valid_part(#[trigger] rest[i]) by {
            assert(rest[i] == parts[i + 1]);
        }
        lemma_split_join(rest);
        assert forall|k: int| 0 <= k < first.len() implies !d.spec_matches(#[trigger] s[k]) by {
            assert(s[k] == first[k]);
            assert(first[k] != SEPARATOR);
        }
        assert(s[first.len() as int] == SEPARATOR);
        lemma_run_len_is(s, d, first.len() as int);
        assert(s.take(first.len() as int) =~= first);
        assert(s.skip(first.len() as int + 1) =~= join_names(rest));
        assert(split(s, d) =~= seq![first] + rest);
        assert(seq![first] + rest =~= parts);
    }
}

/// Filtering a sequence of valid names keeps them all.
pub proof fn lemma_filter_valid(parts: Seq<Seq<u8>>)
    requires
        forall|i: int| 0 <= i < parts.len() ==> valid_part(#[trigger] parts[i]),
    ensures
        parts.filter(is_name()) == parts,
    decreases parts.len(),
{
    reveal(Seq::filter);
    if parts.len() > 0 {
        let front = parts.drop_last();
        assert forall|i: int| 0 <= i < front.len() implies valid_part(#[trigger] front[i]) by {
            assert(front[i] == parts[i]);
        }
        lemma_filter_valid(front);
        assert(valid_part(parts.last()));
        assert(front.push(parts.last()) =~= parts);
    }
}

/// The empty string splits into one empty piece, which is no name.
proof fn lemma_parse_empty()
    ensures
        split(Seq::<u8>::empty(), Delim::Byte(SEPARATOR)) == seq![Seq::<u8>::empty()],
        seq![Seq::<u8>::empty()].filter(is_name()) == Seq::<Seq<u8>>::empty(),
{
    let d = Delim::Byte(SEPARATOR);
    let empty = Seq::<u8>::empty();
    let none = Seq::<Seq<u8>>::empty();
    lemma_run_len_is(empty, d, 0);
    assert(split(empty, d) =~= seq![empty]);
    none.lemma_filter_push(empty, is_name());
    assert(none.push(empty) =~= seq![empty]);
    assert(none.filter(is_name()) =~= none) by {
        reveal(Seq::filter);
    }
}

/// A separator in front adds one empty piece in front.
proof fn lemma_split_leading_separator(rest: Seq<u8>)
    ensures
        split(seq![SEPARATOR] + rest, Delim::Byte(SEPARATOR)) == seq![Seq::<u8>::empty()] + split(
            rest,
            Delim::Byte(SEPARATOR),
        ),
{
    let d = Delim::Byte(SEPARATOR);
    let s = seq![SEPARATOR] + rest;
    lemma_run_len_is(s, d, 0);
    assert(s.take(0) =~= Seq::<u8>::empty());
    assert(s.skip(1) =~= rest);
}

/// Writing a well-formed path out and reading it back gives the same path.
pub proof fn lemma_parse_render(p: PathModel)
    requires
        p.wf(),
    ensures
        parse_path(p.render()) == p,
{
    let d = Delim::Byte(SEPARATOR);
    let empty = Seq::<u8>::empty();
    let none = Seq::<Seq<u8>>::empty();
    let joined = join_names(p.parts);
    lemma_filter_valid(p.parts);
    lemma_parse_empty();
    if p.parts.len() == 0 {
        assert(joined =~= empty);
    } else {
        lemma_split_join(p.parts);
        assert(valid_part(p.parts[0]));
        assert(joined.len() > 0 && joined[0] == p.parts[0][0]) by {
            if p.parts.len() > 1 {
                assert(joined == p.parts[0] + seq![SEPARATOR] + join_names(p.parts.skip(1)));
            }
        }
        assert(p.parts[0][0] != SEPARATOR);
    }
    let kept = split(joined, d).filter(is_name());
    assert(kept == p.parts);
    if p.absolute {
        let s = seq![SEPARATOR] + joined;
        lemma_split_leading_separator(joined);
        Seq::filter_distributes_over_add(seq![empty], split(joined, d), is_name());
        assert(none + kept =~= kept);
        assert(s[0] == SEPARATOR);
    }
}

/// A text that starts with a small letter denotes a relative path.
pub proof fn lemma_relative_text(s: &str)
    requires
        s@.len() > 0,
        'a' <= s@[0] <= 'z',
    ensures
        !parse_path(lit(s)).absolute,
{
    let v = s@[0] as u32;
    assert(0x61 <= v <= 0x7a);
    assert((v & 0x7F) == v) by (bit_vector)
        requires
            0x61 <= v <= 0x7a,
    ;
    let head = vstd::utf8::encode_scalar(v);
    assert(head[0] == v as u8);
    assert(lit(s) == head + vstd::utf8::encode_utf8(s@.drop_first()));
    assert(lit(s)[0] == head[0]);
}

/// A path joined with a relative path starts with itself.
pub proof fn lemma_join_starts(base: PathModel, rel: PathModel)
    requires
        !rel.absolute,
    ensures
        base.join(rel).starts_with(base),
{
    assert((base.parts + rel.parts).subrange(0, base.parts.len() as int) =~= base.parts);
}

/// The place of a path below another starts with that other path.
pub proof fn lemma_under_starts(base: PathModel, inner: PathModel)
    ensures
        base.under(inner).starts_with(base),
{
    assert((base.parts + inner.parts).subrange(0, base.parts.len() as int) =~= base.parts);
}

/// What starts with a path that starts with a third path starts with the
/// third.
pub proof fn lemma_starts_with_trans(a: PathModel, b: PathModel, c: PathModel)
    requires
        a.starts_with(b),
        b.starts_with(c),
    ensures
        a.starts_with(c),
{
    assert(a.parts.subrange(0, b.parts.len() as int) == b.parts);
    assert(b.parts.subrange(0, c.parts.len() as int) == c.parts);
    assert(a.parts.subrange(0, c.parts.len() as int) =~= c.parts);
}

/// The directory that holds a path at or below `base` lies at or below
/// `base`, or is the directory that holds `base` itself.
pub proof fn lemma_parent_near(base: PathModel, path: PathModel)
    requires
        path.starts_with(base),
    ensures
        path.parent_or_root().starts_with(base) || base.starts_with(path.parent_or_root()),
{
    let dir = path.parent_or_root();
    assert(path.parts.subrange(0, base.parts.len() as int) == base.parts);
    if path.parts.len() == 0 {
        assert(base.parts.len() == 0);
        assert(dir == PathModel::root());
        if base.absolute {
            assert(dir.parts =~= base.parts);
        } else {
            assert(base.parts.subrange(0, 0) =~= base.parts);
        }
    } else if path.parts.len() > base.parts.len() {
        assert(dir.parts.subrange(0, base.parts.len() as int) =~= base.parts);
    } else {
        assert(path.parts =~= base.parts);
        assert(base.parts.subrange(0, dir.parts.len() as int) =~= dir.parts);
        if base.absolute != path.absolute {
            assert(!base.absolute && base.parts.len() == 0);
        }
    }
}

/// An owned path on the host or inside the sandbox.
#[derive(Debug)]
pub struct HostPathBuf {
    absolute: bool,
    parts: Vec<Vec<u8>>,
}

impl View for HostPathBuf {
    type V = PathModel;

    closed spec fn view(&self) -> PathModel {
        PathModel { absolute: self.absolute, parts: deep(&self.parts) }
    }
}

impl Clone for HostPathBuf {
    fn clone(&self) -> (out: Self)
        ensures
            out@ == self@,
    {
        proof {
            use_type_invariant(self);
        }
        let mut parts: Vec<Vec<u8>> = Vec::new();
        let mut i: usize = 0;
        while i < self.parts.len()
            invariant
                i <= self.parts.len(),
                deep(&parts) == deep(&self.parts).take(i as int),
            decreases self.parts.len() - i,
        {
            let ghost before = deep(&parts);
            let name = copy_bytes(&self.parts[i]);
            parts.push(name);
            assert(deep(&parts) =~= before.push(name@));
            assert(deep(&self.parts).take(i + 1) =~= deep(&self.parts).take(i as int).push(
                self.parts@[i as int]@,
            ));
            i += 1;
        }
        assert(deep(&self.parts).take(self.parts.len() as int) =~= deep(&self.parts));
        HostPathBuf { absolute: self.absolute, parts }
    }
}

impl PartialEq for HostPathBuf {
    fn eq(&self, other: &Self) -> (same: bool) {
        if self.absolute != other.absolute || self.parts.len() != other.parts.len() {
            assert(self@ != other@) by {
                if self.absolute == other.absolute {
                    assert(self@.parts.len() != other@.parts.len());
                }
            }
            return false;
        }
        let mut i: usize = 0;
        while i < self.parts.len()
            invariant
                self.absolute == other.absolute,
                self.parts.len() == other.parts.len(),
                i <= self.parts.len(),
                forall|k: int| 0 <= k < i ==> self.parts@[k]@ == other.parts@[k]@,
            decreases self.parts.len() - i,
        {
            if !bytes_eq(&self.parts[i], &other.parts[i]) {
                assert(self@.parts[i as int] != other@.parts[i as int]);
                return false;
            }
            i += 1;
        }
        assert(self@.parts =~= other@.parts);
        true
    }
}

impl PartialEqSpecImpl for HostPathBuf {
    open spec fn obeys_eq_spec() -> bool {
        true
    }

    open spec fn eq_spec(&self, other: &Self) -> bool {
        self@ == other@
    }
}

impl Eq for HostPathBuf {

}

impl HostPathBuf {
    #[verifier::type_invariant]
    spec fn inv(self) -> bool {
        self@.wf()
    }

    /// Every path in hand is well formed; calling this tells the verifier so.
    pub fn well_formed(&self)
        ensures
            self@.wf(),
    {
        proof {
            use_type_invariant(self);
        }
    }

    /// The root directory.
    pub fn root() -> (out: Self)
        ensures
            out@ == PathModel::root(),
    {
        let parts: Vec<Vec<u8>> = Vec::new();
        assert(deep(&parts) =~= Seq::<Seq<u8>>::empty());
        HostPathBuf { absolute: true, parts }
    }

    /// Reads a path from bytes.
    pub fn from_bytes(s: &Vec<u8>) -> (out: Self)
        ensures
            out@ == parse_path(s@),
    {
        let pieces = split_bytes(s, Delim::Byte(SEPARATOR));
        let ghost all = deep(&pieces);
        let mut parts: Vec<Vec<u8>> = Vec::new();
        let mut i: usize = 0;
        assert(all.take(0) =~= Seq::<Seq<u8>>::empty());
        assert(deep(&parts) =~= Seq::<Seq<u8>>::empty());
        while i < pieces.len()
            invariant
                i <= pieces.len(),
                all == deep(&pieces),
                deep(&parts) == all.take(i as int).filter(is_name()),
            decreases pieces.len() - i,
        {
            let ghost before = deep(&parts);
            let piece = &pieces[i];
            proof {
                assert(all.take(i + 1) =~= all.take(i as int).push(all[i as int]));
                all.take(i as int).lemma_filter_push(all[i as int], is_name());
                assert(all[i as int] == piece@);
                if piece@.len() == 1 && piece@[0] == 46u8 {
                    assert(piece@ =~= seq![46u8]);
                }
            }
            if piece.len() > 0 && !(piece.len() == 1 && piece[0] == 46u8) {
                let name = copy_bytes(piece);
                parts.push(name);
                assert(deep(&parts) =~= before.push(name@));
            }
            i += 1;
        }
        assert(all.take(all.len() as int) =~= all);
        proof {
            lemma_parse_wf(s@);
        }
        HostPathBuf { absolute: s.len() > 0 && s[0] == SEPARATOR, parts }
    }

    /// Reads a path from text.
    pub fn new(s: &str) -> (out: Self)
        ensures
            out@ == parse_path(lit(s)),
    {
        let bytes = bytes_of(s);
        HostPathBuf::from_bytes(&bytes)
    }

    /// Writes the path out: a separator in front if it is absolute, then the
    /// names with a separator between each two.
    pub fn to_bytes(&self) -> (out: Vec<u8>)
        ensures
            out@ == self@.render(),
    {
        let mut out: Vec<u8> = Vec::new();
        if self.absolute {
            out.push(SEPARATOR);
        }
        let n = self.parts.len();
        let ghost head = out@;
        let ghost all = deep(&self.parts);
        let mut i: usize = n;
        let mut tail: Vec<u8> = Vec::new();
        assert(all.skip(n as int) =~= Seq::<Seq<u8>>::empty());
        while i > 0
            invariant
                i <= n,
                n == self.parts.len(),
                all == deep(&self.parts),
                tail@ == join_names(all.skip(i as int)),
            decreases i,
        {
            i -= 1;
            let mut next = copy_bytes(&self.parts[i]);
            proof {
                assert(all.skip(i as int).skip(1) =~= all.skip(i + 1));
                assert(all.skip(i as int)[0] == self.parts@[i as int]@);
            }
            if i + 1 < n {
                next.push(SEPARATOR);
                crate::text::append_bytes(&mut next, &tail);
                assert(next@ =~= all.skip(i as int)[0] + seq![SEPARATOR] + tail@);
            }
            tail = next;
        }
        assert(all.skip(0) =~= all);
        crate::text::append_bytes(&mut out, &tail);
        assert(out@ =~= self@.render());
        out
    }

    /// Whether the path starts at the root.
    pub fn is_absolute(&self) -> (yes: bool)
        ensures
            yes == self@.absolute,
    {
        self.absolute
    }

    /// The number of names.
    pub fn len(&self) -> (n: usize)
        ensures
            n == self@.parts.len(),
    {
        self.parts.len()
    }

    /// The name at position `i`.
    pub fn part(&self, i: usize) -> (name: &Vec<u8>)
        requires
            i < self@.parts.len(),
        ensures
            name@ == self@.parts[i as int],
    {
        &self.parts[i]
    }

    /// `self` followed by `other`; an absolute `other` replaces `self`.
    pub fn join(&self, other: &HostPathBuf) -> (out: Self)
        ensures
            out@ == self@.join(other@),
    {
        if other.absolute {
            return other.clone();
        }
        proof {
            use_type_invariant(self);
            use_type_invariant(other);
        }
        let mut out = self.clone();
        let mut parts: Vec<Vec<u8>> = out.parts;
        let mut i: usize = 0;
        assert(other@.parts.take(0) =~= Seq::<Seq<u8>>::empty());
        assert(deep(&parts) + Seq::<Seq<u8>>::empty() =~= deep(&parts));
        while i < other.parts.len()
            invariant
                i <= other.parts.len(),
                deep(&parts) == self@.parts + other@.parts.take(i as int),
            decreases other.parts.len() - i,
        {
            let ghost before = deep(&parts);
            let name = copy_bytes(&other.parts[i]);
            parts.push(name);
            assert(deep(&parts) =~= before.push(name@));
            assert(other@.parts.take(i + 1) =~= other@.parts.take(i as int).push(
                other.parts@[i as int]@,
            ));
            assert(deep(&parts) =~= self@.parts + other@.parts.take(i + 1));
            i += 1;
        }
        assert(other@.parts.take(other@.parts.len() as int) =~= other@.parts);
        assert(self@.join(other@).wf()) by {
            let joined = self@.parts + other@.parts;
            assert forall|k: int| 0 <= k < joined.len() implies valid_part(#[trigger] joined[k]) by {
                if k < self@.parts.len() {
                    assert(joined[k] == self@.parts[k]);
                } else {
                    assert(joined[k] == other@.parts[k - self@.parts.len()]);
                }
            }
        }
        HostPathBuf { absolute: self.absolute, parts }
    }

    /// `self` with one more name at the end.
    pub fn push_name(&self, name: &Vec<u8>) -> (out: Self)
        requires
            valid_part(name@),
        ensures
            out@ == self@.push(name@),
    {
        proof {
            use_type_invariant(self);
        }
        let copy = self.clone();
        let mut parts: Vec<Vec<u8>> = copy.parts;
        let ghost before = deep(&parts);
        let owned = copy_bytes(name);
        parts.push(owned);
        assert(deep(&parts) =~= before.push(name@));
        assert forall|k: int| 0 <= k < deep(&parts).len() implies valid_part(
            #[trigger] deep(&parts)[k],
        ) by {
            if k < before.len() {
                assert(deep(&parts)[k] == self@.parts[k]);
            }
        }
        HostPathBuf { absolute: self.absolute, parts }
    }

    /// The place of `inner` below `self`, whether or not `inner` is absolute.
    pub fn under(&self, inner: &HostPathBuf) -> (out: Self)
        ensures
            out@ == self@.under(inner@),
    {
        let relative = inner.suffix(0, false);
        assert(inner@.parts.skip(0) =~= inner@.parts);
        self.join(&relative)
    }

    /// The directory that holds this path, the root for a path that has none.
    pub fn parent_or_root(&self) -> (out: Self)
        ensures
            out@ == self@.parent_or_root(),
    {
        match self.parent() {
            Some(dir) => dir,
            None => HostPathBuf::root(),
        }
    }

    /// `self` followed by the path that `s` denotes.
    pub fn join_str(&self, s: &str) -> (out: Self)
        ensures
            out@ == self@.join(parse_path(lit(s))),
    {
        let other = HostPathBuf::new(s);
        self.join(&other)
    }

    /// `self` followed by the path that `s` denotes.
    pub fn join_bytes(&self, s: &Vec<u8>) -> (out: Self)
        ensures
            out@ == self@.join(parse_path(s@)),
    {
        let other = HostPathBuf::from_bytes(s);
        self.join(&other)
    }

    /// The first `n` names of `self`, starting where `self` starts.
    pub fn prefix(&self, n: usize) -> (out: Self)
        requires
            n <= self@.parts.len(),
        ensures
            out@ == (PathModel { absolute: self@.absolute, parts: self@.parts.take(n as int) }),
    {
        proof {
            use_type_invariant(self);
        }
        let mut parts: Vec<Vec<u8>> = Vec::new();
        let mut i: usize = 0;
        assert(deep(&parts) =~= self@.parts.take(0));
        while i < n
            invariant
                i <= n <= self.parts.len(),
                deep(&parts) == self@.parts.take(i as int),
            decreases n - i,
        {
            let ghost before = deep(&parts);
            let name = copy_bytes(&self.parts[i]);
            parts.push(name);
            assert(deep(&parts) =~= before.push(name@));
            assert(self@.parts.take(i + 1) =~= self@.parts.take(i as int).push(
                self.parts@[i as int]@,
            ));
            i += 1;
        }
        assert forall|k: int| 0 <= k < n implies valid_part(
            #[trigger] self@.parts.take(n as int)[k],
        ) by {
            assert(self@.parts.take(n as int)[k] == self@.parts[k]);
        }
        HostPathBuf { absolute: self.absolute, parts }
    }

    /// The names of `self` from position `n` on, as a relative path unless
    /// `keep_root` is set and `self` is absolute.
    pub fn suffix(&self, n: usize, keep_root: bool) -> (out: Self)
        requires
            n <= self@.parts.len(),
        ensures
            out@ == (PathModel {
                absolute: self@.absolute && keep_root,
                parts: self@.parts.skip(n as int),
            }),
    {
        proof {
            use_type_invariant(self);
        }
        let mut parts: Vec<Vec<u8>> = Vec::new();
        let mut i: usize = n;
        assert(deep(&parts) =~= self@.parts.subrange(n as int, n as int));
        while i < self.parts.len()
            invariant
                n <= i <= self.parts.len(),
                deep(&parts) == self@.parts.subrange(n as int, i as int),
            decreases self.parts.len() - i,
        {
            let ghost before = deep(&parts);
            let name = copy_bytes(&self.parts[i]);
            parts.push(name);
            assert(deep(&parts) =~= before.push(name@));
            assert(self@.parts.subrange(n as int, i + 1) =~= self@.parts.subrange(
                n as int,
                i as int,
            ).push(self.parts@[i as int]@));
            i += 1;
        }
        assert(self@.parts.subrange(n as int, self@.parts.len() as int) =~= self@.parts.skip(
            n as int,
        ));
        assert forall|k: int| 0 <= k < self@.parts.len() - n implies valid_part(
            #[trigger] self@.parts.skip(n as int)[k],
        ) by {
            assert(self@.parts.skip(n as int)[k] == self@.parts[k + n]);
        }
        HostPathBuf { absolute: self.absolute && keep_root, parts }
    }

    /// The path without its last name; the root and the empty path have none.
    pub fn parent(&self) -> (out: Option<Self>)
        ensures
            match out {
                Some(p) => self@.parent() == Some(p@),
                None => self@.parent().is_none(),
            },
    {
        let n = self.parts.len();
        if n == 0 {
            None
        } else {
            let p = self.prefix(n - 1);
            assert(self@.parts.take(n - 1) =~= self@.parts.drop_last());
            Some(p)
        }
    }

    /// The last name, unless there is none or it is `..`.
    pub fn file_name(&self) -> (out: Option<Vec<u8>>)
        ensures
            match out {
                Some(name) => self@.file_name() == Some(name@),
                None => self@.file_name().is_none(),
            },
    {
        let n = self.parts.len();
        if n == 0 {
            return None;
        }
        let last = &self.parts[n - 1];
        assert(last@ == self@.parts.last());
        if last.len() == 2 && last[0] == 46u8 && last[1] == 46u8 {
            assert(last@ =~= dotdot());
            None
        } else {
            Some(copy_bytes(last))
        }
    }

    /// Whether `base` is a leading part of `self`, name by name.
    pub fn starts_with(&self, base: &HostPathBuf) -> (yes: bool)
        ensures
            yes == self@.starts_with(base@),
    {
        if base.absolute != self.absolute && (base.absolute || base.parts.len() > 0) {
            return false;
        }
        if base.parts.len() > self.parts.len() {
            return false;
        }
        let mut i: usize = 0;
        while i < base.parts.len()
            invariant
                i <= base.parts.len() <= self.parts.len(),
                forall|k: int| 0 <= k < i ==> self@.parts[k] == base@.parts[k],
            decreases base.parts.len() - i,
        {
            if !bytes_eq(&self.parts[i], &base.parts[i]) {
                assert(self@.parts[i as int] != base@.parts[i as int]);
                return false;
            }
            i += 1;
        }
        assert(base@.parts.is_prefix_of(self@.parts)) by {
            assert(self@.parts.subrange(0, base@.parts.len() as int) =~= base@.parts);
        }
        true
    }

    /// What is left of `self` after `base`, where `base` leads `self`.
    pub fn strip_prefix(&self, base: &HostPathBuf) -> (out: Option<Self>)
        ensures
            match out {
                Some(p) => self@.strip_prefix(base@) == Some(p@),
                None => self@.strip_prefix(base@).is_none(),
            },
    {
        if self.starts_with(base) {
            Some(self.suffix(base.parts.len(), !base.absolute))
        } else {
            None
        }
    }
}

} // verus!
