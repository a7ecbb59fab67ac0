//! Symlink resolution across the guest mapping.
//!
//! The sandbox shows the host directory `host_prefix` at `guest_prefix`
//! (conventionally `/nix`). Links inside the store are written for the guest:
//! their text starts with the guest prefix. Resolving such a path on the host
//! means walking it name by name and, whenever a link is followed, putting
//! the host prefix in place of the guest prefix before going on.

use crate::path::{dotdot, HostPathBuf, PathModel};
use crate::snapshot::{Node, NodeModel, Snapshot};
use vstd::prelude::*;

verus! {

/// How many links one resolution may follow before it gives up.
pub const MAX_LINKS: usize = 40;

/// How a resolution ends.
#[derive(Debug, PartialEq, Eq)]
pub enum Resolution {
    /// The path denotes this place on the host.
    Found(HostPathBuf),
    /// Some name on the way does not exist.
    NotFound,
    /// A look at the filesystem failed, or the links do not end.
    Io,
    /// The snapshot says nothing of this path; record it and ask again.
    Need(HostPathBuf),
}

/// The mathematical content of a [`Resolution`].
pub enum Outcome {
    Found(PathModel),
    NotFound,
    Io,
    Need(PathModel),
}

impl View for Resolution {
    type V = Outcome;

    open spec fn view(&self) -> Outcome {
        match self {
            Resolution::Found(p) => Outcome::Found(p@),
            Resolution::NotFound => Outcome::NotFound,
            Resolution::Io => Outcome::Io,
            Resolution::Need(p) => Outcome::Need(p@),
        }
    }
}

/// The absolute path with the given names.
pub open spec fn rooted(parts: Seq<Seq<u8>>) -> PathModel {
    PathModel { absolute: true, parts }
}

/// `p` with the host prefix in place of the guest prefix, where `p` starts
/// with the guest prefix; else `p`.
pub open spec fn rebase(guest: PathModel, host: PathModel, p: PathModel) -> PathModel {
    match p.strip_prefix(guest) {
        Some(rest) => host.join(rest),
        None => p,
    }
}

/// Walks `pending` from the directory `done`, which holds no links. Each name is
/// looked up in `fs` without following links; a link's text is joined to the
/// directory that holds the link, rebased, and walked from the root. `hops`
/// bounds the links that may still be followed.
pub open spec fn walk(
    fs: Map<PathModel, NodeModel>,
    guest: PathModel,
    host: PathModel,
    done: Seq<Seq<u8>>,
    pending: Seq<Seq<u8>>,
    hops: nat,
) -> Outcome
    decreases hops, pending.len(),
{
    if pending.len() == 0 {
        Outcome::Found(rooted(done))
    } else if pending[0] == dotdot() {
        let up = if done.len() > 0 {
            done.drop_last()
        } else {
            done
        };
        walk(fs, guest, host, up, pending.skip(1), hops)
    } else {
        let here = rooted(done.push(pending[0]));
        if !fs.dom().contains(here) {
            Outcome::Need(here)
        } else {
            match fs[here] {
                NodeModel::Missing => Outcome::NotFound,
                NodeModel::Unreadable => Outcome::Io,
                NodeModel::Dir => walk(fs, guest, host, done.push(pending[0]), pending.skip(1), hops),
                NodeModel::File | NodeModel::Other => if pending.len() == 1 {
                    Outcome::Found(here)
                } else {
                    Outcome::NotFound
                },
                NodeModel::Symlink(text) => if hops == 0 {
                    Outcome::Io
                } else {
                    let next = rebase(guest, host, rooted(done).join(text));
                    walk(
                        fs,
                        guest,
                        host,
                        Seq::empty(),
                        next.parts + pending.skip(1),
                        (hops - 1) as nat,
                    )
                },
            }
        }
    }
}

/// What `path` denotes on the host: a relative path is taken from `cwd`, the
/// guest prefix gives way to the host prefix, and the result is walked from
/// the root. Without an absolute starting point the resolution fails.
pub open spec fn resolve(
    fs: Map<PathModel, NodeModel>,
    guest: PathModel,
    host: PathModel,
    cwd: PathModel,
    path: PathModel,
) -> Outcome {
    let start = cwd.join(path);
    if !start.absolute {
        Outcome::Io
    } else {
        walk(fs, guest, host, Seq::empty(), rebase(guest, host, start).parts, MAX_LINKS as nat)
    }
}

/// The canonical form of `path` on the host alone: the same walk with
/// nothing put in place of anything.
pub open spec fn host_canonical(fs: Map<PathModel, NodeModel>, path: PathModel) -> Outcome {
    walk(fs, PathModel::root(), PathModel::root(), Seq::empty(), path.parts, MAX_LINKS as nat)
}

/// `path` with the host prefix in place of the guest prefix, where it starts
/// with the guest prefix; else a copy of `path`.
pub fn rebase_path(guest: &HostPathBuf, host: &HostPathBuf, path: &HostPathBuf) -> (out:
    HostPathBuf)
    ensures
        out@ == rebase(guest@, host@, path@),
{
    match path.strip_prefix(guest) {
        Some(rest) => host.join(&rest),
        None => path.clone(),
    }
}

/// Resolves `path` against what `snapshot` records.
///
/// `mapping` is the pair of guest prefix and host prefix. The answer is
/// [`Resolution::Need`] when the walk reaches a path that the snapshot does
/// not record; every other answer is final.
pub fn resolve_symlink(
    mapping: &(HostPathBuf, HostPathBuf),
    path: &HostPathBuf,
    cwd: &HostPathBuf,
    snapshot: &Snapshot,
) -> (out: Resolution)
    ensures
        out@ == resolve(snapshot@, mapping.0@, mapping.1@, cwd@, path@),
{
    let start = cwd.join(path);
    if !start.is_absolute() {
        return Resolution::Io;
    }
    let mut pending = rebase_path(&mapping.0, &mapping.1, &start);
    let mut done = HostPathBuf::root();
    let mut pos: usize = 0;
    let mut hops: usize = MAX_LINKS;
    let ghost goal = resolve(snapshot@, mapping.0@, mapping.1@, cwd@, path@);
    assert(pending@.parts.skip(0) =~= pending@.parts);
    while pos < pending.len()
        invariant
            pos <= pending@.parts.len(),
            done@.absolute,
            goal == resolve(snapshot@, mapping.0@, mapping.1@, cwd@, path@),
            goal == walk(
                snapshot@,
                mapping.0@,
                mapping.1@,
                done@.parts,
                pending@.parts.skip(pos as int),
                hops as nat,
            ),
        decreases hops, pending@.parts.len() - pos,
    {
        let ghost rest = pending@.parts.skip(pos as int);
        let name = pending.part(pos);
        proof {
            assert(rest[0] == name@);
            assert(rest.skip(1) =~= pending@.parts.skip(pos + 1));
            assert(done@ == rooted(done@.parts));
        }
        if name.len() == 2 && name[0] == 46u8 && name[1] == 46u8 {
            assert(name@ =~= dotdot());
            match done.parent() {
                Some(up) => {
                    done = up;
                },
                None => {},
            }
            pos += 1;
        } else {
            assert(name@ != dotdot()) by {
                if name@ == dotdot() {
                    assert(name@.len() == 2 && name@[0] == 46u8 && name@[1] == 46u8);
                }
            }
            let single = pending.prefix(pos + 1).suffix(pos, false);
            proof {
                assert(pending@.parts.take(pos + 1).skip(pos as int) =~= seq![name@]);
                assert(done@.parts + seq![name@] =~= done@.parts.push(name@));
            }
            let here = done.join(&single);
            assert(here@ == rooted(done@.parts.push(name@)));
            match snapshot.lookup(&here) {
                None => {
                    return Resolution::Need(here);
                },
                Some(Node::Missing) => {
                    return Resolution::NotFound;
                },
                Some(Node::Unreadable) => {
                    return Resolution::Io;
                },
                Some(Node::Dir) => {
                    done = here;
                    pos += 1;
                },
                Some(Node::File) => {
                    if pos + 1 == pending.len() {
                        return Resolution::Found(here);
                    } else {
                        return Resolution::NotFound;
                    }
                },
                Some(Node::Other) => {
                    if pos + 1 == pending.len() {
                        return Resolution::Found(here);
                    } else {
                        return Resolution::NotFound;
                    }
                },
                Some(Node::Symlink(text)) => {
                    if hops == 0 {
                        return Resolution::Io;
                    }
                    let joined = done.join(text);
                    let next = rebase_path(&mapping.0, &mapping.1, &joined);
                    let tail = pending.suffix(pos + 1, false);
                    let ghost before = pending@.parts;
                    pending = next.join(&tail);
                    proof {
                        assert(pending@.parts == next@.parts + before.skip(pos + 1));
                        assert(pending@.parts.skip(0) =~= pending@.parts);
                    }
                    done = HostPathBuf::root();
                    pos = 0;
                    hops -= 1;
                },
            }
        }
    }
    assert(pending@.parts.skip(pos as int) =~= Seq::<Seq<u8>>::empty());
    assert(done@ == rooted(done@.parts));
    Resolution::Found(done)
}

/// Whether every non-empty leading part of `parts` is recorded as a
/// directory.
pub open spec fn all_dirs(fs: Map<PathModel, NodeModel>, parts: Seq<Seq<u8>>) -> bool {
    forall|n: int|
        0 < n <= parts.len() ==> fs.dom().contains(rooted(#[trigger] parts.take(n))) && fs[rooted(
            parts.take(n),
        )] is Dir
}

/// Whether none of the names is `..`.
pub open spec fn no_dotdot(parts: Seq<Seq<u8>>) -> bool {
    forall|i: int| 0 <= i < parts.len() ==> #[trigger] parts[i] != dotdot()
}

/// Whether `p` names a place directly: it is absolute, has no `..`, every
/// directory on the way is recorded as a directory, and the place itself is
/// recorded as something that exists and is no link.
pub open spec fn physical(fs: Map<PathModel, NodeModel>, p: PathModel) -> bool {
    &&& p.absolute
    &&& no_dotdot(p.parts)
    &&& p.parts.len() > 0 ==> {
        &&& all_dirs(fs, p.parts.drop_last())
        &&& fs.dom().contains(p)
        &&& (fs[p] is Dir || fs[p] is File || fs[p] is Other)
    }
}

/// Whether no recorded link, joined to the directory that holds it, starts
/// with `guest`.
pub open spec fn no_guest_links(fs: Map<PathModel, NodeModel>, guest: PathModel) -> bool {
    forall|k: PathModel| #[trigger]
        fs.dom().contains(k) && fs[k] is Symlink && k.parts.len() > 0 ==> !rooted(
            k.parts.drop_last(),
        ).join(fs[k]->Symlink_0).starts_with(guest)
}

proof fn lemma_all_dirs_push(fs: Map<PathModel, NodeModel>, done: Seq<Seq<u8>>, name: Seq<u8>)
    requires
        all_dirs(fs, done),
        fs.dom().contains(rooted(done.push(name))),
        fs[rooted(done.push(name))] is Dir,
    ensures
        all_dirs(fs, done.push(name)),
{
    let more = done.push(name);
    assert forall|n: int| 0 < n <= more.len() implies fs.dom().contains(
        rooted(#[trigger] more.take(n)),
    ) && fs[rooted(more.take(n))] is Dir by {
        if n <= done.len() {
            assert(more.take(n) =~= done.take(n));
        } else {
            assert(more.take(n) =~= more);
        }
    }
}

proof fn lemma_all_dirs_pop(fs: Map<PathModel, NodeModel>, done: Seq<Seq<u8>>)
    requires
        all_dirs(fs, done),
        done.len() > 0,
    ensures
        all_dirs(fs, done.drop_last()),
        fs.dom().contains(rooted(done)),
        fs[rooted(done)] is Dir,
{
    let less = done.drop_last();
    assert forall|n: int| 0 < n <= less.len() implies fs.dom().contains(
        rooted(#[trigger] less.take(n)),
    ) && fs[rooted(less.take(n))] is Dir by {
        assert(less.take(n) =~= done.take(n));
    }
    assert(done.take(done.len() as int) =~= done);
}

/// A walk that starts in a directory reached without links ends, if it finds
/// anything, at a place that is named directly.
pub proof fn lemma_walk_physical(
    fs: Map<PathModel, NodeModel>,
    guest: PathModel,
    host: PathModel,
    done: Seq<Seq<u8>>,
    pending: Seq<Seq<u8>>,
    hops: nat,
)
    requires
        all_dirs(fs, done),
        no_dotdot(done),
        walk(fs, guest, host, done, pending, hops) is Found,
    ensures
        physical(fs, walk(fs, guest, host, done, pending, hops)->Found_0),
    decreases hops, pending.len(),
{
    if pending.len() == 0 {
        if done.len() > 0 {
            lemma_all_dirs_pop(fs, done);
        }
    } else if pending[0] == dotdot() {
        if done.len() > 0 {
            lemma_all_dirs_pop(fs, done);
            assert(no_dotdot(done.drop_last())) by {
                assert forall|i: int| 0 <= i < done.drop_last().len() implies #[trigger] done.drop_last()[i]
                    != dotdot() by {
                    assert(done.drop_last()[i] == done[i]);
                }
            }
            lemma_walk_physical(fs, guest, host, done.drop_last(), pending.skip(1), hops);
        } else {
            lemma_walk_physical(fs, guest, host, done, pending.skip(1), hops);
        }
    } else {
        let more = done.push(pending[0]);
        let here = rooted(more);
        assert(no_dotdot(more)) by {
            assert forall|i: int| 0 <= i < more.len() implies #[trigger] more[i] != dotdot() by {
                if i < done.len() {
                    assert(more[i] == done[i]);
                }
            }
        }
        match fs[here] {
            NodeModel::Dir => {
                lemma_all_dirs_push(fs, done, pending[0]);
                lemma_walk_physical(fs, guest, host, more, pending.skip(1), hops);
            },
            NodeModel::File | NodeModel::Other => {
                assert(more.drop_last() =~= done);
            },
            NodeModel::Symlink(text) => {
                let next = rebase(guest, host, rooted(done).join(text));
                let empty = Seq::<Seq<u8>>::empty();
                lemma_walk_physical(
                    fs,
                    guest,
                    host,
                    empty,
                    next.parts + pending.skip(1),
                    (hops - 1) as nat,
                );
            },
            _ => {},
        }
    }
}

/// What a resolution finds is named directly: it has no link on the way and
/// is no link itself.
pub proof fn lemma_resolved_is_physical(
    fs: Map<PathModel, NodeModel>,
    guest: PathModel,
    host: PathModel,
    cwd: PathModel,
    path: PathModel,
)
    requires
        resolve(fs, guest, host, cwd, path) is Found,
    ensures
        physical(fs, resolve(fs, guest, host, cwd, path)->Found_0),
{
    let start = cwd.join(path);
    lemma_walk_physical(
        fs,
        guest,
        host,
        Seq::empty(),
        rebase(guest, host, start).parts,
        MAX_LINKS as nat,
    );
}

/// Walking names that are recorded as directories, the last of them perhaps
/// as a file, arrives where they lead.
pub proof fn lemma_walk_direct(
    fs: Map<PathModel, NodeModel>,
    guest: PathModel,
    host: PathModel,
    done: Seq<Seq<u8>>,
    pending: Seq<Seq<u8>>,
    hops: nat,
)
    requires
        physical(fs, rooted(done + pending)),
    ensures
        walk(fs, guest, host, done, pending, hops) == Outcome::Found(rooted(done + pending)),
    decreases pending.len(),
{
    let whole = done + pending;
    if pending.len() == 0 {
        assert(whole =~= done);
    } else {
        let more = done.push(pending[0]);
        assert(whole[done.len() as int] == pending[0]);
        assert(more + pending.skip(1) =~= whole);
        if pending.len() == 1 {
            assert(more =~= whole);
            if fs[rooted(more)] is Dir {
                assert(pending.skip(1).len() == 0);
                assert(walk(fs, guest, host, more, pending.skip(1), hops) == Outcome::Found(
                    rooted(more),
                ));
            }
        } else {
            assert(whole.drop_last().take(more.len() as int) =~= more);
            lemma_walk_direct(fs, guest, host, more, pending.skip(1), hops);
        }
    }
}

/// Resolving a directly named place that the mapping leaves alone gives that
/// place: a resolved path is a fixed point.
pub proof fn lemma_resolve_fixed(
    fs: Map<PathModel, NodeModel>,
    guest: PathModel,
    host: PathModel,
    cwd: PathModel,
    q: PathModel,
)
    requires
        physical(fs, q),
        rebase(guest, host, q) == q,
    ensures
        resolve(fs, guest, host, cwd, q) == Outcome::Found(q),
{
    let empty = Seq::<Seq<u8>>::empty();
    assert(empty + q.parts =~= q.parts);
    assert(rooted(q.parts) == q);
    lemma_walk_direct(fs, guest, host, empty, q.parts, MAX_LINKS as nat);
}

/// An answer that is not a request for more stays the same however much more
/// the snapshot comes to record.
pub proof fn lemma_walk_stable(
    fs: Map<PathModel, NodeModel>,
    more: Map<PathModel, NodeModel>,
    guest: PathModel,
    host: PathModel,
    done: Seq<Seq<u8>>,
    pending: Seq<Seq<u8>>,
    hops: nat,
)
    requires
        fs.submap_of(more),
        !(walk(fs, guest, host, done, pending, hops) is Need),
    ensures
        walk(more, guest, host, done, pending, hops) == walk(fs, guest, host, done, pending, hops),
    decreases hops, pending.len(),
{
    if pending.len() == 0 {
    } else if pending[0] == dotdot() {
        let up = if done.len() > 0 {
            done.drop_last()
        } else {
            done
        };
        lemma_walk_stable(fs, more, guest, host, up, pending.skip(1), hops);
    } else {
        let here = rooted(done.push(pending[0]));
        assert(fs.dom().contains(here));
        assert(more.dom().contains(here) && more[here] == fs[here]);
        match fs[here] {
            NodeModel::Dir => {
                lemma_walk_stable(fs, more, guest, host, done.push(pending[0]), pending.skip(1), hops);
            },
            NodeModel::Symlink(text) => {
                if hops > 0 {
                    let next = rebase(guest, host, rooted(done).join(text));
                    lemma_walk_stable(
                        fs,
                        more,
                        guest,
                        host,
                        Seq::empty(),
                        next.parts + pending.skip(1),
                        (hops - 1) as nat,
                    );
                }
            },
            _ => {},
        }
    }
}

/// A final answer of a resolution stays the same however much more the
/// snapshot comes to record.
pub proof fn lemma_resolve_stable(
    fs: Map<PathModel, NodeModel>,
    more: Map<PathModel, NodeModel>,
    guest: PathModel,
    host: PathModel,
    cwd: PathModel,
    path: PathModel,
)
    requires
        fs.submap_of(more),
        !(resolve(fs, guest, host, cwd, path) is Need),
    ensures
        resolve(more, guest, host, cwd, path) == resolve(fs, guest, host, cwd, path),
{
    let start = cwd.join(path);
    if start.absolute {
        lemma_walk_stable(
            fs,
            more,
            guest,
            host,
            Seq::empty(),
            rebase(guest, host, start).parts,
            MAX_LINKS as nat,
        );
    }
}

/// A walk asks only for an absolute path that the snapshot does not record.
pub proof fn lemma_walk_need_is_new(
    fs: Map<PathModel, NodeModel>,
    guest: PathModel,
    host: PathModel,
    done: Seq<Seq<u8>>,
    pending: Seq<Seq<u8>>,
    hops: nat,
)
    requires
        walk(fs, guest, host, done, pending, hops) is Need,
    ensures
        walk(fs, guest, host, done, pending, hops)->Need_0.absolute,
        !fs.dom().contains(walk(fs, guest, host, done, pending, hops)->Need_0),
    decreases hops, pending.len(),
{
    if pending.len() == 0 {
    } else if pending[0] == dotdot() {
        let up = if done.len() > 0 {
            done.drop_last()
        } else {
            done
        };
        lemma_walk_need_is_new(fs, guest, host, up, pending.skip(1), hops);
    } else {
        let here = rooted(done.push(pending[0]));
        if fs.dom().contains(here) {
            match fs[here] {
                NodeModel::Dir => {
                    lemma_walk_need_is_new(fs, guest, host, done.push(pending[0]), pending.skip(1), hops);
                },
                NodeModel::Symlink(text) => {
                    let next = rebase(guest, host, rooted(done).join(text));
                    lemma_walk_need_is_new(
                        fs,
                        guest,
                        host,
                        Seq::empty(),
                        next.parts + pending.skip(1),
                        (hops - 1) as nat,
                    );
                },
                _ => {},
            }
        }
    }
}

/// A resolution asks only for an absolute path that the snapshot does not
/// record, so recording it is progress.
pub proof fn lemma_resolve_need_is_new(
    fs: Map<PathModel, NodeModel>,
    guest: PathModel,
    host: PathModel,
    cwd: PathModel,
    path: PathModel,
)
    requires
        resolve(fs, guest, host, cwd, path) is Need,
    ensures
        resolve(fs, guest, host, cwd, path)->Need_0.absolute,
        !fs.dom().contains(resolve(fs, guest, host, cwd, path)->Need_0),
{
    let start = cwd.join(path);
    lemma_walk_need_is_new(
        fs,
        guest,
        host,
        Seq::empty(),
        rebase(guest, host, start).parts,
        MAX_LINKS as nat,
    );
}

/// Where no recorded link leads into the guest prefix, the walk goes as it
/// would on the host alone.
pub proof fn lemma_walk_plain(
    fs: Map<PathModel, NodeModel>,
    guest: PathModel,
    host: PathModel,
    done: Seq<Seq<u8>>,
    pending: Seq<Seq<u8>>,
    hops: nat,
)
    requires
        no_guest_links(fs, guest),
    ensures
        walk(fs, guest, host, done, pending, hops) == walk(
            fs,
            PathModel::root(),
            PathModel::root(),
            done,
            pending,
            hops,
        ),
    decreases hops, pending.len(),
{
    let root = PathModel::root();
    if pending.len() == 0 {
    } else if pending[0] == dotdot() {
        let up = if done.len() > 0 {
            done.drop_last()
        } else {
            done
        };
        lemma_walk_plain(fs, guest, host, up, pending.skip(1), hops);
    } else {
        let here = rooted(done.push(pending[0]));
        if fs.dom().contains(here) {
            match fs[here] {
                NodeModel::Dir => {
                    lemma_walk_plain(fs, guest, host, done.push(pending[0]), pending.skip(1), hops);
                },
                NodeModel::Symlink(text) => {
                    if hops > 0 {
                        let joined = rooted(done).join(text);
                        assert(here.parts.drop_last() =~= done);
                        assert(!joined.starts_with(guest));
                        assert(rebase(guest, host, joined) == joined);
                        assert(joined.absolute);
                        assert(joined.parts.skip(0) =~= joined.parts);
                        assert(Seq::<Seq<u8>>::empty() + joined.parts =~= joined.parts);
                        assert(rebase(root, root, joined) == joined);
                        lemma_walk_plain(
                            fs,
                            guest,
                            host,
                            Seq::empty(),
                            joined.parts + pending.skip(1),
                            (hops - 1) as nat,
                        );
                    }
                },
                _ => {},
            }
        }
    }
}

/// A path under the guest prefix resolves as the same path under the host
/// prefix does.
pub proof fn lemma_guest_path_resolves_as_host_path(
    fs: Map<PathModel, NodeModel>,
    guest: PathModel,
    host: PathModel,
    cwd: PathModel,
    rel: PathModel,
)
    requires
        guest.absolute,
        host.absolute,
        !rel.absolute,
        rebase(guest, host, host.join(rel)) == host.join(rel),
    ensures
        resolve(fs, guest, host, cwd, guest.join(rel)) == resolve(
            fs,
            guest,
            host,
            cwd,
            host.join(rel),
        ),
{
    let p = guest.join(rel);
    assert(p.parts.subrange(0, guest.parts.len() as int) =~= guest.parts);
    assert(p.parts.skip(guest.parts.len() as int) =~= rel.parts);
    assert(p.strip_prefix(guest) == Some(rel));
}

/// Where no recorded link leads into the guest prefix, a path under the guest
/// prefix resolves to the host's canonical form of the same path under the
/// host prefix.
pub proof fn lemma_guest_path_is_host_canonical(
    fs: Map<PathModel, NodeModel>,
    guest: PathModel,
    host: PathModel,
    cwd: PathModel,
    rel: PathModel,
)
    requires
        guest.absolute,
        host.absolute,
        !rel.absolute,
        no_guest_links(fs, guest),
    ensures
        resolve(fs, guest, host, cwd, guest.join(rel)) == host_canonical(fs, host.join(rel)),
{
    let p = guest.join(rel);
    assert(p.parts.subrange(0, guest.parts.len() as int) =~= guest.parts);
    assert(p.parts.skip(guest.parts.len() as int) =~= rel.parts);
    assert(p.strip_prefix(guest) == Some(rel));
    lemma_walk_plain(fs, guest, host, Seq::empty(), host.join(rel).parts, MAX_LINKS as nat);
}

/// Whether the first `k` names of the guest prefix lead, through
/// directories, to a name that is missing on the host.
pub open spec fn missing_at(fs: Map<PathModel, NodeModel>, guest: PathModel, k: int) -> bool {
    &&& 0 < k <= guest.parts.len()
    &&& all_dirs(fs, guest.parts.take(k - 1))
    &&& fs.dom().contains(rooted(guest.parts.take(k)))
    &&& fs[rooted(guest.parts.take(k))] is Missing
}

/// Whether the guest prefix names nothing on the host, as on a host without
/// a store of its own at that place.
pub open spec fn guest_absent(fs: Map<PathModel, NodeModel>, guest: PathModel) -> bool {
    &&& guest.absolute
    &&& no_dotdot(guest.parts)
    &&& exists|k: int| missing_at(fs, guest, k)
}

/// A walk on the host alone that heads into the absent guest prefix finds
/// nothing.
proof fn lemma_walk_into_absent(
    fs: Map<PathModel, NodeModel>,
    guest: PathModel,
    k: int,
    j: int,
    tail: Seq<Seq<u8>>,
    hops: nat,
)
    requires
        no_dotdot(guest.parts),
        missing_at(fs, guest, k),
        0 <= j < k,
    ensures
        walk(
            fs,
            PathModel::root(),
            PathModel::root(),
            guest.parts.take(j),
            guest.parts.skip(j) + tail,
            hops,
        ) == Outcome::NotFound,
    decreases k - j,
{
    let done = guest.parts.take(j);
    let pending = guest.parts.skip(j) + tail;
    assert(pending[0] == guest.parts[j]);
    assert(guest.parts[j] != dotdot());
    assert(done.push(pending[0]) =~= guest.parts.take(j + 1));
    if j + 1 < k {
        let dirs = guest.parts.take(k - 1);
        assert(dirs.take(j + 1) =~= guest.parts.take(j + 1));
        assert(fs.dom().contains(rooted(dirs.take(j + 1))) && fs[rooted(dirs.take(j + 1))] is Dir);
        assert(pending.skip(1) =~= guest.parts.skip(j + 1) + tail);
        lemma_walk_into_absent(fs, guest, k, j + 1, tail, hops);
    }
}

/// Where the guest prefix names nothing on the host, whatever the host
/// alone finds, the walk with the mapping finds too.
proof fn lemma_walk_found_on_host(
    fs: Map<PathModel, NodeModel>,
    guest: PathModel,
    host: PathModel,
    done: Seq<Seq<u8>>,
    pending: Seq<Seq<u8>>,
    hops: nat,
)
    requires
        guest_absent(fs, guest),
        walk(fs, PathModel::root(), PathModel::root(), done, pending, hops) is Found,
    ensures
        walk(fs, guest, host, done, pending, hops) == walk(
            fs,
            PathModel::root(),
            PathModel::root(),
            done,
            pending,
            hops,
        ),
    decreases hops, pending.len(),
{
    let root = PathModel::root();
    if pending.len() == 0 {
    } else if pending[0] == dotdot() {
        let up = if done.len() > 0 {
            done.drop_last()
        } else {
            done
        };
        lemma_walk_found_on_host(fs, guest, host, up, pending.skip(1), hops);
    } else {
        let here = rooted(done.push(pending[0]));
        match fs[here] {
            NodeModel::Dir => {
                lemma_walk_found_on_host(
                    fs,
                    guest,
                    host,
                    done.push(pending[0]),
                    pending.skip(1),
                    hops,
                );
            },
            NodeModel::Symlink(text) => {
                let joined = rooted(done).join(text);
                let rest = pending.skip(1);
                assert(joined.absolute);
                assert(joined.parts.skip(0) =~= joined.parts);
                assert(Seq::<Seq<u8>>::empty() + joined.parts =~= joined.parts);
                assert(rebase(root, root, joined) == joined);
                if joined.starts_with(guest) {
                    let k = choose|k: int| missing_at(fs, guest, k);
                    let tail = joined.parts.skip(guest.parts.len() as int) + rest;
                    assert(joined.parts.subrange(0, guest.parts.len() as int) == guest.parts);
                    assert(guest.parts.skip(0) + tail =~= joined.parts + rest);
                    assert(guest.parts.take(0) =~= Seq::<Seq<u8>>::empty());
                    lemma_walk_into_absent(fs, guest, k, 0, tail, (hops - 1) as nat);
                } else {
                    assert(rebase(guest, host, joined) == joined);
                    lemma_walk_found_on_host(
                        fs,
                        guest,
                        host,
                        Seq::empty(),
                        joined.parts + rest,
                        (hops - 1) as nat,
                    );
                }
            },
            _ => {},
        }
    }
}

/// On a host where the guest prefix names nothing, a path under the guest
/// prefix resolves to the host's canonical form of the same path under the
/// host prefix, whenever that path exists.
pub proof fn lemma_guest_path_is_canonical_host_path(
    fs: Map<PathModel, NodeModel>,
    guest: PathModel,
    host: PathModel,
    cwd: PathModel,
    rel: PathModel,
)
    requires
        guest_absent(fs, guest),
        host.absolute,
        !rel.absolute,
        host_canonical(fs, host.join(rel)) is Found,
    ensures
        resolve(fs, guest, host, cwd, guest.join(rel)) == host_canonical(fs, host.join(rel)),
{
    let p = guest.join(rel);
    assert(p.parts.subrange(0, guest.parts.len() as int) =~= guest.parts);
    assert(p.parts.skip(guest.parts.len() as int) =~= rel.parts);
    assert(p.strip_prefix(guest) == Some(rel));
    lemma_walk_found_on_host(
        fs,
        guest,
        host,
        Seq::empty(),
        host.join(rel).parts,
        MAX_LINKS as nat,
    );
}

} // verus!
