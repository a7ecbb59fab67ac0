//! What is known of the host filesystem.
//!
//! The library never looks at the disk. Its callers look, and record what
//! they saw in a [`Snapshot`]: for each path that was examined without
//! following links, the kind of thing found there. A function that needs to
//! know about a path that is not recorded says which one, and is called again
//! once the answer has been added.

use crate::path::{HostPathBuf, PathModel};
use vstd::prelude::*;

verus! {

/// What a look at one path, without following links, can find.
#[derive(Debug, PartialEq, Eq)]
pub enum Node {
    /// Nothing is there.
    Missing,
    /// A directory.
    Dir,
    /// A regular file.
    File,
    /// Something else that exists: a socket, a device, a pipe.
    Other,
    /// A symbolic link, with its text as read.
    Symlink(HostPathBuf),
    /// The look failed for a reason other than absence.
    Unreadable,
}

/// The mathematical content of a [`Node`].
pub enum NodeModel {
    Missing,
    Dir,
    File,
    Other,
    Symlink(PathModel),
    Unreadable,
}

impl View for Node {
    type V = NodeModel;

    open spec fn view(&self) -> NodeModel {
        match self {
            Node::Missing => NodeModel::Missing,
            Node::Dir => NodeModel::Dir,
            Node::File => NodeModel::File,
            Node::Other => NodeModel::Other,
            Node::Symlink(target) => NodeModel::Symlink(target@),
            Node::Unreadable => NodeModel::Unreadable,
        }
    }
}

impl Clone for Node {
    fn clone(&self) -> (out: Self)
        ensures
            out@ == self@,
    {
        match self {
            Node::Missing => Node::Missing,
            Node::Dir => Node::Dir,
            Node::File => Node::File,
            Node::Other => Node::Other,
            Node::Symlink(target) => Node::Symlink(target.clone()),
            Node::Unreadable => Node::Unreadable,
        }
    }
}

/// The map that a list of observations stands for: a later observation of a
/// path replaces an earlier one.
pub open spec fn map_of(entries: Seq<(PathModel, NodeModel)>) -> Map<PathModel, NodeModel>
    decreases entries.len(),
{
    if entries.len() == 0 {
        Map::empty()
    } else {
        map_of(entries.drop_last()).insert(entries.last().0, entries.last().1)
    }
}

/// A record of observations of the host filesystem.
#[derive(Debug)]
pub struct Snapshot {
    entries: Vec<(HostPathBuf, Node)>,
}

impl Snapshot {
    /// The observations in the order in which they were recorded.
    pub closed spec fn entries(&self) -> Seq<(PathModel, NodeModel)> {
        Seq::new(self.entries@.len(), |i: int| (self.entries@[i].0@, self.entries@[i].1@))
    }
}

impl View for Snapshot {
    type V = Map<PathModel, NodeModel>;

    closed spec fn view(&self) -> Map<PathModel, NodeModel> {
        map_of(self.entries())
    }
}

impl Snapshot {
    /// A snapshot that records nothing: its list of observations is empty,
    /// and so is the map that it stands for.
    pub fn new() -> (out: Self)
        ensures
            out.entries() == Seq::<(PathModel, NodeModel)>::empty(),
            out@ == Map::<PathModel, NodeModel>::empty(),
    {
        let out = Snapshot { entries: Vec::new() };
        assert(out.entries() =~= Seq::empty());
        out
    }

    /// The number of observations recorded, repeated ones included.
    pub fn len(&self) -> (n: usize)
        ensures
            n == self.entries().len(),
    {
        self.entries.len()
    }

    /// Records that a look at `path` found `node`: the observation goes to
    /// the end of the list, and replaces in the map what was recorded for
    /// `path` before.
    pub fn insert(&mut self, path: HostPathBuf, node: Node)
        ensures
            final(self).entries() == old(self).entries().push((path@, node@)),
            final(self)@ == old(self)@.insert(path@, node@),
    {
        let ghost before = self.entries();
        self.entries.push((path, node));
        assert(self.entries().drop_last() =~= before);
        assert(self.entries().last() == (path@, node@));
    }

    /// What was last recorded for `path`, if anything was.
    pub fn lookup(&self, path: &HostPathBuf) -> (out: Option<&Node>)
        ensures
            match out {
                Some(node) => self@.dom().contains(path@) && self@[path@] == node@,
                None => !self@.dom().contains(path@),
            },
    {
        let ghost all = self.entries();
        let mut i: usize = self.entries.len();
        assert(all.take(i as int) =~= all);
        while i > 0
            invariant
                i <= self.entries.len(),
                all == self.entries(),
                map_of(all).dom().contains(path@) == map_of(all.take(i as int)).dom().contains(
                    path@,
                ),
                map_of(all).dom().contains(path@) ==> map_of(all)[path@] == map_of(
                    all.take(i as int),
                )[path@],
            decreases i,
        {
            i -= 1;
            proof {
                assert(all.take(i + 1).drop_last() =~= all.take(i as int));
                assert(all.take(i + 1).last() == all[i as int]);
                assert(all[i as int].0 == self.entries@[i as int].0@);
                assert(all[i as int].1 == self.entries@[i as int].1@);
            }
            if self.entries[i].0 == *path {
                return Some(&self.entries[i].1);
            }
        }
        assert(all.take(0) =~= Seq::empty());
        None
    }
}

} // verus!
