//! The two path spaces of the sandbox.
//!
//! Inside the sandbox the store of a mapper's host prefix appears at its
//! guest prefix, conventionally `/nix`, and the whole host appears below
//! `/run/host`. A guest path that starts with the guest prefix denotes the
//! host path with the host prefix in its place; every other guest path
//! denotes the same path of the sandbox's root.

use crate::path::{HostPathBuf, PathModel};
use crate::setup::abs;
use crate::snapshot::Snapshot;
use crate::util::resolve_symlink::{rebase, rebase_path, resolve, resolve_symlink, Resolution};
use vstd::prelude::*;
use vstd::string::StringSliceAdditionalSpecFns;

verus! {

/// A path as the guest sees it.
#[derive(Debug, PartialEq, Eq)]
pub struct GuestPath {
    inner: HostPathBuf,
}

/// An owned guest path, as the result of joining guest paths.
#[derive(Debug, PartialEq, Eq)]
pub struct GuestPathBuf {
    inner: HostPathBuf,
}

/// The pair of guest prefix and host prefix.
#[derive(Debug)]
pub struct Mapper {
    guest: HostPathBuf,
    host: HostPathBuf,
}

impl View for GuestPath {
    type V = PathModel;

    closed spec fn view(&self) -> PathModel {
        self.inner@
    }
}

impl View for GuestPathBuf {
    type V = PathModel;

    closed spec fn view(&self) -> PathModel {
        self.inner@
    }
}

/// The place in the guest where the host's root appears.
pub open spec fn host_mount() -> PathModel {
    abs("/run/host")
}

/// The place where the host's root appears is an absolute path.
pub proof fn lemma_host_mount_absolute()
    ensures
        host_mount().absolute,
{
    reveal_strlit("/run/host");
    let s = "/run/host";
    assert(s@.len() == 9);
    assert(s@[0] == '/');
    assert(vstd::string::is_ascii(s)) by {
        assert forall|i: int| 0 <= i < s@.len() implies '\0' <= #[trigger] s@[i] <= '\u{7f}' by {
            assert(s@[0] == '/' && s@[1] == 'r' && s@[2] == 'u' && s@[3] == 'n' && s@[4] == '/'
                && s@[5] == 'h' && s@[6] == 'o' && s@[7] == 's' && s@[8] == 't');
        }
    }
    vstd::string::is_ascii_spec_bytes(s);
    assert(s.spec_bytes()[0] == s@[0] as u8);
}

/// A host path seen through the guest's view of the host and mapped back is
/// the same host path.
pub proof fn lemma_host_round_trip(mount: PathModel, p: PathModel)
    requires
        mount.absolute,
        p.absolute,
    ensures
        rebase(mount, PathModel::root(), mount.under(p)) == p,
{
    let g = mount.under(p);
    assert(g.parts.subrange(0, mount.parts.len() as int) =~= mount.parts);
    assert(g.parts.skip(mount.parts.len() as int) =~= p.parts);
    assert(Seq::<Seq<u8>>::empty() + p.parts =~= p.parts);
}

impl Mapper {
    /// The guest prefix.
    pub closed spec fn guest_prefix(&self) -> PathModel {
        self.guest@
    }

    /// The host prefix.
    pub closed spec fn host_prefix(&self) -> PathModel {
        self.host@
    }

    /// The mapper that shows `host_prefix` at `guest_prefix`.
    pub fn new(guest_prefix: HostPathBuf, host_prefix: HostPathBuf) -> (out: Self)
        ensures
            out.guest_prefix() == guest_prefix@,
            out.host_prefix() == host_prefix@,
    {
        Mapper { guest: guest_prefix, host: host_prefix }
    }

    /// The guest path at which the host path `p` appears: below `/run/host`.
    /// Only an absolute host path appears in the guest.
    pub fn host_to_guest(&self, p: &HostPathBuf) -> (out: Option<GuestPathBuf>)
        ensures
            out is Some <==> p@.absolute,
            out is Some ==> out.unwrap()@ == host_mount().under(p@),
    {
        if p.is_absolute() {
            Some(GuestPathBuf { inner: HostPathBuf::new("/run/host").under(p) })
        } else {
            None
        }
    }

    /// The host path that the guest path `p` stands for before any link is
    /// followed: the host prefix in place of the guest prefix.
    pub fn substitute(&self, p: &GuestPath) -> (out: HostPathBuf)
        ensures
            out@ == rebase(self.guest_prefix(), self.host_prefix(), p@),
    {
        rebase_path(&self.guest, &self.host, &p.inner)
    }

    /// Resolves the guest path `p` to the place on the host that it
    /// denotes, links followed.
    pub fn guest_to_host(&self, p: &GuestPath, cwd: &HostPathBuf, snapshot: &Snapshot) -> (out:
        Resolution)
        ensures
            out@ == resolve(snapshot@, self.guest_prefix(), self.host_prefix(), cwd@, p@),
    {
        let mapping = (self.guest.clone(), self.host.clone());
        resolve_symlink(&mapping, &p.inner, cwd, snapshot)
    }
}

impl GuestPath {
    /// The guest path with the names of `p`.
    pub fn new(p: &HostPathBuf) -> (out: GuestPath)
        ensures
            out@ == p@,
    {
        GuestPath { inner: p.clone() }
    }

    /// `self` followed by `p`; an absolute `p` replaces `self`.
    pub fn join(&self, p: &GuestPath) -> (out: GuestPathBuf)
        ensures
            out@ == self@.join(p@),
    {
        GuestPathBuf::from_path_buf(self.inner.join(&p.inner))
    }

    /// What is left of `self` after `base`, where `base` leads `self`.
    pub fn strip_prefix(&self, base: &GuestPath) -> (out: Option<GuestPath>)
        ensures
            match out {
                Some(rest) => self@.strip_prefix(base@) == Some(rest@),
                None => self@.strip_prefix(base@).is_none(),
            },
    {
        match self.inner.strip_prefix(&base.inner) {
            Some(rest) => Some(GuestPath { inner: rest }),
            None => None,
        }
    }

    /// Resolves this guest path to the place on the host that it denotes.
    pub fn to_host(&self, mapper: &Mapper, cwd: &HostPathBuf, snapshot: &Snapshot) -> (out:
        Resolution)
        ensures
            out@ == resolve(snapshot@, mapper.guest_prefix(), mapper.host_prefix(), cwd@, self@),
    {
        mapper.guest_to_host(self, cwd, snapshot)
    }

    /// The names of this path, without their meaning.
    pub fn as_path(&self) -> (out: &HostPathBuf)
        ensures
            out@ == self@,
    {
        &self.inner
    }

    /// Whether the path starts at the guest's root.
    pub fn is_absolute(&self) -> (yes: bool)
        ensures
            yes == self@.absolute,
    {
        self.inner.is_absolute()
    }
}

impl GuestPathBuf {
    /// The guest path with the names of `path`.
    pub fn from_path_buf(path: HostPathBuf) -> (out: GuestPathBuf)
        ensures
            out@ == path@,
    {
        GuestPathBuf { inner: path }
    }

    /// This path as a guest path.
    pub fn as_guest_path(&self) -> (out: GuestPath)
        ensures
            out@ == self@,
    {
        GuestPath { inner: self.inner.clone() }
    }
}

} // verus!
