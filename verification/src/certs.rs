//! The host's SSL trust bundle inside the sandbox.
//!
//! Distributions keep the bundle in one of three places below `/etc`. The
//! sandbox gets a copy of the first bundle found at all three places, so
//! that whatever a guest program looks for is there.

use crate::decimal::{decimal, push_decimal};
use crate::path::{lemma_join_starts, lemma_parent_near, lemma_relative_text};
use crate::path::{lemma_starts_with_trans, parse_path, HostPathBuf, PathModel};
use crate::plan::{lemma_within_add, push_action, views, within, Action, ActionModel};
use crate::text::{append_str, bytes_of, lit};
use vstd::prelude::*;

verus! {

/// The paths that a vector of paths holds.
pub open spec fn path_views(paths: &Vec<HostPathBuf>) -> Seq<PathModel> {
    Seq::new(paths@.len(), |i: int| paths@[i]@)
}

/// The places below `/etc` where a bundle may lie, in the order in which
/// they are tried and filled.
pub open spec fn candidates() -> Seq<PathModel> {
    seq![
        parse_path(lit("ssl/certs/ca-certificates.crt")),
        parse_path(lit("ssl/certs/ca-bundle.crt")),
        parse_path(lit("pki/tls/certs/ca-bundle.crt")),
    ]
}

/// The candidate places on the host, below `/etc`, in order.
pub open spec fn host_candidates() -> Seq<PathModel> {
    seq![
        parse_path(lit("/etc")).join(candidates()[0]),
        parse_path(lit("/etc")).join(candidates()[1]),
        parse_path(lit("/etc")).join(candidates()[2]),
    ]
}

/// The places on the host where a bundle is looked for, in order.
pub fn candidate_files() -> (out: Vec<HostPathBuf>)
    ensures
        path_views(&out) == host_candidates(),
{
    let etc = HostPathBuf::new("/etc");
    let mut out: Vec<HostPathBuf> = Vec::new();
    out.push(etc.join_str("ssl/certs/ca-certificates.crt"));
    out.push(etc.join_str("ssl/certs/ca-bundle.crt"));
    out.push(etc.join_str("pki/tls/certs/ca-bundle.crt"));
    assert(path_views(&out) =~= host_candidates());
    out
}

/// The paths of `paths` with every repetition of an earlier path left out.
pub open spec fn distinct(paths: Seq<PathModel>) -> Seq<PathModel>
    decreases paths.len(),
{
    if paths.len() == 0 {
        Seq::empty()
    } else {
        let front = distinct(paths.drop_last());
        if front.contains(paths.last()) {
            front
        } else {
            front.push(paths.last())
        }
    }
}

/// The text of the warning that no bundle was found.
pub open spec fn none_found_warning() -> Seq<u8> {
    lit("Warning: No SSL certificate bundles found on host system")
}

/// The text of the warning that `count` bundles were found.
pub open spec fn several_found_warning(count: nat) -> Seq<u8> {
    lit("Warning: Found ") + decimal(count) + lit(
        " SSL certificate bundle candidates. Picking the first one.",
    )
}

/// The copy of `source` to the candidate place `place` in the guest's `/etc`:
/// the directory first, then the file, neither of which has to succeed.
pub open spec fn copy_to(chroot: PathModel, source: PathModel, place: PathModel) -> Seq<
    ActionModel,
> {
    let to = chroot.join(parse_path(lit("etc"))).join(place);
    seq![
        ActionModel::CreateDirAll { path: to.parent_or_root(), optional: true },
        ActionModel::Copy { from: source, to, optional: true },
    ]
}

/// What the bundles found on the host ask of the sandbox rooted at `chroot`.
/// `bundles` holds the canonical path of each candidate that is a regular
/// file on the host, in the order of the candidates.
///
/// Without a bundle there is a warning and nothing else. With bundles, the
/// first is copied to all three places; where they are not all the same
/// file, a warning says how many there are.
pub open spec fn certs_plan(chroot: PathModel, bundles: Seq<PathModel>) -> Seq<ActionModel> {
    if bundles.len() == 0 {
        seq![ActionModel::Warn(none_found_warning())]
    } else {
        let count = distinct(bundles).len();
        let warning = if count >= 2 {
            seq![ActionModel::Warn(several_found_warning(count))]
        } else {
            Seq::empty()
        };
        warning + copy_to(chroot, bundles[0], candidates()[0]) + copy_to(
            chroot,
            bundles[0],
            candidates()[1],
        ) + copy_to(chroot, bundles[0], candidates()[2])
    }
}

/// Whether `paths` holds `path`.
pub fn holds(paths: &Vec<HostPathBuf>, path: &HostPathBuf) -> (yes: bool)
    ensures
        yes == path_views(paths).contains(path@),
{
    let ghost all = path_views(paths);
    let mut k: usize = 0;
    while k < paths.len()
        invariant
            k <= paths.len(),
            all == path_views(paths),
            forall|j: int| 0 <= j < k ==> #[trigger] all[j] != path@,
        decreases paths.len() - k,
    {
        if paths[k] == *path {
            assert(all[k as int] == path@);
            return true;
        }
        k += 1;
    }
    false
}

/// How many different paths `paths` holds.
pub fn count_distinct(paths: &Vec<HostPathBuf>) -> (count: usize)
    ensures
        count == distinct(path_views(paths)).len(),
{
    let ghost all = path_views(paths);
    let mut kept: Vec<HostPathBuf> = Vec::new();
    let mut i: usize = 0;
    assert(all.take(0) =~= Seq::<PathModel>::empty());
    assert(path_views(&kept) =~= Seq::<PathModel>::empty());
    while i < paths.len()
        invariant
            i <= paths.len(),
            all == path_views(paths),
            path_views(&kept) == distinct(all.take(i as int)),
        decreases paths.len() - i,
    {
        let ghost front = path_views(&kept);
        proof {
            assert(all.take(i + 1).drop_last() =~= all.take(i as int));
            assert(all.take(i + 1).last() == all[i as int]);
            assert(all[i as int] == paths@[i as int]@);
        }
        if !holds(&kept, &paths[i]) {
            let copy = paths[i].clone();
            kept.push(copy);
            assert(path_views(&kept) =~= front.push(copy@));
        }
        i += 1;
    }
    assert(all.take(all.len() as int) =~= all);
    kept.len()
}

/// Adds to `plan` the copy of `source` to the candidate place `place`.
fn push_copy(chroot: &HostPathBuf, source: &HostPathBuf, place: &str, plan: &mut Vec<Action>)
    ensures
        views(final(plan)) == views(old(plan)) + copy_to(chroot@, source@, parse_path(lit(place))),
{
    let to = chroot.join_str("etc").join_str(place);
    push_action(plan, Action::CreateDirAll { path: to.parent_or_root(), optional: true });
    push_action(plan, Action::Copy { from: source.clone(), to, optional: true });
    assert(views(plan) =~= views(old(plan)) + copy_to(chroot@, source@, parse_path(lit(place))));
}

/// Decides what to do about the trust bundle.
///
/// `bundles` holds the canonical path of each candidate place that is a
/// regular file on the host, in the order of the candidates.
pub fn copy_certs(chroot: &HostPathBuf, bundles: &Vec<HostPathBuf>) -> (plan: Vec<Action>)
    ensures
        views(&plan) == certs_plan(chroot@, path_views(bundles)),
{
    let mut plan: Vec<Action> = Vec::new();
    assert(views(&plan) =~= Seq::empty());
    if bundles.len() == 0 {
        push_action(
            &mut plan,
            Action::Warn(bytes_of("Warning: No SSL certificate bundles found on host system")),
        );
        assert(views(&plan) =~= certs_plan(chroot@, path_views(bundles)));
        return plan;
    }
    let count = count_distinct(bundles);
    if count >= 2 {
        let mut text = bytes_of("Warning: Found ");
        push_decimal(&mut text, count as u64);
        append_str(&mut text, " SSL certificate bundle candidates. Picking the first one.");
        push_action(&mut plan, Action::Warn(text));
    }
    let ghost warning = views(&plan);
    assert(warning =~= if count >= 2 {
        seq![ActionModel::Warn(several_found_warning(count as nat))]
    } else {
        Seq::empty()
    });
    let source = &bundles[0];
    push_copy(chroot, source, "ssl/certs/ca-certificates.crt", &mut plan);
    push_copy(chroot, source, "ssl/certs/ca-bundle.crt", &mut plan);
    push_copy(chroot, source, "pki/tls/certs/ca-bundle.crt", &mut plan);
    plan
}

/// Without a bundle on the host there is a warning, and nothing is made
/// or copied.
pub proof fn lemma_no_bundle_only_warns(chroot: PathModel)
    ensures
        certs_plan(chroot, Seq::empty()) == seq![ActionModel::Warn(none_found_warning())],
{
}

/// With two different bundles on the host there is a warning that counts
/// them, and every copy is made from the first.
pub proof fn lemma_first_bundle_wins(chroot: PathModel, bundles: Seq<PathModel>)
    requires
        bundles.len() >= 1,
    ensures
        distinct(bundles).len() >= 2 ==> certs_plan(chroot, bundles)[0] == ActionModel::Warn(
            several_found_warning(distinct(bundles).len()),
        ),
        forall|i: int|
            0 <= i < certs_plan(chroot, bundles).len() && (#[trigger] certs_plan(
                chroot,
                bundles,
            )[i]) is Copy ==> certs_plan(chroot, bundles)[i]->Copy_from == bundles[0],
{
}

/// One bundle on the host, or the same bundle found several times, is copied
/// to all three places without a warning.
pub proof fn lemma_single_bundle_fills_all(chroot: PathModel, bundles: Seq<PathModel>)
    requires
        bundles.len() >= 1,
        distinct(bundles).len() < 2,
    ensures
        certs_plan(chroot, bundles) == copy_to(chroot, bundles[0], candidates()[0]) + copy_to(
            chroot,
            bundles[0],
            candidates()[1],
        ) + copy_to(chroot, bundles[0], candidates()[2]),
{
    let empty = Seq::<ActionModel>::empty();
    assert(empty + copy_to(chroot, bundles[0], candidates()[0]) =~= copy_to(
        chroot,
        bundles[0],
        candidates()[0],
    ));
}

/// The candidate places are relative paths.
pub proof fn lemma_candidates_relative()
    ensures
        !candidates()[0].absolute,
        !candidates()[1].absolute,
        !candidates()[2].absolute,
        !parse_path(lit("etc")).absolute,
{
    reveal_strlit("ssl/certs/ca-certificates.crt");
    reveal_strlit("ssl/certs/ca-bundle.crt");
    reveal_strlit("pki/tls/certs/ca-bundle.crt");
    reveal_strlit("etc");
    assert("ssl/certs/ca-certificates.crt"@[0] == 's');
    assert("ssl/certs/ca-bundle.crt"@[0] == 's');
    assert("pki/tls/certs/ca-bundle.crt"@[0] == 'p');
    assert("etc"@[0] == 'e');
    lemma_relative_text("ssl/certs/ca-certificates.crt");
    lemma_relative_text("ssl/certs/ca-bundle.crt");
    lemma_relative_text("pki/tls/certs/ca-bundle.crt");
    lemma_relative_text("etc");
}

proof fn lemma_copy_within(chroot: PathModel, source: PathModel, place: PathModel)
    requires
        !place.absolute,
        !parse_path(lit("etc")).absolute,
    ensures
        within(copy_to(chroot, source, place), chroot),
{
    let etc = chroot.join(parse_path(lit("etc")));
    let to = etc.join(place);
    lemma_join_starts(chroot, parse_path(lit("etc")));
    lemma_join_starts(etc, place);
    lemma_starts_with_trans(to, etc, chroot);
    lemma_parent_near(chroot, to);
}

/// Every copy of the bundle, and every directory made for one, lies at or
/// below the sandbox root.
pub proof fn lemma_certs_within(chroot: PathModel, bundles: Seq<PathModel>)
    ensures
        within(certs_plan(chroot, bundles), chroot),
{
    if bundles.len() > 0 {
        lemma_candidates_relative();
        let count = distinct(bundles).len();
        let warning = if count >= 2 {
            seq![ActionModel::Warn(several_found_warning(count))]
        } else {
            Seq::empty()
        };
        let c = candidates();
        let first = copy_to(chroot, bundles[0], c[0]);
        let second = copy_to(chroot, bundles[0], c[1]);
        let third = copy_to(chroot, bundles[0], c[2]);
        lemma_copy_within(chroot, bundles[0], c[0]);
        lemma_copy_within(chroot, bundles[0], c[1]);
        lemma_copy_within(chroot, bundles[0], c[2]);
        lemma_within_add(warning, first, chroot);
        lemma_within_add(warning + first, second, chroot);
        lemma_within_add(warning + first + second, third, chroot);
    }
}

} // verus!
