//! Promises about snapshots: finding, deleting, pruning and restoring them.

use crate::ids::LIVE_CHILD;
use crate::index::{SnapshotIndex, StringSet};
use crate::lifecycle::{initial_index, recover_index, restored_index, DeletePlan};
use crate::lineage::{lemma_adopting, lemma_without, linked};
use crate::lookup::{AncestorError, ResolveError};
use crate::message::{ErrorCode, Response};
use crate::registry::WorkspaceState;
use crate::snapshot::{MetaView, SnapshotMeta};
use crate::state::{DaemonState, RegistrationFacts};
use crate::text_list::without;
use vstd::prelude::*;

verus! {

/// Whether two records say the same of their snapshots, their places in the lineage aside.
pub open spec fn same_content(a: MetaView, b: MetaView) -> bool {
    &&& a.message == b.message
    &&& a.metadata == b.metadata
    &&& a.pinned == b.pinned
    &&& a.created_at == b.created_at
    &&& a.missing == b.missing
}

/// What a reference finds is a snapshot of the index, with its record. It is the snapshot of
/// that very name where there is one, and otherwise the only one whose name begins so.
pub proof fn lemma_reference_finds(
    index: SnapshotIndex,
    text: &str,
    r: Result<(&String, &SnapshotMeta), ResolveError>,
    k: Seq<char>,
)
    requires
        call_ensures(SnapshotIndex::resolve_by_prefix, (&index, text), r),
    ensures
        r matches Ok(f) ==> {
            &&& index.snapshots@.contains_key(f.0@)
            &&& index.snapshots@[f.0@] == f.1@
            &&& text@.is_prefix_of(f.0@)
            &&& index.snapshots@.contains_key(text@) ==> f.0@ == text@
            &&& !index.snapshots@.contains_key(text@) && index.snapshots@.contains_key(k)
                && text@.is_prefix_of(k) ==> k == f.0@
        },
        index.snapshots@.contains_key(text@) ==> r is Ok,
        r matches Err(ResolveError::NotFound) ==> !(index.snapshots@.contains_key(k)
            && text@.is_prefix_of(k)),
        r matches Err(ResolveError::Ambiguous(n)) ==> n >= 2 && !index.snapshots@.contains_key(
            text@,
        ),
{
    let v = index@;
    let m = v.matching(text@);
    assert(m.contains(k) == (v.nodes.contains_key(k) && text@.is_prefix_of(k)));
    if r is Ok && !v.nodes.contains_key(text@) {
        let f = r->Ok_0.0@;
        assert(m.contains(f));
        if m.contains(k) {
            vstd::set_lib::lemma_set_empty_equivalency_len(m.remove(f));
            assert(m.remove(f).len() == 0);
            assert(!m.remove(f).contains(k));
        }
    }
    if r is Ok && v.nodes.contains_key(text@) {
        assert(text@ =~= text@.subrange(0, text@.len() as int));
    }
    if r matches Err(ResolveError::NotFound) {
        vstd::set_lib::lemma_set_empty_equivalency_len(m);
    }
}

/// A name that only one snapshot begins with finds that snapshot.
pub proof fn lemma_unique_prefix_is_enough(
    index: SnapshotIndex,
    text: &str,
    r: Result<(&String, &SnapshotMeta), ResolveError>,
    k: Seq<char>,
)
    requires
        call_ensures(SnapshotIndex::resolve_by_prefix, (&index, text), r),
        index.snapshots@.contains_key(k),
        text@.is_prefix_of(k),
        forall|x: Seq<char>| #[trigger]
            index.snapshots@.contains_key(x) && text@.is_prefix_of(x) ==> x == k,
    ensures
        r matches Ok(f) && f.0@ == k,
{
    let v = index@;
    let m = v.matching(text@);
    if v.nodes.contains_key(text@) {
        assert(text@ =~= text@.subrange(0, text@.len() as int));
        assert(text@.is_prefix_of(text@));
    } else {
        assert(m =~= set![k]);
        assert(m.contains(m.choose()));
    }
}

/// The first ancestor is the head, and each further one is the parent of the one before. There
/// is no ancestor before the first, and none without a head.
pub proof fn lemma_ancestors_go_up(
    index: SnapshotIndex,
    n: usize,
    a: Result<(&String, &SnapshotMeta), AncestorError>,
    b: Result<(&String, &SnapshotMeta), AncestorError>,
)
    requires
        n < usize::MAX,
        call_ensures(SnapshotIndex::ancestor, (&index, n), a),
        call_ensures(SnapshotIndex::ancestor, (&index, (n + 1) as usize), b),
    ensures
        n == 0 ==> a matches Err(AncestorError::InvalidAncestors),
        n == 0 && b is Ok ==> (index.head matches Some(h) && b->Ok_0.0@ == h@),
        n == 0 ==> (index.head matches Some(h) ==> (if index.snapshots@.contains_key(h@) {
            b is Ok
        } else {
            b matches Err(AncestorError::NotFound { at_id }) && at_id@ == h@
        })),
        n >= 1 && index.head is None ==> a matches Err(AncestorError::NoHead),
        n >= 1 && b is Ok ==> (a matches Ok(x) && (x.1.parent_id matches Some(p) && p@
            == b->Ok_0.0@)),
        a matches Ok(x) ==> index.snapshots@.contains_key(x.0@) && index.snapshots@[x.0@] == x.1@,
        n >= 1 && a is Ok && a->Ok_0.1.parent_id is None ==> (b matches Err(
            AncestorError::BrokenChain { depth },
        ) && depth == n),
        n >= 1 && a is Ok && (a->Ok_0.1.parent_id matches Some(p)
            && index.snapshots@.contains_key(p@)) ==> b is Ok,
        n >= 1 && a is Ok && (a->Ok_0.1.parent_id matches Some(p) && !index.snapshots@.contains_key(
            p@,
        )) ==> (b matches Err(AncestorError::NotFound { at_id }) && at_id@
            == a->Ok_0.1.parent_id->0@),
{
    let v = index@;
    if n >= 1 && b is Ok {
        crate::lookup::lemma_ancestors_are_consecutive(v, n as nat);
    }
    if n >= 1 && a is Ok {
        crate::lookup::lemma_climb_next(v.nodes, v.head->0, (n - 1) as nat, 1);
    }
}

/// A deletion that may go ahead is about a snapshot of the workspace's index whose name begins
/// with the text asked for, and is that very text where the index has it. A subvolume is to be
/// deleted exactly where it is not missing. A pinned snapshot is deleted only by force, and
/// nothing is while the registration leads elsewhere.
pub proof fn lemma_delete_is_about_a_snapshot(
    state: DaemonState,
    workspace: &str,
    canonical: Option<&str>,
    facts: RegistrationFacts,
    text: &str,
    force: bool,
    found: Option<&WorkspaceState>,
    r: Result<DeletePlan, Response>,
)
    requires
        call_ensures(DaemonState::resolve_workspace, (&state, workspace, canonical), found),
        call_ensures(
            DaemonState::plan_delete,
            (&state, workspace, canonical, &facts, text, force),
            r,
        ),
    ensures
        r matches Ok(p) ==> {
            &&& found matches Some(w)
            &&& p.ws_id@ == w.ws_id@
            &&& w.index.snapshots@.contains_key(p.snapshot_id@)
            &&& text@.is_prefix_of(p.snapshot_id@)
            &&& w.index.snapshots@.contains_key(text@) ==> p.snapshot_id@ == text@
            &&& p.delete_subvolume == !w.index.snapshots@[p.snapshot_id@].missing
            &&& w.index.snapshots@[p.snapshot_id@].pinned ==> force
            &&& facts.registration_target is Some
            &&& facts.live_target is Some
        },
        found is None ==> (r matches Err(Response::Error { code, .. }) && code
            == ErrorCode::WorkspaceNotFound),
        found matches Some(w) ==> (w.index.snapshots@.contains_key(text@) && facts.live() ==> if force
            || !w.index.snapshots@[text@].pinned {
            r is Ok
        } else {
            r matches Err(Response::Error { code, .. }) && code == ErrorCode::ConfirmationRequired
        }),
{
    if let Ok(p) = r {
        let w = found->0;
        let v = w.index@;
        let m = v.matching(text@);
        if v.nodes.contains_key(text@) {
            assert(text@ =~= text@.subrange(0, text@.len() as int));
        } else {
            assert(m.contains(m.choose())) by {
                if m.finite() {
                    vstd::set_lib::lemma_set_empty_equivalency_len(m);
                }
            }
        }
    }
}

/// Whatever force is needed for is what it is given for: a deletion that is held up for
/// confirmation goes ahead with force, about the same text, and force changes nothing about a
/// deletion that goes ahead without it.
pub proof fn lemma_force_confirms(
    state: DaemonState,
    workspace: &str,
    canonical: Option<&str>,
    facts: RegistrationFacts,
    text: &str,
    plain: Result<DeletePlan, Response>,
    forced: Result<DeletePlan, Response>,
)
    requires
        call_ensures(
            DaemonState::plan_delete,
            (&state, workspace, canonical, &facts, text, false),
            plain,
        ),
        call_ensures(
            DaemonState::plan_delete,
            (&state, workspace, canonical, &facts, text, true),
            forced,
        ),
    ensures
        (plain matches Err(Response::Error { code, .. }) && code
            == ErrorCode::ConfirmationRequired) ==> forced is Ok,
        plain matches Ok(p) ==> (forced matches Ok(q) && p.ws_id@ == q.ws_id@ && p.snapshot_id@
            == q.snapshot_id@ && p.delete_subvolume == q.delete_subvolume),
        forced is Err ==> (plain matches Err(Response::Error { code, .. }) && (forced matches Err(
            Response::Error { code: c, .. },
        ) && c == code)),
        !(forced matches Err(Response::Error { code, .. }) && code
            == ErrorCode::ConfirmationRequired),
{
}

/// Forgetting a snapshot takes exactly that snapshot and its evidence out of the index, and
/// changes nothing but places in the lineage about any other; its children come to hang from its
/// parent, and where it was the head, its parent is. Other workspaces are as they were.
pub proof fn lemma_forget_takes_one_snapshot(
    state: &mut DaemonState,
    ws_id: &str,
    id: &str,
    k: Seq<char>,
    other: Seq<char>,
)
    requires
        call_ensures(DaemonState::forget_snapshot, (state, ws_id, id), ()),
        old(state).registry@.keyed(),
        old(state).registry@.by_id.contains_key(ws_id@),
    ensures
        ({
            let a = old(state).registry@.by_id[ws_id@];
            let b = final(state).registry@.by_id[ws_id@];
            let x = a.index.nodes;
            let y = b.index.nodes;
            &&& y.dom() == x.dom().remove(id@)
            &&& b.index.evidence == a.index.evidence.remove(id@)
            &&& b.index.rollbacks == a.index.rollbacks
            &&& b.index.workspace_path == a.index.workspace_path
            &&& b.path == a.path && b.policy == a.policy && b.policy_failsafe
                == a.policy_failsafe && b.ws_id == a.ws_id
            &&& y.contains_key(k) ==> same_content(x[k], y[k])
            &&& x.contains_key(id@) && y.contains_key(k) && k != LIVE_CHILD@ ==> y[k].parent_id
                == if x[id@].child_ids.contains(k) {
                x[id@].parent_id
            } else {
                x[k].parent_id
            }
            &&& x.contains_key(id@) ==> b.index.head == if a.index.head == Some(id@) {
                x[id@].parent_id
            } else {
                a.index.head
            }
        }),
        final(state).registry@.by_id.dom() == old(state).registry@.by_id.dom(),
        other != ws_id@ && old(state).registry@.by_id.contains_key(other)
            ==> final(state).registry@.by_id[other] == old(state).registry@.by_id[other],
        final(state).registry@.paths == old(state).registry@.paths,
{
    let a = old(state).registry@.by_id[ws_id@];
    let b = final(state).registry@.by_id[ws_id@];
    assert(b.index.nodes.dom() =~= a.index.nodes.dom().remove(id@));
    assert(final(state).registry@.by_id.dom() =~= old(state).registry@.by_id.dom());
}

/// Unlinking a snapshot leaves its parent listing its children in its place, and no record that
/// is not next to it changes at all.
pub proof fn lemma_unlink_rehangs(index: &mut SnapshotIndex, id: &str, k: Seq<char>)
    requires
        call_ensures(SnapshotIndex::unlink_node, (index, id), ()),
    ensures
        ({
            let x = old(index).snapshots@;
            let y = final(index).snapshots@;
            &&& y.dom() == x.dom()
            &&& x.contains_key(k) ==> same_content(x[k], y[k])
            &&& !x.contains_key(id@) && x.contains_key(k) ==> y[k] == x[k]
            &&& x.contains_key(id@) && x.contains_key(k) ==> {
                let kids = x[id@].child_ids;
                &&& k != LIVE_CHILD@ && kids.contains(k) ==> y[k].parent_id == x[id@].parent_id
                &&& !kids.contains(k) ==> y[k].parent_id == x[k].parent_id
                &&& x[id@].parent_id != Some(k) ==> y[k].child_ids == x[k].child_ids
                &&& x[id@].parent_id == Some(k) ==> {
                    &&& forall|c: Seq<char>|
                        c != LIVE_CHILD@ ==> (#[trigger] y[k].child_ids.contains(c) <==> (
                        x[k].child_ids.contains(c) && c != id@) || kids.contains(c))
                    &&& y[k].child_ids.contains(LIVE_CHILD@) <==> x[k].child_ids.contains(
                        LIVE_CHILD@,
                    ) && id@ != LIVE_CHILD@ || (old(index)@.head == Some(id@))
                }
            }
        }),
        final(index)@.evidence == old(index)@.evidence,
        final(index)@.rollbacks == old(index)@.rollbacks,
        final(index)@.workspace_path == old(index)@.workspace_path,
        old(index)@.head != Some(id@) ==> final(index)@.head == old(index)@.head,
{
    let x = old(index)@.nodes;
    let y = final(index)@.nodes;
    assert(y.dom() =~= x.dom());
    if x.contains_key(id@) && x[id@].parent_id == Some(k) && x.contains_key(k) {
        let kids = x[id@].child_ids;
        let l = without(x[k].child_ids, id@);
        lemma_without(x[k].child_ids, id@);
        lemma_adopting(l, kids);
        crate::lineage::lemma_including(crate::index::adopting(l, kids), LIVE_CHILD@);
    }
}

/// Pruning keeps every record, changes only places in the lineage, and keeps the lineage of what
/// is left consistent. What is pruned has no part in it any more.
pub proof fn lemma_prune_changes_the_lineage_only(
    index: &mut SnapshotIndex,
    ids: StringSet,
    k: Seq<char>,
)
    requires
        call_ensures(SnapshotIndex::prune_chain, (index, &ids), ()),
    ensures
        ({
            let x = old(index).snapshots@;
            let y = final(index).snapshots@;
            &&& y.dom() == x.dom()
            &&& x.contains_key(k) ==> same_content(x[k], y[k])
            &&& linked(old(index)@) ==> {
                &&& linked(final(index)@.without_records(ids@.dom()))
                &&& final(index)@.head matches Some(h) ==> !ids@.contains_key(h)
                &&& !(old(index)@.head matches Some(h) && ids@.contains_key(h))
                    ==> final(index)@.head == old(index)@.head
                &&& x.contains_key(k) && !ids@.contains_key(k) ==> {
                    &&& y[k].parent_id matches Some(p) ==> !ids@.contains_key(p)
                    &&& !(x[k].parent_id matches Some(p) && ids@.contains_key(p))
                        ==> y[k].parent_id == x[k].parent_id
                    &&& forall|c: Seq<char>|
                        #![trigger y[k].child_ids.contains(c)]
                        y[k].child_ids.contains(c) && c != LIVE_CHILD@ ==> !ids@.contains_key(c)
                }
            }
        }),
        final(index)@.evidence == old(index)@.evidence,
        final(index)@.rollbacks == old(index)@.rollbacks,
        final(index)@.workspace_path == old(index)@.workspace_path,
{
    let v = old(index)@;
    let r = final(index)@;
    let s = ids@.dom();
    if v.nodes.contains_key(k) {
        assert(crate::prune::pruned_record(v, s, r.head, k, r.nodes[k]));
    }
    if linked(v) {
        crate::lineage::lemma_prune_keeps_lineage(v, s, r);
        let w = r.without_records(s);
        if v.nodes.contains_key(k) && !s.contains(k) {
            assert(w.nodes.contains_key(k));
            assert(crate::lineage::record_linked(w.nodes, w.head, k));
            assert(w.nodes[k] == r.nodes[k]);
            if !crate::prune::within(s, v.nodes[k].parent_id) {
                assert(crate::prune::up(v.nodes, k, 0) == Some(k));
                assert(crate::prune::up(v.nodes, k, 1) == v.nodes[k].parent_id);
                assert(crate::prune::escapes_at(v.nodes, s, k, 1));
                crate::prune::lemma_escape_unique(v.nodes, s, k, 1);
            }
            assert forall|c: Seq<char>|
                #![trigger r.nodes[k].child_ids.contains(c)]
                r.nodes[k].child_ids.contains(c) && c != LIVE_CHILD@ implies !s.contains(c) by {
                assert(w.nodes.contains_key(c));
            }
        }
    }
}

/// Reconciling marks a snapshot missing exactly where it is not there, changes nothing else, and
/// says whether it changed anything.
pub proof fn lemma_reconcile_marks(
    index: &mut SnapshotIndex,
    present: StringSet,
    changed: bool,
    k: Seq<char>,
)
    requires
        call_ensures(SnapshotIndex::reconcile, (index, &present), changed),
    ensures
        ({
            let x = old(index).snapshots@;
            let y = final(index).snapshots@;
            &&& y.dom() == x.dom()
            &&& x.contains_key(k) ==> y[k] == (MetaView { missing: y[k].missing, ..x[k] })
                && y[k].missing == !present@.contains_key(k)
            &&& x.contains_key(k) && x[k].missing == present@.contains_key(k) ==> changed
            &&& changed ==> x != y
        }),
        final(index)@.head == old(index)@.head,
        final(index)@.evidence == old(index)@.evidence,
        final(index)@.rollbacks == old(index)@.rollbacks,
        final(index)@.workspace_path == old(index)@.workspace_path,
{
    let x = old(index)@.nodes;
    let y = final(index)@.nodes;
    assert(y.dom() =~= x.dom());
    if x.contains_key(k) && x[k].missing == present@.contains_key(k) {
        assert(y[k].missing != x[k].missing);
    }
    if changed && x == y {
        assert(final(index)@ == old(index)@);
    }
}

/// An index with snapshots is never replaced by what is found on disk. Found snapshots come in,
/// and are to be saved, only where the index has none; the evidence stays in any case.
pub proof fn lemma_found_snapshots_fill_gaps_only(
    loaded: SnapshotIndex,
    found: Option<SnapshotIndex>,
    r: (SnapshotIndex, bool),
    k: Seq<char>,
)
    requires
        call_ensures(recover_index, (loaded, found), r),
    ensures
        r.0.governed_evidence@ == loaded.governed_evidence@,
        r.0.guarded_rollbacks@ == loaded.guarded_rollbacks@,
        loaded.snapshots@.contains_key(k) ==> !r.1 && r.0@ == loaded@,
        found is None ==> !r.1 && r.0@ == loaded@,
        r.1 ==> found is Some && r.0.snapshots@ == found->0.snapshots@ && r.0@.head
            == found->0@.head && !(loaded.snapshots@.contains_key(k)),
        !r.1 ==> r.0@ == loaded@,
        found matches Some(i) ==> (i.snapshots@.contains_key(k) && loaded.snapshots@
            == Map::<Seq<char>, MetaView>::empty() ==> r.1 && r.0.snapshots@.contains_key(k)),
{
    let none = Map::<Seq<char>, MetaView>::empty();
    if loaded.snapshots@.contains_key(k) {
        assert(loaded.snapshots@ != none) by {
            assert(!none.contains_key(k));
        }
    }
    if let Some(i) = found {
        if i.snapshots@.contains_key(k) {
            assert(i.snapshots@ != none) by {
                assert(!none.contains_key(k));
            }
        }
    }
}

/// A new workspace starts with what was found on disk, where that has snapshots, and otherwise
/// with nothing, at its own path; a restored one with what its file holds.
pub proof fn lemma_indexes_start_with_what_there_is(
    found: Option<SnapshotIndex>,
    path: &str,
    a: SnapshotIndex,
    b: SnapshotIndex,
    k: Seq<char>,
)
    requires
        call_ensures(initial_index, (found, path), a),
        call_ensures(restored_index, (found, path), b),
    ensures
        found matches Some(i) ==> b@ == i@ && (i.snapshots@.contains_key(k) ==> a@ == i@),
        found is None ==> a@ == b@ && b.workspace_path@ == path@ && !b.snapshots@.contains_key(k)
            && b@.head is None && !b.governed_evidence@.contains_key(k)
            && !b.guarded_rollbacks@.contains_key(k),
        a.snapshots@.contains_key(k) ==> found is Some && a@ == found->0@,
        a.snapshots@ == Map::<Seq<char>, MetaView>::empty() ==> a.workspace_path@ == path@
            && a@.head is None,
{
    let none = Map::<Seq<char>, MetaView>::empty();
    assert(!none.contains_key(k));
}

/// An ambiguous reference counts the snapshots that begin with it.
pub proof fn lemma_ambiguity_is_counted(
    index: SnapshotIndex,
    text: &str,
    r: Result<(&String, &SnapshotMeta), ResolveError>,
)
    requires
        call_ensures(SnapshotIndex::resolve_by_prefix, (&index, text), r),
    ensures
        r matches Err(ResolveError::Ambiguous(n)) ==> n == index.snapshots@.dom().filter(
            |k: Seq<char>| text@.is_prefix_of(k),
        ).len(),
{
    assert(index@.matching(text@) =~= index.snapshots@.dom().filter(
        |k: Seq<char>| text@.is_prefix_of(k),
    ));
}

/// A deletion is refused for the reason that there is: nothing is deleted in a workspace whose
/// registration leads elsewhere, or by a text that finds no snapshot, or more than one.
pub proof fn lemma_deletions_are_refused_for_cause(
    state: DaemonState,
    workspace: &str,
    canonical: Option<&str>,
    facts: RegistrationFacts,
    text: &str,
    force: bool,
    found: &WorkspaceState,
    live: bool,
    reference: Result<(&String, &SnapshotMeta), ResolveError>,
    r: Result<DeletePlan, Response>,
)
    requires
        call_ensures(DaemonState::resolve_workspace, (&state, workspace, canonical), Some(found)),
        call_ensures(RegistrationFacts::registration_is_live, (&facts,), live),
        call_ensures(SnapshotIndex::resolve_by_prefix, (&found.index, text), reference),
        call_ensures(
            DaemonState::plan_delete,
            (&state, workspace, canonical, &facts, text, force),
            r,
        ),
    ensures
        !live ==> (r matches Err(Response::Error { code, .. }) && code == ErrorCode::InternalError),
        live && reference is Err ==> (r matches Err(Response::Error { code, .. }) && code
            == ErrorCode::SnapshotNotFound),
        live && reference is Ok ==> (if reference->Ok_0.1.pinned && !force {
            r matches Err(Response::Error { code, .. }) && code == ErrorCode::ConfirmationRequired
        } else {
            r matches Ok(p) && p.snapshot_id@ == reference->Ok_0.0@
        }),
{
}

/// Whether the snapshot after `way[i]` on a way is its parent.
pub open spec fn goes_up(nodes: Map<Seq<char>, MetaView>, way: Seq<Seq<char>>, i: int) -> bool {
    nodes.contains_key(way[i]) && nodes[way[i]].parent_id == Some(way[i + 1])
}

/// Whether a way leads from parent to parent, and passes only snapshots that are pruned between
/// its ends.
pub open spec fn leads_up(
    nodes: Map<Seq<char>, MetaView>,
    ids: Set<Seq<char>>,
    way: Seq<Seq<char>>,
) -> bool {
    &&& way.len() >= 1
    &&& forall|i: int| 0 <= i < way.len() - 1 ==> #[trigger] goes_up(nodes, way, i)
    &&& forall|i: int| 1 <= i < way.len() - 1 ==> ids.contains(#[trigger] way[i])
}

/// What a pruned lineage leaves hanging, hangs from the nearest ancestor that is left: the one
/// at the end of a way up over pruned snapshots, or none where such a way ends in a root. So
/// does the head.
pub proof fn lemma_prune_hangs_from_the_nearest_ancestor(
    index: &mut SnapshotIndex,
    ids: StringSet,
    way: Seq<Seq<char>>,
)
    requires
        call_ensures(SnapshotIndex::prune_chain, (index, &ids), ()),
        linked(old(index)@),
        leads_up(old(index).snapshots@, ids@.dom(), way),
    ensures
        ({
            let x = old(index).snapshots@;
            let y = final(index).snapshots@;
            let k = way[0];
            let z = way.last();
            let ends = ids@.contains_key(z) && x.contains_key(z) && x[z].parent_id is None;
            &&& x.contains_key(k) && !ids@.contains_key(k) && way.len() >= 2 ==> {
                &&& !ids@.contains_key(z) ==> y[k].parent_id == Some(z)
                &&& ends ==> y[k].parent_id is None
            }
            &&& old(index)@.head == Some(k) && ids@.contains_key(k) ==> {
                &&& way.len() >= 2 && !ids@.contains_key(z) ==> final(index)@.head == Some(z)
                &&& ends ==> final(index)@.head is None
            }
        }),
{
    let v = old(index)@;
    let r = final(index)@;
    let s = ids@.dom();
    let k = way[0];
    let z = way.last();
    let n = (way.len() - 1) as nat;
    assert forall|i: nat| i <= n implies crate::prune::up(v.nodes, k, i) == Some(way[i as int]) by {
        lemma_way_up(v.nodes, s, way, i);
    }
    if way.len() >= 2 && !s.contains(z) {
        assert(crate::prune::escapes_at(v.nodes, s, k, n));
        crate::prune::lemma_escape_unique(v.nodes, s, k, n);
    }
    if s.contains(z) && v.nodes.contains_key(z) && v.nodes[z].parent_id is None {
        assert(crate::prune::up(v.nodes, k, n + 1) is None);
        assert(crate::prune::escapes_at(v.nodes, s, k, n + 1));
        crate::prune::lemma_escape_unique(v.nodes, s, k, n + 1);
    }
    crate::lineage::lemma_prune_keeps_lineage(v, s, r);
}

proof fn lemma_way_up(
    nodes: Map<Seq<char>, MetaView>,
    ids: Set<Seq<char>>,
    way: Seq<Seq<char>>,
    i: nat,
)
    requires
        leads_up(nodes, ids, way),
        i < way.len(),
    ensures
        crate::prune::up(nodes, way[0], i) == Some(way[i as int]),
    decreases i,
{
    if i > 0 {
        lemma_way_up(nodes, ids, way, (i - 1) as nat);
        assert(goes_up(nodes, way, i - 1));
    }
}

} // verus!
