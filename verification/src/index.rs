//! The index of a workspace's snapshots and their lineage.

use crate::ids::LIVE_CHILD;
use crate::snapshot::{
    Duplicate, EvidenceView, GuardedCheckpointEvidenceV2, GuardedRollbackEvidenceV2, MetaView,
    SnapshotMeta,
};
use crate::string_map::StringMap;
use crate::text::str_eq;
use crate::text_list::{
    copy_opt, copy_texts, include_text, including, opt_text, texts, without, without_text,
};
use vstd::prelude::*;

verus! {

/// A set of texts.
pub type StringSet = StringMap<()>;

/// The snapshots of one workspace, the position of the writable workspace in their lineage,
/// and the evidence kept for guarded operations.
pub struct SnapshotIndex {
    pub workspace_path: String,
    pub snapshots: StringMap<SnapshotMeta>,
    /// The snapshot that the writable workspace descends from.
    pub head: Option<String>,
    /// Durable guarded-operation evidence keyed by checkpoint identifier.
    pub governed_evidence: StringMap<GuardedCheckpointEvidenceV2>,
    /// Durable guarded rollback receipts keyed by caller idempotency identifier.
    pub guarded_rollbacks: StringMap<GuardedRollbackEvidenceV2>,
}

/// Snapshots by identifier.
pub type Nodes = Map<Seq<char>, MetaView>;

/// What an index says.
pub struct IndexView {
    pub workspace_path: Seq<char>,
    pub nodes: Nodes,
    pub head: Option<Seq<char>>,
    pub evidence: Map<Seq<char>, EvidenceView>,
    pub rollbacks: Map<Seq<char>, GuardedRollbackEvidenceV2>,
}

impl View for SnapshotIndex {
    type V = IndexView;

    open spec fn view(&self) -> IndexView {
        IndexView {
            workspace_path: self.workspace_path@,
            nodes: self.snapshots@,
            head: opt_text(self.head),
            evidence: self.governed_evidence@,
            rollbacks: self.guarded_rollbacks@,
        }
    }
}

/// The recorded parent of a snapshot; none where the snapshot is not in the index.
pub open spec fn parent_of(nodes: Nodes, id: Seq<char>) -> Option<Seq<char>> {
    if nodes.contains_key(id) {
        nodes[id].parent_id
    } else {
        None
    }
}

/// The recorded children of a snapshot; none where the snapshot is not in the index.
pub open spec fn children_of(nodes: Nodes, id: Seq<char>) -> Seq<Seq<char>> {
    if nodes.contains_key(id) {
        nodes[id].child_ids
    } else {
        Seq::empty()
    }
}

/// `list` with every snapshot among `kids` included, in order. The live marker is no snapshot.
pub open spec fn adopting(list: Seq<Seq<char>>, kids: Seq<Seq<char>>) -> Seq<Seq<char>>
    decreases kids.len(),
{
    if kids.len() == 0 {
        list
    } else {
        let l = adopting(list, kids.drop_last());
        if kids.last() == LIVE_CHILD@ {
            l
        } else {
            including(l, kids.last())
        }
    }
}

impl IndexView {
    /// The index with `id` taken out of the lineage: its children hang from its parent, the
    /// parent lists them in its place, and where `id` was the head, the parent becomes the
    /// head and carries the live marker. The record of `id` itself stays.
    pub open spec fn unlinked(self, id: Seq<char>) -> IndexView {
        let parent = parent_of(self.nodes, id);
        let kids = children_of(self.nodes, id);
        IndexView {
            nodes: self.nodes.map_entries(
                |k: Seq<char>, m: MetaView|
                    MetaView {
                        parent_id: if k != LIVE_CHILD@ && kids.contains(k) {
                            parent
                        } else {
                            m.parent_id
                        },
                        child_ids: if parent == Some(k) {
                            let l = adopting(without(m.child_ids, id), kids);
                            if self.head == Some(id) {
                                including(l, LIVE_CHILD@)
                            } else {
                                l
                            }
                        } else {
                            m.child_ids
                        },
                        ..m
                    },
            ),
            head: if self.head == Some(id) {
                parent
            } else {
                self.head
            },
            ..self
        }
    }
}

/// `nodes` with the parent of `id` replaced.
pub open spec fn with_parent(nodes: Nodes, id: Seq<char>, parent: Option<Seq<char>>) -> Nodes {
    if nodes.contains_key(id) {
        nodes.insert(id, MetaView { parent_id: parent, ..nodes[id] })
    } else {
        nodes
    }
}

/// `nodes` with the children of `id` replaced.
pub open spec fn with_children(nodes: Nodes, id: Seq<char>, kids: Seq<Seq<char>>) -> Nodes {
    if nodes.contains_key(id) {
        nodes.insert(id, MetaView { child_ids: kids, ..nodes[id] })
    } else {
        nodes
    }
}

pub(crate) fn set_parent(nodes: &mut StringMap<SnapshotMeta>, id: &str, parent: &Option<String>)
    ensures
        final(nodes)@ == with_parent(old(nodes)@, id@, opt_text(*parent)),
{
    if let Some(m) = nodes.remove(id) {
        let mut m = m;
        m.parent_id = copy_opt(parent);
        let ghost v = m@;
        nodes.insert(id.to_owned(), m);
        proof {
            assert(nodes@ =~= old(nodes)@.insert(id@, v));
        }
    } else {
        proof {
            assert(nodes@ =~= old(nodes)@);
        }
    }
}

pub(crate) fn set_children(nodes: &mut StringMap<SnapshotMeta>, id: &str, child_ids: Vec<String>)
    ensures
        final(nodes)@ == with_children(old(nodes)@, id@, texts(child_ids@)),
{
    if let Some(m) = nodes.remove(id) {
        let mut m = m;
        m.child_ids = child_ids;
        let ghost v = m@;
        nodes.insert(id.to_owned(), m);
        proof {
            assert(nodes@ =~= old(nodes)@.insert(id@, v));
        }
    } else {
        proof {
            assert(nodes@ =~= old(nodes)@);
        }
    }
}

/// Adds the live marker to the children of `id`.
pub(crate) fn mark_live(nodes: &mut StringMap<SnapshotMeta>, id: &str)
    ensures
        final(nodes)@ == with_children(
            old(nodes)@,
            id@,
            including(children_of(old(nodes)@, id@), LIVE_CHILD@),
        ),
{
    if let Some(m) = nodes.get(id) {
        let mut kids = copy_texts(&m.child_ids);
        include_text(&mut kids, LIVE_CHILD);
        set_children(nodes, id, kids);
    }
}

impl Duplicate for SnapshotIndex {
    fn duplicate(&self) -> (r: Self) {
        SnapshotIndex {
            workspace_path: self.workspace_path.clone(),
            snapshots: self.snapshots.duplicate(),
            head: copy_opt(&self.head),
            governed_evidence: self.governed_evidence.duplicate(),
            guarded_rollbacks: self.guarded_rollbacks.duplicate(),
        }
    }
}

impl SnapshotIndex {
    /// An index without snapshots.
    pub fn new(workspace_path: String) -> (r: Self)
        ensures
            r@ == (IndexView {
                workspace_path: workspace_path@,
                nodes: Map::empty(),
                head: None,
                evidence: Map::empty(),
                rollbacks: Map::empty(),
            }),
    {
        SnapshotIndex {
            workspace_path,
            snapshots: StringMap::new(),
            head: None,
            governed_evidence: StringMap::new(),
            guarded_rollbacks: StringMap::new(),
        }
    }

    /// Takes a single node out of the lineage, reparenting its children to its parent.
    pub fn unlink_node(&mut self, id: &str)
        ensures
            final(self)@ == old(self)@.unlinked(id@),
    {
        let ghost v0 = self@;
        let ghost n0 = v0.nodes;
        let (parent, children) = match self.snapshots.get(id) {
            Some(m) => (copy_opt(&m.parent_id), copy_texts(&m.child_ids)),
            None => {
                proof {
                    assert(texts(Seq::<String>::empty()) =~= Seq::<Seq<char>>::empty());
                }
                (None, Vec::new())
            },
        };
        let ghost pv = parent_of(n0, id@);
        let ghost kids = children_of(n0, id@);
        let ghost reparented = |done: int, k: Seq<char>, m: MetaView|
            if k != LIVE_CHILD@ && kids.take(done).contains(k) {
                MetaView { parent_id: pv, ..m }
            } else {
                m
            };
        let mut i: usize = 0;
        proof {
            assert(self.snapshots@ =~= n0.map_entries(
                |k: Seq<char>, m: MetaView| reparented(0, k, m),
            ));
        }
        while i < children.len()
            invariant
                i <= children@.len(),
                kids == texts(children@),
                pv == opt_text(parent),
                reparented == |done: int, k: Seq<char>, m: MetaView|
                    if k != LIVE_CHILD@ && kids.take(done).contains(k) {
                        MetaView { parent_id: pv, ..m }
                    } else {
                        m
                    },
                self.snapshots@ == n0.map_entries(
                    |k: Seq<char>, m: MetaView| reparented(i as int, k, m),
                ),
                self.head == old(self).head,
                self.workspace_path == old(self).workspace_path,
                self.governed_evidence == old(self).governed_evidence,
                self.guarded_rollbacks == old(self).guarded_rollbacks,
            decreases children@.len() - i,
        {
            let ghost before = self.snapshots@;
            let ghost c = kids[i as int];
            if !str_eq(children[i].as_str(), LIVE_CHILD) {
                set_parent(&mut self.snapshots, children[i].as_str(), &parent);
            }
            proof {
                assert(kids.take(i + 1) =~= kids.take(i as int).push(c));
                assert forall|k: Seq<char>| kids.take(i + 1).contains(k) == (kids.take(
                    i as int,
                ).contains(k) || k == c) by {
                    let t = kids.take(i as int);
                    if t.contains(k) {
                        let j = t.index_of(k);
                        assert(kids.take(i + 1)[j] == k);
                    }
                    assert(kids.take(i + 1)[i as int] == c);
                }
                assert(self.snapshots@ =~= n0.map_entries(
                    |k: Seq<char>, m: MetaView| reparented(i + 1, k, m),
                ));
            }
            i = i + 1;
        }
        proof {
            assert(kids.take(kids.len() as int) =~= kids);
        }
        let ghost n1 = self.snapshots@;
        if let Some(pid) = &parent {
            if let Some(pm) = self.snapshots.get(pid.as_str()) {
                let mut list = without_text(&pm.child_ids, id);
                let ghost base = texts(list@);
                let mut j: usize = 0;
                while j < children.len()
                    invariant
                        j <= children@.len(),
                        kids == texts(children@),
                        texts(list@) == adopting(base, kids.take(j as int)),
                    decreases children@.len() - j,
                {
                    proof {
                        assert(kids.take(j + 1).drop_last() =~= kids.take(j as int));
                        assert(kids.take(j + 1).last() == kids[j as int]);
                    }
                    if !str_eq(children[j].as_str(), LIVE_CHILD) {
                        include_text(&mut list, children[j].as_str());
                    }
                    j = j + 1;
                }
                set_children(&mut self.snapshots, pid.as_str(), list);
            }
        }
        let is_head = match &self.head {
            Some(h) => str_eq(h.as_str(), id),
            None => false,
        };
        if is_head {
            self.head = copy_opt(&parent);
            if let Some(nh) = &parent {
                mark_live(&mut self.snapshots, nh.as_str());
            }
        }
        proof {
            assert(self@.nodes =~= v0.unlinked(id@).nodes);
        }
    }
}

} // verus!
