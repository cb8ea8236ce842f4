//! Restoring the daemon's state when it starts: from its manifest, or from what the snapshots
//! directory holds.

use crate::config::{DaemonConfig, WsCkptError};
use crate::index::{SnapshotIndex, StringSet};
use crate::lifecycle::{
    has_snapshots, index_or_new, opt_index, reconciled, recover_index, recovered_index,
    registered_view, restored_index,
};
use crate::paths::normal_path;
use crate::policy::LoadPolicyOutcome;
use crate::registry::{
    first_spelled, lists_entries, RegistryView, WorkspaceEntry, WorkspaceView,
};
use crate::state::DaemonState;
use crate::string_map::StringMap;
use crate::text_list::texts;
use vstd::prelude::*;

verus! {

/// A workspace of the manifest, with what its files hold.
pub struct PersistedWorkspace {
    pub ws_id: String,
    pub path: String,
    /// The index file, unless it could not be read.
    pub index: Option<SnapshotIndex>,
    /// What reading the policy file gave.
    pub policy: Result<LoadPolicyOutcome, WsCkptError>,
}

impl PersistedWorkspace {
    /// What the workspace is registered as.
    pub open spec fn restored(self) -> WorkspaceView {
        registered_view(
            self.ws_id@,
            self.path@,
            index_or_new(opt_index(self.index), self.path@),
            self.policy,
        )
    }
}

/// The workspaces of a manifest by identifier. Of several with the same identifier the last one
/// counts.
pub open spec fn restored_ids(e: Seq<PersistedWorkspace>) -> Map<Seq<char>, WorkspaceView>
    decreases e.len(),
{
    if e.len() == 0 {
        Map::empty()
    } else {
        restored_ids(e.drop_last()).insert(e.last().ws_id@, e.last().restored())
    }
}

/// The identifiers of a manifest's workspaces by path.
pub open spec fn restored_paths(e: Seq<PersistedWorkspace>) -> Map<Seq<char>, Seq<char>>
    decreases e.len(),
{
    if e.len() == 0 {
        Map::empty()
    } else {
        restored_paths(e.drop_last()).insert(normal_path(e.last().path@), e.last().ws_id@)
    }
}

/// The spellings of the paths of a manifest's workspaces: of several the first one stays.
pub open spec fn restored_spellings(e: Seq<PersistedWorkspace>) -> Map<Seq<char>, Seq<char>>
    decreases e.len(),
{
    if e.len() == 0 {
        Map::empty()
    } else {
        first_spelled(restored_spellings(e.drop_last()), e.last().path@)
    }
}

/// The snapshots of a workspace whose subvolumes are there.
pub open spec fn on_disk(m: Map<Seq<char>, Map<Seq<char>, ()>>, id: Seq<char>) -> Set<Seq<char>> {
    if m.contains_key(id) {
        m[id].dom()
    } else {
        Set::empty()
    }
}

/// A workspace with its snapshots marked.
pub open spec fn reconciled_workspace(w: WorkspaceView, present: Set<Seq<char>>) -> WorkspaceView {
    WorkspaceView { index: reconciled(w.index, present), ..w }
}

/// Workspaces with their snapshots marked.
pub open spec fn reconciled_all(
    by_id: Map<Seq<char>, WorkspaceView>,
    present: Map<Seq<char>, Map<Seq<char>, ()>>,
) -> Map<Seq<char>, WorkspaceView> {
    by_id.map_entries(
        |id: Seq<char>, w: WorkspaceView| reconciled_workspace(w, on_disk(present, id)),
    )
}

/// Whether marking the snapshots of a workspace changes its index.
pub open spec fn changes(
    by_id: Map<Seq<char>, WorkspaceView>,
    present: Map<Seq<char>, Map<Seq<char>, ()>>,
    id: Seq<char>,
) -> bool {
    by_id.contains_key(id) && reconciled(by_id[id].index, on_disk(present, id)) != by_id[id].index
}

/// A directory of snapshots, with what is in it.
pub struct SnapshotBucket {
    /// The name of the directory.
    pub ws_id: String,
    /// The index file, unless it could not be read.
    pub index: Option<SnapshotIndex>,
    /// The snapshots that were found, unless they could not be read.
    pub found: Option<SnapshotIndex>,
    /// What reading the policy file gave.
    pub policy: Result<LoadPolicyOutcome, WsCkptError>,
}

impl SnapshotBucket {
    /// What the workspace of the directory is registered as, at the path that its index file
    /// names; none without an index file.
    pub open spec fn restored(self) -> Option<WorkspaceView> {
        match self.index {
            Some(i) => Some(
                registered_view(
                    self.ws_id@,
                    i@.workspace_path,
                    recovered_index(i@, opt_index(self.found)),
                    self.policy,
                ),
            ),
            None => None,
        }
    }

    /// Whether the index is to be saved, because snapshots were found that it did not have.
    pub open spec fn to_save(self) -> bool {
        self.index matches Some(i) && !has_snapshots(i@) && (self.found matches Some(f)
            && has_snapshots(f@))
    }
}

/// The workspaces of directories of snapshots by identifier.
pub open spec fn bucket_ids(b: Seq<SnapshotBucket>) -> Map<Seq<char>, WorkspaceView>
    decreases b.len(),
{
    if b.len() == 0 {
        Map::empty()
    } else {
        match b.last().restored() {
            Some(w) => bucket_ids(b.drop_last()).insert(w.ws_id, w),
            None => bucket_ids(b.drop_last()),
        }
    }
}

/// The identifiers of the workspaces of directories of snapshots by path.
pub open spec fn bucket_paths(b: Seq<SnapshotBucket>) -> Map<Seq<char>, Seq<char>>
    decreases b.len(),
{
    if b.len() == 0 {
        Map::empty()
    } else {
        match b.last().restored() {
            Some(w) => bucket_paths(b.drop_last()).insert(normal_path(w.path), w.ws_id),
            None => bucket_paths(b.drop_last()),
        }
    }
}

/// The spellings of the paths of the workspaces of directories of snapshots: of several the
/// first one stays.
pub open spec fn bucket_spellings(b: Seq<SnapshotBucket>) -> Map<Seq<char>, Seq<char>>
    decreases b.len(),
{
    if b.len() == 0 {
        Map::empty()
    } else {
        match b.last().restored() {
            Some(w) => first_spelled(bucket_spellings(b.drop_last()), w.path),
            None => bucket_spellings(b.drop_last()),
        }
    }
}

/// The identifiers of the workspaces whose index is to be saved.
pub open spec fn buckets_to_save(b: Seq<SnapshotBucket>) -> Seq<Seq<char>>
    decreases b.len(),
{
    if b.len() == 0 {
        Seq::empty()
    } else if b.last().to_save() {
        buckets_to_save(b.drop_last()).push(b.last().ws_id@)
    } else {
        buckets_to_save(b.drop_last())
    }
}

impl DaemonState {
    /// Marks the snapshots of every workspace; says whose indexes are to be saved. `present` has
    /// the names of the subvolumes that are there, by workspace.
    fn reconcile_all(&mut self, present: &StringMap<StringSet>) -> (changed: Vec<String>)
        ensures
            final(self).same_but_registry(*old(self)),
            final(self).registry@.paths == old(self).registry@.paths,
            final(self).registry@.spellings == old(self).registry@.spellings,
            final(self).registry@.by_id == reconciled_all(old(self).registry@.by_id, present@),
            texts(changed@).no_duplicates(),
            forall|id: Seq<char>| #[trigger]
                texts(changed@).contains(id) <==> changes(
                    old(self).registry@.by_id,
                    present@,
                    id,
                ),
    {
        let ghost by_id = self.registry@.by_id;
        let mut ids: Vec<String> = Vec::new();
        let all = self.all_workspaces();
        let mut i: usize = 0;
        while i < all.len()
            invariant
                i <= all@.len(),
                ids@.len() == i,
                forall|j: int| 0 <= j < i ==> (#[trigger] ids@[j])@ == all@[j].ws_id@,
            decreases all@.len() - i,
        {
            ids.push(all[i].ws_id.clone());
            i = i + 1;
        }
        proof {
            assert forall|j: int, k: int| 0 <= j < ids@.len() && 0 <= k < ids@.len() && j != k implies (
            #[trigger] ids@[j])@ != (#[trigger] ids@[k])@ by {
                assert(all@[j].ws_id@ != all@[k].ws_id@);
            }
            assert forall|j: int| 0 <= j < ids@.len() implies by_id.contains_key(
                (#[trigger] ids@[j])@,
            ) && by_id[ids@[j]@].ws_id == ids@[j]@ by {
                assert(by_id[all@[j].ws_id@] == all@[j]@);
            }
            assert forall|id: Seq<char>| #[trigger] by_id.contains_key(id) implies exists|j: int|
                0 <= j < ids@.len() && (#[trigger] ids@[j])@ == id by {
                let j = choose|j: int| 0 <= j < all@.len() && (#[trigger] all@[j]).ws_id@ == id;
                assert(ids@[j]@ == id);
            }
        }
        let none = StringSet::new();
        let mut changed: Vec<String> = Vec::new();
        let mut n: usize = 0;
        proof {
            assert(texts(changed@) =~= Seq::empty());
        }
        while n < ids.len()
            invariant
                n <= ids@.len(),
                none@ == Map::<Seq<char>, ()>::empty(),
                by_id == old(self).registry@.by_id,
                self.same_but_registry(*old(self)),
                self.registry@.paths == old(self).registry@.paths,
                self.registry@.spellings == old(self).registry@.spellings,
                self.registry@.by_id.dom() == by_id.dom(),
                forall|j: int, k: int|
                    0 <= j < ids@.len() && 0 <= k < ids@.len() && j != k ==> (#[trigger] ids@[j])@
                        != (#[trigger] ids@[k])@,
                forall|j: int|
                    0 <= j < ids@.len() ==> by_id.contains_key((#[trigger] ids@[j])@)
                        && by_id[ids@[j]@].ws_id == ids@[j]@,
                forall|id: Seq<char>| #[trigger]
                    by_id.contains_key(id) ==> exists|j: int|
                        0 <= j < ids@.len() && (#[trigger] ids@[j])@ == id,
                forall|j: int|
                    0 <= j < ids@.len() ==> self.registry@.by_id[(#[trigger] ids@[j])@] == if j < n {
                        reconciled_workspace(by_id[ids@[j]@], on_disk(present@, ids@[j]@))
                    } else {
                        by_id[ids@[j]@]
                    },
                texts(changed@).no_duplicates(),
                forall|id: Seq<char>| #[trigger]
                    texts(changed@).contains(id) ==> changes(by_id, present@, id) && exists|j: int|
                        0 <= j < n && (#[trigger] ids@[j])@ == id,
                forall|j: int|
                    0 <= j < n && changes(by_id, present@, (#[trigger] ids@[j])@) ==> texts(
                        changed@,
                    ).contains(ids@[j]@),
            decreases ids@.len() - n,
        {
            let ghost id = ids@[n as int]@;
            let ghost before = self.registry@.by_id;
            let ghost changed0 = changed@;
            let set = match present.get(ids[n].as_str()) {
                Some(s) => s,
                None => &none,
            };
            proof {
                assert(set@.dom() =~= on_disk(present@, id));
            }
            let differs = self.reconcile_workspace(ids[n].as_str(), set);
            proof {
                assert(self.registry@.by_id =~= before.insert(
                    id,
                    reconciled_workspace(by_id[id], on_disk(present@, id)),
                ));
                assert(self.registry@.by_id.dom() =~= by_id.dom());
            }
            if differs {
                changed.push(ids[n].clone());
                proof {
                    assert(texts(changed@) =~= texts(changed0).push(id));
                    if texts(changed0).contains(id) {
                        let j = choose|j: int| 0 <= j < n && (#[trigger] ids@[j])@ == id;
                        assert(ids@[j]@ != ids@[n as int]@);
                    }
                    assert(texts(changed@)[changed0.len() as int] == id);
                    assert forall|x: Seq<char>| #[trigger]
                        texts(changed@).contains(x) implies changes(by_id, present@, x) && exists|
                        j: int,
                    |
                        0 <= j < n + 1 && (#[trigger] ids@[j])@ == x by {
                        if x == id {
                            assert(ids@[n as int]@ == x);
                        } else {
                            let k = choose|k: int|
                                0 <= k < texts(changed@).len() && texts(changed@)[k] == x;
                            assert(texts(changed0)[k] == x);
                            assert(texts(changed0).contains(x));
                        }
                    }
                    assert forall|j: int|
                        0 <= j < n + 1 && changes(by_id, present@, (#[trigger] ids@[j])@) implies texts(
                        changed@,
                    ).contains(ids@[j]@) by {
                        if j < n {
                            let k = choose|k: int|
                                0 <= k < texts(changed0).len() && texts(changed0)[k] == ids@[j]@;
                            assert(texts(changed@)[k] == ids@[j]@);
                        }
                    }
                }
            }
            n = n + 1;
        }
        proof {
            let goal = reconciled_all(by_id, present@);
            assert forall|id: Seq<char>| by_id.contains_key(id) implies self.registry@.by_id[id]
                == goal[id] by {
                let j = choose|j: int| 0 <= j < ids@.len() && (#[trigger] ids@[j])@ == id;
                assert(ids@[j]@ == id);
            }
            assert(self.registry@.by_id =~= goal);
            assert forall|id: Seq<char>| #[trigger] texts(changed@).contains(id) <==> changes(
                by_id,
                present@,
                id,
            ) by {
                if changes(by_id, present@, id) {
                    let j = choose|j: int| 0 <= j < ids@.len() && (#[trigger] ids@[j])@ == id;
                    assert(ids@[j]@ == id);
                }
            }
        }
        changed
    }

    /// The state after a restart, from the workspaces of the manifest; and whose indexes are to
    /// be saved, because snapshots vanished or came back meanwhile. `present` has the names of
    /// the subvolumes that are there, by workspace.
    pub fn rebuild_from_persisted(
        entries: Vec<PersistedWorkspace>,
        present: &StringMap<StringSet>,
        config: DaemonConfig,
        roots: (String, String),
        state_dir: String,
        selection_method: String,
    ) -> (r: (DaemonState, Vec<String>))
        ensures
            r.0.config == config,
            r.0.data_root == roots.0,
            r.0.snapshots_root == roots.1,
            r.0.state_dir == state_dir,
            r.0.selection_method == selection_method,
            r.0.registry@.paths == restored_paths(entries@),
            r.0.registry@.spellings == restored_spellings(entries@),
            r.0.registry@.by_id == reconciled_all(restored_ids(entries@), present@),
            texts(r.1@).no_duplicates(),
            forall|id: Seq<char>| #[trigger]
                texts(r.1@).contains(id) <==> changes(restored_ids(entries@), present@, id),
    {
        let ghost all = entries@;
        let mut state = DaemonState::new(config, roots.0, roots.1, state_dir);
        state.selection_method = selection_method;
        let mut rest = entries;
        let ghost mut done: int = 0;
        proof {
            assert(all.skip(0) =~= all);
            assert(all.take(0) =~= Seq::empty());
        }
        while rest.len() > 0
            invariant
                0 <= done <= all.len(),
                rest@ == all.skip(done),
                state.registry@.by_id == restored_ids(all.take(done)),
                state.registry@.paths == restored_paths(all.take(done)),
                state.registry@.spellings == restored_spellings(all.take(done)),
                state.config == config,
                state.data_root == roots.0,
                state.snapshots_root == roots.1,
                state.state_dir == state_dir,
                state.selection_method == selection_method,
            decreases rest@.len(),
        {
            let e = rest.remove(0);
            proof {
                assert(e == all[done]);
                assert(all.skip(done).remove(0) =~= all.skip(done + 1));
                assert(all.take(done + 1).drop_last() =~= all.take(done));
            }
            let index = restored_index(e.index, e.path.as_str());
            state.finish_init(e.ws_id, e.path, index, e.policy);
            proof {
                done = done + 1;
            }
        }
        proof {
            assert(all.take(done) =~= all);
        }
        let changed = state.reconcile_all(present);
        (state, changed)
    }

    /// Restores the workspace of a directory of snapshots, if it has an index file; says whether
    /// the index is to be saved.
    pub fn rebuild_single_workspace(&mut self, bucket: SnapshotBucket) -> (save: bool)
        ensures
            final(self).same_but_registry(*old(self)),
            save == bucket.to_save(),
            match bucket.restored() {
                Some(w) => exists|number: usize|
                    final(self).registry@ == #[trigger] old(self).registry@.registered(w, number),
                None => final(self).registry@ == old(self).registry@,
            },
    {
        match bucket.index {
            None => false,
            Some(loaded) => {
                let path = loaded.workspace_path.clone();
                let (index, save) = recover_index(loaded, bucket.found);
                self.finish_init(bucket.ws_id, path, index, bucket.policy);
                save
            },
        }
    }

    /// The state after a restart without a manifest, from the directories of snapshots; and
    /// whose indexes are to be saved.
    pub fn rebuild_from_disk(
        buckets: Vec<SnapshotBucket>,
        config: DaemonConfig,
        roots: (String, String),
        state_dir: String,
    ) -> (r: (DaemonState, Vec<String>))
        ensures
            r.0.config == config,
            r.0.data_root == roots.0,
            r.0.snapshots_root == roots.1,
            r.0.state_dir == state_dir,
            r.0.selection_method@ == "auto-detect"@,
            r.0.registry@.by_id == bucket_ids(buckets@),
            r.0.registry@.paths == bucket_paths(buckets@),
            r.0.registry@.spellings == bucket_spellings(buckets@),
            texts(r.1@) == buckets_to_save(buckets@),
    {
        let ghost all = buckets@;
        let mut state = DaemonState::new(config, roots.0, roots.1, state_dir);
        let mut to_save: Vec<String> = Vec::new();
        let mut rest = buckets;
        let ghost mut done: int = 0;
        proof {
            assert(all.skip(0) =~= all);
            assert(all.take(0) =~= Seq::empty());
            assert(texts(to_save@) =~= Seq::empty());
        }
        while rest.len() > 0
            invariant
                0 <= done <= all.len(),
                rest@ == all.skip(done),
                state.registry@.by_id == bucket_ids(all.take(done)),
                state.registry@.paths == bucket_paths(all.take(done)),
                state.registry@.spellings == bucket_spellings(all.take(done)),
                texts(to_save@) == buckets_to_save(all.take(done)),
                state.config == config,
                state.data_root == roots.0,
                state.snapshots_root == roots.1,
                state.state_dir == state_dir,
                state.selection_method@ == "auto-detect"@,
            decreases rest@.len(),
        {
            let bucket = rest.remove(0);
            proof {
                assert(bucket == all[done]);
                assert(all.skip(done).remove(0) =~= all.skip(done + 1));
                assert(all.take(done + 1).drop_last() =~= all.take(done));
            }
            let ws_id = bucket.ws_id.clone();
            let ghost before = to_save@;
            if state.rebuild_single_workspace(bucket) {
                to_save.push(ws_id);
                proof {
                    assert(texts(to_save@) =~= texts(before).push(ws_id@));
                }
            }
            proof {
                done = done + 1;
            }
        }
        proof {
            assert(all.take(done) =~= all);
        }
        (state, to_save)
    }
}

/// Whether a workspace of the manifest is read back as it was: its entry, its index file, and
/// its policy file, which can be read.
pub open spec fn read_back(p: PersistedWorkspace, e: WorkspaceEntry, w: WorkspaceView) -> bool {
    &&& p.ws_id@ == e.ws_id@
    &&& p.path@ == e.workspace_path@
    &&& opt_index(p.index) == Some(w.index)
    &&& p.policy matches Ok(o) && o.policy() == w.policy
    &&& !w.policy_failsafe
}

/// Whether every snapshot of every workspace is marked missing exactly where it is not on disk.
pub open spec fn marks_agree(
    by_id: Map<Seq<char>, WorkspaceView>,
    present: Map<Seq<char>, Map<Seq<char>, ()>>,
) -> bool {
    forall|id: Seq<char>, k: Seq<char>|
        by_id.contains_key(id) && #[trigger] by_id[id].index.nodes.contains_key(k)
            ==> by_id[id].index.nodes[k].missing == !on_disk(present, id).contains(k)
}

/// The workspaces of a registry as a manifest lists them: each at its path as that was first
/// spelled.
pub open spec fn as_listed(v: RegistryView) -> Map<Seq<char>, WorkspaceView> {
    v.by_id.map_entries(
        |id: Seq<char>, w: WorkspaceView|
            WorkspaceView { path: v.spellings[normal_path(w.path)], ..w },
    )
}

/// Whether every workspace spells its path as it was first spelled.
pub open spec fn spelled_as_listed(v: RegistryView) -> bool {
    forall|id: Seq<char>| #[trigger]
        v.by_id.contains_key(id) ==> v.by_id[id].path == v.spellings[normal_path(v.by_id[id].path)]
}

/// A restart restores what was registered: where the manifest lists the registered paths, and
/// the index and policy files hold what is in memory, the workspaces come back as they were,
/// under the same identifiers and paths. A path that was registered again in another spelling
/// comes back in its first one. Where nothing on disk changed meanwhile, no mark changes either.
pub proof fn lemma_restart_restores(
    v: RegistryView,
    listed: Seq<WorkspaceEntry>,
    keys: Seq<Seq<char>>,
    e: Seq<PersistedWorkspace>,
    present: Map<Seq<char>, Map<Seq<char>, ()>>,
)
    requires
        v.keyed(),
        v.spelled(),
        v.paths_agree(),
        lists_entries(listed, v, keys),
        e.len() == listed.len(),
        forall|i: int|
            0 <= i < e.len() ==> read_back(
                #[trigger] e[i],
                listed[i],
                v.by_id[listed[i].ws_id@],
            ),
    ensures
        restored_ids(e) == as_listed(v),
        spelled_as_listed(v) ==> restored_ids(e) == v.by_id,
        restored_paths(e) == v.paths,
        restored_spellings(e) == v.spellings,
        marks_agree(v.by_id, present) ==> reconciled_all(restored_ids(e), present) == as_listed(v),
{
    let goal = as_listed(v);
    lemma_restored_prefix(v, listed, keys, e, e.len() as int);
    assert(e.take(e.len() as int) =~= e);
    assert forall|id: Seq<char>| #[trigger] goal.contains_key(id) implies restored_ids(
        e,
    ).contains_key(id) by {
        let p = normal_path(v.by_id[id].path);
        assert(v.paths.contains_key(p));
        assert(keys.contains(p));
        let i = choose|i: int| 0 <= i < keys.len() && keys[i] == p;
        assert(listed[i].ws_id@ == id);
        assert(e[i].ws_id@ == id);
    }
    assert(restored_ids(e) =~= goal);
    assert forall|p: Seq<char>| #[trigger] v.paths.contains_key(p) implies restored_paths(
        e,
    ).contains_key(p) && restored_spellings(e).contains_key(p) by {
        assert(keys.contains(p));
        let i = choose|i: int| 0 <= i < keys.len() && keys[i] == p;
        assert(v.spellings.dom().contains(p));
        assert(normal_path(e[i].path@) == p);
    }
    assert(restored_paths(e) =~= v.paths);
    assert(restored_spellings(e) =~= v.spellings) by {
        assert forall|p: Seq<char>| #[trigger]
            v.spellings.contains_key(p) implies restored_spellings(e).contains_key(p) by {
            assert(v.spellings.dom().contains(p));
            assert(v.paths.contains_key(p));
        }
    }
    if spelled_as_listed(v) {
        assert(goal =~= v.by_id);
    }
    if marks_agree(v.by_id, present) {
        assert forall|id: Seq<char>| #[trigger] goal.contains_key(id) implies reconciled_all(
            goal,
            present,
        )[id] == goal[id] by {
            let w = v.by_id[id];
            assert(reconciled(w.index, on_disk(present, id)).nodes =~= w.index.nodes);
        }
        assert(reconciled_all(goal, present) =~= goal);
    }
}

proof fn lemma_restored_prefix(
    v: RegistryView,
    listed: Seq<WorkspaceEntry>,
    keys: Seq<Seq<char>>,
    e: Seq<PersistedWorkspace>,
    n: int,
)
    requires
        v.keyed(),
        v.spelled(),
        v.paths_agree(),
        lists_entries(listed, v, keys),
        e.len() == listed.len(),
        0 <= n <= e.len(),
        forall|i: int|
            0 <= i < e.len() ==> read_back(
                #[trigger] e[i],
                listed[i],
                v.by_id[listed[i].ws_id@],
            ),
    ensures
        forall|id: Seq<char>| #[trigger]
            restored_ids(e.take(n)).contains_key(id) ==> v.by_id.contains_key(id) && restored_ids(
                e.take(n),
            )[id] == as_listed(v)[id],
        forall|p: Seq<char>| #[trigger]
            restored_paths(e.take(n)).contains_key(p) ==> v.paths.contains_key(p)
                && restored_paths(e.take(n))[p] == v.paths[p],
        forall|p: Seq<char>| #[trigger]
            restored_spellings(e.take(n)).contains_key(p) ==> v.spellings.contains_key(p)
                && restored_spellings(e.take(n))[p] == v.spellings[p],
        forall|i: int|
            0 <= i < n ==> restored_ids(e.take(n)).contains_key((#[trigger] e[i]).ws_id@)
                && restored_paths(e.take(n)).contains_key(normal_path(e[i].path@))
                && restored_spellings(e.take(n)).contains_key(normal_path(e[i].path@)),
    decreases n,
{
    if n > 0 {
        let m = n - 1;
        lemma_restored_prefix(v, listed, keys, e, m);
        assert(e.take(n).drop_last() =~= e.take(m));
        assert(e.take(n).last() == e[m]);
        assert(read_back(e[m], listed[m], v.by_id[listed[m].ws_id@]));
        let p = keys[m];
        let id = v.paths[p];
        let w = as_listed(v)[id];
        assert(v.spellings.dom().contains(p));
        assert(normal_path(e[m].path@) == p);
        assert(e[m].restored() == w);
        assert(restored_ids(e.take(n)) == restored_ids(e.take(m)).insert(id, w));
        assert(restored_paths(e.take(n)) == restored_paths(e.take(m)).insert(p, id));
        assert(restored_spellings(e.take(n)) == first_spelled(
            restored_spellings(e.take(m)),
            v.spellings[p],
        ));
    } else {
        assert(restored_ids(e.take(0)) == Map::<Seq<char>, WorkspaceView>::empty());
        assert(restored_paths(e.take(0)) == Map::<Seq<char>, Seq<char>>::empty());
        assert(restored_spellings(e.take(0)) == Map::<Seq<char>, Seq<char>>::empty());
    }
}

} // verus!
