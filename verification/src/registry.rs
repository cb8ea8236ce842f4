//! The registered workspaces, found by identifier and by path.

use crate::dash::{
    get_handle, get_text, handle_entries, insert_handle, insert_text, list_handles, list_texts,
    lists_handles, lists_texts, new_handles, new_texts, remove_handle, remove_text, text_entries,
};
use crate::index::{IndexView, SnapshotIndex};
use crate::paths::{components, lemma_normal_path_is_faithful, normal_path, normalize_path};
use crate::policy::{PolicyView, WorkspacePolicy};
use crate::text::str_eq;
use vstd::prelude::*;

verus! {

/// What is known of one workspace.
pub struct WorkspaceState {
    pub ws_id: String,
    /// The user-facing path, as it was registered.
    pub path: String,
    pub index: SnapshotIndex,
    /// The workspace's policy override.
    pub policy: WorkspacePolicy,
    /// Whether `policy` stands in for one that could not be read.
    pub policy_failsafe: bool,
}

/// What a workspace's state says.
pub struct WorkspaceView {
    pub ws_id: Seq<char>,
    pub path: Seq<char>,
    pub index: IndexView,
    pub policy: PolicyView,
    pub policy_failsafe: bool,
}

impl View for WorkspaceState {
    type V = WorkspaceView;

    open spec fn view(&self) -> WorkspaceView {
        WorkspaceView {
            ws_id: self.ws_id@,
            path: self.path@,
            index: self.index@,
            policy: self.policy@,
            policy_failsafe: self.policy_failsafe,
        }
    }
}

/// The registered workspaces. Each registration has a number of its own, which no later
/// registration gets.
pub struct Registry {
    /// Registration numbers by workspace identifier.
    workspaces: dashmap::DashMap<String, usize>,
    /// Workspace identifiers by normal path.
    path_to_wsid: dashmap::DashMap<String, String>,
    /// The spellings that paths were first registered in, by normal path.
    spellings: dashmap::DashMap<String, String>,
    /// Workspace states by registration number; none where the registration has ended.
    slots: Vec<Option<WorkspaceState>>,
}

/// What a registry says.
pub struct RegistryView {
    /// Workspaces by identifier.
    pub by_id: Map<Seq<char>, WorkspaceView>,
    /// Registration numbers by identifier.
    pub numbers: Map<Seq<char>, usize>,
    /// Identifiers by normal path. A path may outlive the registration that it came from.
    pub paths: Map<Seq<char>, Seq<char>>,
    /// How each of these paths was spelled when it was first registered, by normal path.
    pub spellings: Map<Seq<char>, Seq<char>>,
}

/// The spellings of paths, with one more path. A path that has a spelling keeps it.
pub open spec fn first_spelled(m: Map<Seq<char>, Seq<char>>, path: Seq<char>) -> Map<
    Seq<char>,
    Seq<char>,
> {
    if m.contains_key(normal_path(path)) {
        m
    } else {
        m.insert(normal_path(path), path)
    }
}

impl RegistryView {
    /// The workspace with that identifier.
    pub open spec fn get(self, ws_id: Seq<char>) -> Option<WorkspaceView> {
        if self.by_id.contains_key(ws_id) {
            Some(self.by_id[ws_id])
        } else {
            None
        }
    }

    /// The identifier that a path is registered under.
    pub open spec fn id_at(self, path: Seq<char>) -> Option<Seq<char>> {
        if self.paths.contains_key(normal_path(path)) {
            Some(self.paths[normal_path(path)])
        } else {
            None
        }
    }

    /// The workspace registered at a path.
    pub open spec fn at(self, path: Seq<char>) -> Option<WorkspaceView> {
        match self.id_at(path) {
            Some(id) => self.get(id),
            None => None,
        }
    }

    /// The registry with one more workspace, in place of one of the same identifier.
    pub open spec fn registered(self, w: WorkspaceView, number: usize) -> RegistryView {
        RegistryView {
            by_id: self.by_id.insert(w.ws_id, w),
            numbers: self.numbers.insert(w.ws_id, number),
            paths: self.paths.insert(normal_path(w.path), w.ws_id),
            spellings: first_spelled(self.spellings, w.path),
        }
    }

    /// The registry without a workspace and without the path that it was registered at.
    pub open spec fn unregistered(self, ws_id: Seq<char>) -> RegistryView {
        if self.by_id.contains_key(ws_id) {
            RegistryView {
                by_id: self.by_id.remove(ws_id),
                numbers: self.numbers.remove(ws_id),
                paths: self.paths.remove(normal_path(self.by_id[ws_id].path)),
                spellings: self.spellings.remove(normal_path(self.by_id[ws_id].path)),
            }
        } else {
            self
        }
    }

    /// Each workspace is kept under its own identifier.
    pub open spec fn keyed(self) -> bool {
        forall|id: Seq<char>| #[trigger]
            self.by_id.contains_key(id) ==> self.by_id[id].ws_id == id
    }

    /// Each path has a spelling, which is one of that path.
    pub open spec fn spelled(self) -> bool {
        &&& self.spellings.dom() == self.paths.dom()
        &&& forall|p: Seq<char>| #[trigger]
            self.spellings.contains_key(p) ==> normal_path(self.spellings[p]) == p
    }

    /// Paths and workspaces agree: each path leads to a workspace that is registered there, and
    /// each workspace is found at its path.
    pub open spec fn paths_agree(self) -> bool {
        &&& forall|p: Seq<char>| #[trigger]
            self.paths.contains_key(p) ==> self.by_id.contains_key(self.paths[p]) && normal_path(
                self.by_id[self.paths[p]].path,
            ) == p
        &&& forall|id: Seq<char>| #[trigger]
            self.by_id.contains_key(id) ==> self.paths.contains_key(
                normal_path(self.by_id[id].path),
            ) && self.paths[normal_path(self.by_id[id].path)] == id
    }

    /// The registry with the state of a workspace replaced.
    pub open spec fn updated(self, w: WorkspaceView) -> RegistryView {
        RegistryView { by_id: self.by_id.insert(w.ws_id, w), ..self }
    }
}

impl View for Registry {
    type V = RegistryView;

    closed spec fn view(&self) -> RegistryView {
        let numbers = handle_entries(self.workspaces);
        RegistryView {
            by_id: Map::new(
                |id: Seq<char>| numbers.contains_key(id),
                |id: Seq<char>| self.slots@[numbers[id] as int]->0@,
            ),
            numbers,
            paths: text_entries(self.path_to_wsid),
            spellings: text_entries(self.spellings),
        }
    }
}

spec fn slots_hold(slots: Seq<Option<WorkspaceState>>, numbers: Map<Seq<char>, usize>) -> bool {
    forall|id: Seq<char>| #[trigger]
        numbers.contains_key(id) ==> numbers[id] < slots.len() && slots[numbers[id] as int] is Some
            && slots[numbers[id] as int]->0.ws_id@ == id
}

/// A list of all the workspaces of a registry, in no particular order, each once.
pub open spec fn lists_all(v: Seq<&WorkspaceState>, by_id: Map<Seq<char>, WorkspaceView>) -> bool {
    &&& forall|i: int, j: int|
        0 <= i < v.len() && 0 <= j < v.len() && i != j ==> (#[trigger] v[i]).ws_id@ != (
        #[trigger] v[j]).ws_id@
    &&& forall|i: int|
        0 <= i < v.len() ==> by_id.contains_key((#[trigger] v[i]).ws_id@) && by_id[v[i].ws_id@]
            == v[i]@
    &&& forall|k: Seq<char>| #[trigger]
        by_id.contains_key(k) ==> exists|i: int| 0 <= i < v.len() && (#[trigger] v[i]).ws_id@ == k
}

impl Registry {
    #[verifier::type_invariant]
    spec fn wf(self) -> bool {
        slots_hold(self.slots@, handle_entries(self.workspaces)) && self@.spelled()
    }

    /// A registry without workspaces.
    pub fn new() -> (r: Self)
        ensures
            r@.by_id == Map::<Seq<char>, WorkspaceView>::empty(),
            r@.numbers == Map::<Seq<char>, usize>::empty(),
            r@.paths == Map::<Seq<char>, Seq<char>>::empty(),
            r@.spellings == Map::<Seq<char>, Seq<char>>::empty(),
            r@.keyed(),
            r@.spelled(),
    {
        let r = Registry {
            workspaces: new_handles(),
            path_to_wsid: new_texts(),
            spellings: new_texts(),
            slots: Vec::new(),
        };
        proof {
            assert(r@.by_id =~= Map::<Seq<char>, WorkspaceView>::empty());
        }
        r
    }

    /// Registers a workspace, in place of one of the same identifier, and returns the number
    /// of the registration.
    pub fn register(&mut self, state: WorkspaceState) -> (number: usize)
        ensures
            final(self)@ == old(self)@.registered(state@, number),
            final(self)@.keyed(),
            final(self)@.spelled(),
            forall|id: Seq<char>| #[trigger]
                old(self)@.numbers.contains_key(id) ==> old(self)@.numbers[id] < number,
    {
        proof {
            use_type_invariant(&*self);
        }
        let ghost v0 = self@;
        let ghost w = state@;
        let number: usize = self.slots.len();
        let ws_id = state.ws_id.clone();
        let path = normalize_path(state.path.as_str());
        let spelling = state.path.clone();
        let earlier = get_handle(&self.workspaces, ws_id.as_str());
        // The parts are taken out while they are changed.
        let mut taken = Registry::new();
        std::mem::swap(&mut taken, self);
        let Registry { mut workspaces, mut path_to_wsid, mut spellings, mut slots } = taken;
        let ghost s0 = slots@;
        let ghost n0 = handle_entries(workspaces);
        slots.push(Some(state));
        if let Some(n) = earlier {
            slots.set(n, None);
        }
        insert_handle(&mut workspaces, ws_id.clone(), number);
        proof {
            let n1 = handle_entries(workspaces);
            assert forall|id: Seq<char>| #[trigger] n1.contains_key(id) implies n1[id] < slots@.len()
                && slots@[n1[id] as int] is Some && slots@[n1[id] as int]->0.ws_id@ == id by {
                if id != ws_id@ {
                    assert(n0.contains_key(id));
                    assert(s0[n0[id] as int]->0.ws_id@ == id);
                }
            }
        }
        if get_text(&spellings, path.as_str()).is_none() {
            insert_text(&mut spellings, path.clone(), spelling);
        }
        insert_text(&mut path_to_wsid, path, ws_id);
        proof {
            lemma_registered_is_spelled(v0, w, number);
        }
        let fresh = Registry { workspaces, path_to_wsid, spellings, slots };
        proof {
            assert(fresh@.by_id =~= v0.registered(w, number).by_id);
        }
        *self = fresh;
        number
    }

    /// The number of the current registration of a workspace.
    pub fn number_of(&self, ws_id: &str) -> (r: Option<usize>)
        ensures
            match r {
                Some(n) => self@.numbers.contains_key(ws_id@) && n == self@.numbers[ws_id@],
                None => !self@.numbers.contains_key(ws_id@),
            },
            self@.numbers.contains_key(ws_id@) == self@.by_id.contains_key(ws_id@),
    {
        get_handle(&self.workspaces, ws_id)
    }

    /// The workspace with that identifier.
    pub fn get_by_wsid(&self, ws_id: &str) -> (r: Option<&WorkspaceState>)
        ensures
            match r {
                Some(w) => self@.get(ws_id@) == Some(w@) && w.ws_id@ == ws_id@,
                None => self@.get(ws_id@) is None,
            },
    {
        proof {
            use_type_invariant(self);
        }
        match get_handle(&self.workspaces, ws_id) {
            Some(n) => self.slots[n].as_ref(),
            None => None,
        }
    }

    /// The identifier that a path is registered under, however its slashes are spelled.
    pub fn wsid_for_exact_registration_path(&self, path: &str) -> (r: Option<String>)
        ensures
            crate::text_list::opt_text(r) == self@.id_at(path@),
    {
        get_text(&self.path_to_wsid, normalize_path(path).as_str())
    }

    /// The workspace registered at a path.
    pub fn get_by_path(&self, path: &str) -> (r: Option<&WorkspaceState>)
        ensures
            match r {
                Some(w) => self@.at(path@) == Some(w@),
                None => self@.at(path@) is None,
            },
    {
        match self.wsid_for_exact_registration_path(path) {
            Some(id) => self.get_by_wsid(id.as_str()),
            None => None,
        }
    }

    /// Whether both ways of finding a workspace still lead to the registration with that
    /// number.
    pub fn exact_registration_is_current(&self, path: &str, ws_id: &str, number: usize) -> (r: bool)
        ensures
            r == (self@.id_at(path@) == Some(ws_id@) && self@.numbers.contains_key(ws_id@)
                && self@.numbers[ws_id@] == number),
    {
        let path_matches = match self.wsid_for_exact_registration_path(path) {
            Some(id) => str_eq(id.as_str(), ws_id),
            None => false,
        };
        let workspace_matches = match self.number_of(ws_id) {
            Some(n) => n == number,
            None => false,
        };
        path_matches && workspace_matches
    }

    /// Ends the registration of a workspace.
    pub fn unregister(&mut self, ws_id: &str)
        ensures
            final(self)@ == old(self)@.unregistered(ws_id@),
            final(self)@.keyed(),
            final(self)@.spelled(),
    {
        proof {
            use_type_invariant(&*self);
        }
        let ghost v0 = self@;
        if let Some(n) = get_handle(&self.workspaces, ws_id) {
            let path = match &self.slots[n] {
                Some(w) => normalize_path(w.path.as_str()),
                None => String::new(),
            };
            let mut taken = Registry::new();
            std::mem::swap(&mut taken, self);
            let Registry { mut workspaces, mut path_to_wsid, mut spellings, mut slots } = taken;
            let ghost s0 = slots@;
            let ghost n0 = handle_entries(workspaces);
            slots.set(n, None);
            remove_handle(&mut workspaces, ws_id);
            proof {
                let n1 = handle_entries(workspaces);
                assert forall|id: Seq<char>| #[trigger] n1.contains_key(id) implies n1[id]
                    < slots@.len() && slots@[n1[id] as int] is Some && slots@[n1[id] as int]->0.ws_id@
                    == id by {
                    assert(n0.contains_key(id));
                    assert(s0[n0[id] as int]->0.ws_id@ == id);
                }
            }
            remove_text(&mut path_to_wsid, path.as_str());
            remove_text(&mut spellings, path.as_str());
            let fresh = Registry { workspaces, path_to_wsid, spellings, slots };
            proof {
                assert(fresh@.by_id =~= v0.unregistered(ws_id@).by_id);
            }
            *self = fresh;
        }
    }

    /// Replaces the state of a registered workspace; the registration stays the same. A
    /// workspace that is not registered is not added.
    pub fn update(&mut self, state: WorkspaceState)
        ensures
            final(self)@ == if old(self)@.by_id.contains_key(state.ws_id@) {
                old(self)@.updated(state@)
            } else {
                old(self)@
            },
            final(self)@.keyed(),
            final(self)@.spelled(),
    {
        proof {
            use_type_invariant(&*self);
        }
        let ghost v0 = self@;
        let ghost w = state@;
        if let Some(n) = get_handle(&self.workspaces, state.ws_id.as_str()) {
            let mut taken = Registry::new();
            std::mem::swap(&mut taken, self);
            let Registry { workspaces, path_to_wsid, spellings, mut slots } = taken;
            let ghost s0 = slots@;
            let ghost n0 = handle_entries(workspaces);
            slots.set(n, Some(state));
            proof {
                assert forall|id: Seq<char>| #[trigger] n0.contains_key(id) implies n0[id]
                    < slots@.len() && slots@[n0[id] as int] is Some && slots@[n0[id] as int]->0.ws_id@
                    == id by {
                    assert(s0[n0[id] as int]->0.ws_id@ == id);
                }
            }
            let fresh = Registry { workspaces, path_to_wsid, spellings, slots };
            proof {
                assert forall|id: Seq<char>| #[trigger] n0.contains_key(id) implies fresh@.by_id[id]
                    == v0.updated(w).by_id[id] by {
                    assert(s0[n0[id] as int]->0.ws_id@ == id);
                }
                assert(fresh@.by_id =~= v0.updated(w).by_id);
            }
            *self = fresh;
        }
    }

    /// All the workspaces, in no particular order.
    pub fn all_workspaces(&self) -> (r: Vec<&WorkspaceState>)
        ensures
            lists_all(r@, self@.by_id),
    {
        proof {
            use_type_invariant(self);
        }
        let numbers = list_handles(&self.workspaces);
        let mut r: Vec<&WorkspaceState> = Vec::new();
        let mut i: usize = 0;
        while i < numbers.len()
            invariant
                i <= numbers@.len(),
                slots_hold(self.slots@, handle_entries(self.workspaces)),
                lists_handles(numbers@, handle_entries(self.workspaces)),
                r@.len() == i,
                forall|j: int|
                    0 <= j < i ==> (#[trigger] r@[j]).ws_id@ == numbers@[j].0@
                        && self@.by_id[numbers@[j].0@] == r@[j]@,
            decreases numbers@.len() - i,
        {
            let n: usize = numbers[i].1;
            proof {
                assert(handle_entries(self.workspaces).contains_key(numbers@[i as int].0@));
            }
            if let Some(w) = &self.slots[n] {
                r.push(w);
            }
            i = i + 1;
        }
        proof {
            assert forall|k: Seq<char>| #[trigger] self@.by_id.contains_key(k) implies exists|i: int|
                0 <= i < r@.len() && (#[trigger] r@[i]).ws_id@ == k by {
                assert(handle_entries(self.workspaces).contains_key(k));
                let i = choose|i: int| 0 <= i < numbers@.len() && (#[trigger] numbers@[i]).0@ == k;
                assert(r@[i].ws_id@ == k);
            }
        }
        r
    }

    /// Every registered path whose workspace is registered, as it was first spelled, with the
    /// workspace's identifier, in no particular order.
    pub fn collect_workspace_entries(&self) -> (r: Vec<WorkspaceEntry>)
        ensures
            exists|keys: Seq<Seq<char>>| #[trigger] lists_entries(r@, self@, keys),
    {
        proof {
            use_type_invariant(self);
        }
        let all = list_texts(&self.path_to_wsid);
        let ghost mut keys: Seq<Seq<char>> = Seq::empty();
        let mut r: Vec<WorkspaceEntry> = Vec::new();
        let mut i: usize = 0;
        while i < all.len()
            invariant
                i <= all@.len(),
                lists_texts(all@, self@.paths),
                self@.spelled(),
                entries_at(r@, self@, keys),
                keys.no_duplicates(),
                forall|p: Seq<char>| #[trigger]
                    keys.contains(p) <==> self@.by_id.contains_key(self@.paths[p]) && exists|q: int|
                        0 <= q < i && (#[trigger] all@[q]).0@ == p,
            decreases all@.len() - i,
        {
            let key = &all[i].0;
            let ws_id = &all[i].1;
            let ghost before = keys;
            proof {
                assert(self@.paths.contains_key(all@[i as int].0@));
                assert(self@.spellings.dom().contains(key@));
            }
            if self.number_of(ws_id.as_str()).is_some() {
                let workspace_path = match get_text(&self.spellings, key.as_str()) {
                    Some(s) => s,
                    None => key.clone(),
                };
                r.push(WorkspaceEntry { ws_id: ws_id.clone(), workspace_path });
                proof {
                    if before.contains(key@) {
                        let q = choose|q: int| 0 <= q < i && (#[trigger] all@[q]).0@ == key@;
                        assert(all@[q].0@ != all@[i as int].0@);
                    }
                    keys = before.push(key@);
                }
            }
            proof {
                assert forall|p: Seq<char>| #[trigger] keys.contains(p) <==> self@.by_id.contains_key(
                    self@.paths[p],
                ) && exists|q: int| 0 <= q < i + 1 && (#[trigger] all@[q]).0@ == p by {
                    if keys.contains(p) {
                        let n = choose|n: int| 0 <= n < keys.len() && keys[n] == p;
                        if n < before.len() {
                            assert(before[n] == p);
                            assert(before.contains(p));
                        } else {
                            assert(all@[i as int].0@ == p);
                        }
                    }
                    if self@.by_id.contains_key(self@.paths[p]) && exists|q: int|
                        0 <= q < i + 1 && (#[trigger] all@[q]).0@ == p {
                        let q = choose|q: int| 0 <= q < i + 1 && (#[trigger] all@[q]).0@ == p;
                        if q == i {
                            assert(keys.last() == p);
                        } else {
                            assert(before.contains(p));
                            let n = choose|n: int| 0 <= n < before.len() && before[n] == p;
                            assert(keys[n] == p);
                        }
                    }
                }
            }
            i = i + 1;
        }
        assert(lists_entries(r@, self@, keys));
        r
    }
}

/// A registered path and its workspace, as the daemon's manifest lists them.
#[derive(Debug, PartialEq, Eq)]
pub struct WorkspaceEntry {
    pub ws_id: String,
    pub workspace_path: String,
}

/// Whether entries are those of registered paths, each as it was first spelled and with the
/// registered workspace that it leads to.
pub open spec fn entries_at(
    r: Seq<WorkspaceEntry>,
    v: RegistryView,
    keys: Seq<Seq<char>>,
) -> bool {
    &&& r.len() == keys.len()
    &&& forall|i: int|
        0 <= i < r.len() ==> {
            &&& v.paths.contains_key(#[trigger] keys[i])
            &&& v.by_id.contains_key(v.paths[keys[i]])
            &&& r[i].ws_id@ == v.paths[keys[i]]
            &&& r[i].workspace_path@ == v.spellings[keys[i]]
        }
}

/// Whether entries are those of all the registered paths that lead to a registered workspace,
/// each once, in the order of `keys`.
pub open spec fn lists_entries(
    r: Seq<WorkspaceEntry>,
    v: RegistryView,
    keys: Seq<Seq<char>>,
) -> bool {
    &&& entries_at(r, v, keys)
    &&& keys.no_duplicates()
    &&& forall|p: Seq<char>| #[trigger]
        v.paths.contains_key(p) && v.by_id.contains_key(v.paths[p]) ==> keys.contains(p)
}

proof fn lemma_registered_is_spelled(v: RegistryView, w: WorkspaceView, number: usize)
    requires
        v.spelled(),
    ensures
        v.registered(w, number).spelled(),
{
    let r = v.registered(w, number);
    assert(v.spellings.contains_key(normal_path(w.path)) == v.spellings.dom().contains(
        normal_path(w.path),
    ));
    assert(r.spellings.dom() =~= r.paths.dom());
}

/// A path keeps the spelling that it was first registered in, however it is spelled when it is
/// registered again, until a workspace that is registered there is unregistered.
pub proof fn lemma_first_spelling_stays(
    v: RegistryView,
    w: WorkspaceView,
    number: usize,
    path: Seq<char>,
    ws_id: Seq<char>,
)
    requires
        v.spelled(),
    ensures
        v.id_at(path) is Some ==> v.registered(w, number).spellings[normal_path(path)]
            == v.spellings[normal_path(path)],
        v.id_at(w.path) is None ==> v.registered(w, number).spellings[normal_path(w.path)]
            == w.path,
        v.get(ws_id) matches Some(x) ==> (normal_path(x.path) == normal_path(path)
            ==> !v.unregistered(ws_id).spellings.contains_key(normal_path(path))),
{
    assert(v.spellings.contains_key(normal_path(path)) == v.spellings.dom().contains(
        normal_path(path),
    ));
    assert(v.spellings.contains_key(normal_path(w.path)) == v.spellings.dom().contains(
        normal_path(w.path),
    ));
}

/// A workspace that was just registered is found by its identifier and by its path.
pub proof fn lemma_registered_is_found(v: RegistryView, w: WorkspaceView, number: usize)
    ensures
        v.registered(w, number).get(w.ws_id) == Some(w),
        v.registered(w, number).at(w.path) == Some(w),
{
}

/// After a workspace is unregistered it is found neither by its identifier nor by the path it
/// was registered at, and every other workspace is found by its identifier as before.
pub proof fn lemma_unregistered_is_gone(v: RegistryView, ws_id: Seq<char>, other: Seq<char>)
    requires
        v.get(ws_id) is Some,
    ensures
        v.unregistered(ws_id).get(ws_id) is None,
        v.unregistered(ws_id).at(v.by_id[ws_id].path) is None,
        other != ws_id ==> v.unregistered(ws_id).get(other) == v.get(other),
{
}

/// A second registration of an identifier replaces the first; its new path leads to it, and so
/// does the old one.
pub proof fn lemma_reregistration_wins(
    v: RegistryView,
    first: WorkspaceView,
    second: WorkspaceView,
    m: usize,
    n: usize,
)
    requires
        first.ws_id == second.ws_id,
    ensures
        v.registered(first, m).registered(second, n).get(second.ws_id) == Some(second),
        v.registered(first, m).registered(second, n).at(second.path) == Some(second),
        v.registered(first, m).registered(second, n).at(first.path) == Some(second),
        v.registered(first, m).registered(second, n).by_id == v.registered(second, n).by_id,
{
    assert(v.registered(first, m).registered(second, n).by_id =~= v.registered(second, n).by_id);
}

/// A workspace is found by every spelling of the path it was registered at, and registering it
/// changes nothing about any other path.
pub proof fn lemma_any_spelling_finds(
    v: RegistryView,
    w: WorkspaceView,
    number: usize,
    path: Seq<char>,
)
    ensures
        components(path) == components(w.path) ==> v.registered(w, number).at(path) == Some(w),
        components(path) != components(w.path) ==> v.registered(w, number).id_at(path) == v.id_at(
            path,
        ),
{
    lemma_normal_path_is_faithful(path, w.path);
}

/// Paths and workspaces go on agreeing when a workspace is registered under a new identifier at
/// a path that leads nowhere, when its state is replaced without moving it, and when it is
/// unregistered.
pub proof fn lemma_paths_keep_agreeing(
    v: RegistryView,
    w: WorkspaceView,
    number: usize,
    ws_id: Seq<char>,
)
    requires
        v.keyed(),
        v.paths_agree(),
    ensures
        v.get(w.ws_id) is None && v.id_at(w.path) is None ==> v.registered(w, number).paths_agree(),
        v.get(w.ws_id) matches Some(x) && normal_path(x.path) == normal_path(w.path)
            ==> v.updated(w).paths_agree(),
        v.unregistered(ws_id).paths_agree(),
{
}

} // verus!
