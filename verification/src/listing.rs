//! Selecting the snapshots of a page: the keys that come next in the order of pages.

use crate::registry::{lists_all, WorkspaceState, WorkspaceView};
use crate::snapshot::{earlier, TimeView, Timestamp};
use crate::state::DaemonState;
use crate::text::{
    lemma_text_order_strict, lemma_text_order_total, lemma_text_order_transitive, str_before,
    str_eq, text_before,
};
use crate::text_list::opt_str;
use vstd::prelude::*;

verus! {

/// Default maximum entries requested per snapshot page.
pub const DEFAULT_LIST_PAGE_LIMIT: u32 = 100;

/// Largest accepted snapshot page entry limit.
pub const MAX_LIST_PAGE_LIMIT: u32 = 1000;

/// Preferred page payload budget; a larger single entry may use the frame limit.
pub const LIST_PAGE_TARGET_BYTES: u64 = 1_048_576;

/// Maximum UTF-8 byte length of an opaque snapshot-list cursor.
pub const MAX_LIST_CURSOR_BYTES: usize = 8192;

/// The place of a snapshot in the order of pages.
#[derive(Debug, PartialEq, Eq)]
pub struct Key {
    pub created_at: Timestamp,
    pub ws_id: String,
    pub id: String,
}

/// What a key says.
pub struct KeyView {
    pub created_at: TimeView,
    pub ws_id: Seq<char>,
    pub id: Seq<char>,
}

impl View for Key {
    type V = KeyView;

    open spec fn view(&self) -> KeyView {
        KeyView { created_at: self.created_at@, ws_id: self.ws_id@, id: self.id@ }
    }
}

/// The order of pages: by creation time, then by workspace, then by snapshot.
pub open spec fn key_before(a: KeyView, b: KeyView) -> bool {
    ||| earlier(a.created_at, b.created_at)
    ||| a.created_at == b.created_at && text_before(a.ws_id, b.ws_id)
    ||| a.created_at == b.created_at && a.ws_id == b.ws_id && text_before(a.id, b.id)
}

/// Of two keys one comes first, or they are the same; never both.
pub proof fn lemma_key_order_total(a: KeyView, b: KeyView)
    ensures
        a == b || key_before(a, b) || key_before(b, a),
        !(key_before(a, b) && key_before(b, a)),
        !key_before(a, a),
{
    lemma_text_order_total(a.ws_id, b.ws_id);
    lemma_text_order_total(a.id, b.id);
    lemma_text_order_strict(a.ws_id, b.ws_id);
    lemma_text_order_strict(a.id, b.id);
}

/// The order of keys is transitive.
pub proof fn lemma_key_order_transitive(a: KeyView, b: KeyView, c: KeyView)
    requires
        key_before(a, b),
        key_before(b, c),
    ensures
        key_before(a, c),
{
    if a.created_at == b.created_at && b.created_at == c.created_at {
        if text_before(a.ws_id, b.ws_id) && text_before(b.ws_id, c.ws_id) {
            lemma_text_order_transitive(a.ws_id, b.ws_id, c.ws_id);
        } else if a.ws_id == b.ws_id && b.ws_id == c.ws_id {
            lemma_text_order_transitive(a.id, b.id, c.id);
        }
    }
}

/// Whether the key of these parts comes before `b`.
fn parts_before(created_at: &Timestamp, ws_id: &str, id: &str, b: &Key) -> (r: bool)
    ensures
        r == key_before(KeyView { created_at: created_at@, ws_id: ws_id@, id: id@ }, b@),
{
    if created_at.is_earlier(&b.created_at) {
        return true;
    }
    if !created_at.same(&b.created_at) {
        return false;
    }
    if str_before(ws_id, b.ws_id.as_str()) {
        return true;
    }
    str_eq(ws_id, b.ws_id.as_str()) && str_before(id, b.id.as_str())
}

impl Key {
    /// Whether this key comes before `other`.
    pub fn is_before(&self, other: &Key) -> (r: bool)
        ensures
            r == key_before(self@, other@),
    {
        parts_before(&self.created_at, self.ws_id.as_str(), self.id.as_str(), other)
    }

    /// Whether the key names a workspace and a snapshot.
    pub fn valid(&self) -> (r: bool)
        ensures
            r == (self.ws_id@.len() > 0 && self.id@.len() > 0),
    {
        !self.ws_id.as_str().is_empty() && !self.id.as_str().is_empty()
    }

    /// A copy of the key.
    pub fn copy(&self) -> (r: Key)
        ensures
            r@ == self@,
    {
        Key { created_at: self.created_at, ws_id: self.ws_id.clone(), id: self.id.clone() }
    }
}

/// The keys of a list.
pub open spec fn key_views(v: Seq<Key>) -> Seq<KeyView> {
    v.map_values(|k: Key| k@)
}

/// Whether keys are in the order of pages, without repetition.
pub open spec fn ascending_keys(v: Seq<KeyView>) -> bool {
    forall|i: int, j: int| 0 <= i < j < v.len() ==> key_before(#[trigger] v[i], #[trigger] v[j])
}

/// Whether `k` is the key of a snapshot of a workspace.
pub open spec fn is_key_of(w: WorkspaceView, k: KeyView) -> bool {
    &&& w.ws_id == k.ws_id
    &&& w.index.nodes.contains_key(k.id)
    &&& w.index.nodes[k.id].created_at == k.created_at
}

/// The workspaces that a list is about: the one named by the scope, or all of them.
pub open spec fn in_scope(
    by_id: Map<Seq<char>, WorkspaceView>,
    scope: Option<Seq<char>>,
) -> Map<Seq<char>, WorkspaceView> {
    match scope {
        Some(id) => by_id.restrict(set![id]),
        None => by_id,
    }
}

/// Whether `k` is the key of a snapshot that a list is about.
pub open spec fn listed(
    by_id: Map<Seq<char>, WorkspaceView>,
    scope: Option<Seq<char>>,
    k: KeyView,
) -> bool {
    in_scope(by_id, scope).contains_key(k.ws_id) && is_key_of(by_id[k.ws_id], k)
}

/// Whether `k` comes after `after` and not after `upper`, as far as they are given.
pub open spec fn in_range(after: Option<KeyView>, upper: Option<KeyView>, k: KeyView) -> bool {
    &&& after matches Some(a) ==> key_before(a, k)
    &&& upper matches Some(u) ==> !key_before(u, k)
}

/// The keys that a page chooses from.
pub open spec fn eligible(
    by_id: Map<Seq<char>, WorkspaceView>,
    scope: Option<Seq<char>>,
    after: Option<KeyView>,
    upper: Option<KeyView>,
) -> Set<KeyView> {
    Set::new(|k: KeyView| listed(by_id, scope, k) && in_range(after, upper, k))
}

/// Whether `keys` are the first `capacity` of a set, in order; all of it, if it has no more.
pub open spec fn are_first(keys: Seq<KeyView>, all: Set<KeyView>, capacity: nat) -> bool {
    &&& ascending_keys(keys)
    &&& keys.len() <= capacity
    &&& forall|i: int| 0 <= i < keys.len() ==> all.contains(#[trigger] keys[i])
    &&& forall|k: KeyView| #[trigger]
        all.contains(k) ==> keys.contains(k) || (keys.len() == capacity && comes_after(keys, k))
}

/// Whether `k` comes after all of `keys`.
pub open spec fn comes_after(keys: Seq<KeyView>, k: KeyView) -> bool {
    forall|i: int| 0 <= i < keys.len() ==> key_before(#[trigger] keys[i], k)
}

/// Whether some of the set is not among `keys`.
pub open spec fn leaves_some(keys: Seq<KeyView>, all: Set<KeyView>) -> bool {
    exists|k: KeyView| #[trigger] all.contains(k) && !keys.contains(k)
}

/// Whether `k` is the largest of the keys that a list is about.
pub open spec fn is_last_key(
    by_id: Map<Seq<char>, WorkspaceView>,
    scope: Option<Seq<char>>,
    k: KeyView,
) -> bool {
    &&& listed(by_id, scope, k)
    &&& forall|x: KeyView| #[trigger] listed(by_id, scope, x) ==> x == k || key_before(x, k)
}

/// The keys selected for a page.
pub struct Candidates {
    pub keys: Vec<Key>,
    /// The last key of the traversal; none where there is nothing to list.
    pub upper: Option<Key>,
    /// Whether there are more keys than were selected.
    pub has_more: bool,
}

/// The view of an optional key.
pub open spec fn opt_key(k: Option<Key>) -> Option<KeyView> {
    match k {
        Some(k) => Some(k@),
        None => None,
    }
}

/// The view of an optional key.
pub open spec fn opt_key_ref(k: Option<&Key>) -> Option<KeyView> {
    match k {
        Some(k) => Some(k@),
        None => None,
    }
}

/// Whether candidates are what a state offers: the first eligible keys, and the last key of the
/// traversal, which is fixed where it is given.
pub open spec fn selects(
    by_id: Map<Seq<char>, WorkspaceView>,
    scope: Option<Seq<char>>,
    after: Option<KeyView>,
    upper: Option<KeyView>,
    capacity: nat,
    c: Candidates,
) -> bool {
    let all = eligible(by_id, scope, after, upper);
    &&& are_first(key_views(c.keys@), all, capacity)
    &&& c.has_more == leaves_some(key_views(c.keys@), all)
    &&& match upper {
        Some(u) => opt_key(c.upper) == Some(u),
        None => match c.upper {
            Some(m) => is_last_key(by_id, scope, m@),
            None => forall|k: KeyView| !listed(by_id, scope, k),
        },
    }
}

proof fn lemma_not_before_itself(keys: Seq<KeyView>, k: KeyView)
    requires
        comes_after(keys, k),
    ensures
        !keys.contains(k),
{
    if keys.contains(k) {
        let i = keys.index_of(k);
        lemma_key_order_total(keys[i], k);
    }
}

/// Puts a key where it belongs among keys in order.
fn insert_key(keys: &mut Vec<Key>, key: Key)
    requires
        ascending_keys(key_views(old(keys)@)),
        !key_views(old(keys)@).contains(key@),
    ensures
        ascending_keys(key_views(final(keys)@)),
        final(keys)@.len() == old(keys)@.len() + 1,
        forall|k: KeyView| #[trigger]
            key_views(final(keys)@).contains(k) <==> key_views(old(keys)@).contains(k) || k == key@,
{
    let ghost v0 = key_views(keys@);
    let ghost x = key@;
    let mut at: usize = keys.len();
    while at > 0 && key.is_before(&keys[at - 1])
        invariant
            at <= keys@.len(),
            v0 == key_views(keys@),
            x == key@,
            forall|j: int| at <= j < v0.len() ==> key_before(x, #[trigger] v0[j]),
        decreases at,
    {
        proof {
            assert(v0[at - 1] == keys@[at - 1]@);
        }
        at = at - 1;
    }
    proof {
        assert forall|j: int| 0 <= j < at implies key_before(#[trigger] v0[j], x) by {
            let l = v0[at - 1];
            assert(l == keys@[at - 1]@);
            lemma_key_order_total(l, x);
            assert(v0.contains(l));
            if j < at - 1 {
                assert(key_before(v0[j], l));
                lemma_key_order_transitive(v0[j], l, x);
            }
        }
    }
    keys.insert(at, key);
    proof {
        let v1 = key_views(keys@);
        assert(v1 =~= v0.insert(at as int, x));
        assert forall|i: int, j: int| 0 <= i < j < v1.len() implies key_before(
            #[trigger] v1[i],
            #[trigger] v1[j],
        ) by {
            let a = if i < at { i } else { i - 1 };
            let b = if j < at { j } else { j - 1 };
            if i != at && j != at {
                assert(key_before(v0[a], v0[b]));
            }
        }
        assert forall|k: KeyView| #[trigger] v1.contains(k) <==> v0.contains(k) || k == x by {
            if v1.contains(k) {
                let i = v1.index_of(k);
                if i < at {
                    assert(v0[i] == k);
                } else if i > at {
                    assert(v0[i - 1] == k);
                }
            }
            if v0.contains(k) {
                let i = v0.index_of(k);
                if i < at {
                    assert(v1[i] == k);
                } else {
                    assert(v1[i + 1] == k);
                }
            }
            assert(v1[at as int] == x);
        }
    }
}

/// Takes one more key into account: afterwards `keys` are the first of the set with that key.
fn consider(keys: &mut Vec<Key>, key: Key, capacity: usize, Ghost(all): Ghost<Set<KeyView>>) -> (full:
    bool)
    requires
        are_first(key_views(old(keys)@), all, capacity as nat),
        !all.contains(key@),
    ensures
        are_first(key_views(final(keys)@), all.insert(key@), capacity as nat),
        full == (old(keys)@.len() == capacity),
        leaves_some(key_views(final(keys)@), all.insert(key@)) == full,
        !full ==> !leaves_some(key_views(old(keys)@), all),
{
    let ghost v0 = key_views(keys@);
    let ghost x = key@;
    let ghost all1 = all.insert(x);
    proof {
        if v0.contains(x) {
            let i = v0.index_of(x);
            assert(all.contains(v0[i]));
        }
    }
    if keys.len() < capacity {
        insert_key(keys, key);
        proof {
            let v1 = key_views(keys@);
            assert forall|i: int| 0 <= i < v1.len() implies all1.contains(#[trigger] v1[i]) by {
                assert(v1.contains(v1[i]));
                if v1[i] != x {
                    let j = v0.index_of(v1[i]);
                    assert(all.contains(v0[j]));
                }
            }
            assert forall|k: KeyView| #[trigger] all1.contains(k) implies v1.contains(k) by {
                if k != x {
                    assert(all.contains(k));
                }
            }
        }
        return false;
    }
    if capacity == 0 {
        proof {
            assert(all1.contains(x));
            assert(v0.len() == 0);
        }
        return true;
    }
    let ghost last = v0[v0.len() - 1];
    proof {
        assert(last == keys@[keys@.len() - 1]@);
        assert(all.contains(last));
    }
    if key.is_before(&keys[keys.len() - 1]) {
        let _ = keys.pop();
        let ghost vp = key_views(keys@);
        proof {
            assert(vp =~= v0.take(v0.len() - 1));
            assert forall|i: int, j: int| 0 <= i < j < vp.len() implies key_before(
                #[trigger] vp[i],
                #[trigger] vp[j],
            ) by {
                assert(key_before(v0[i], v0[j]));
            }
            if vp.contains(x) {
                let i = vp.index_of(x);
                assert(v0[i] == x);
            }
        }
        insert_key(keys, key);
        proof {
            let v1 = key_views(keys@);
            assert forall|i: int| 0 <= i < v1.len() implies all1.contains(#[trigger] v1[i])
                && key_before(v1[i], last) by {
                assert(v1.contains(v1[i]));
                if v1[i] != x {
                    let j = vp.index_of(v1[i]);
                    assert(vp[j] == v0[j]);
                    assert(all.contains(v0[j]));
                    assert(key_before(v0[j], v0[v0.len() - 1]));
                }
            }
            assert(comes_after(v1, last));
            lemma_not_before_itself(v1, last);
            assert forall|k: KeyView| #[trigger] all1.contains(k) implies v1.contains(k) || (v1.len()
                == capacity && comes_after(v1, k)) by {
                if k != x {
                    assert(all.contains(k));
                    if v0.contains(k) {
                        let i = v0.index_of(k);
                        if i < v0.len() - 1 {
                            assert(vp[i] == k);
                        }
                    } else {
                        assert(key_before(v0[v0.len() - 1], k));
                        assert forall|i: int| 0 <= i < v1.len() implies key_before(
                            #[trigger] v1[i],
                            k,
                        ) by {
                            lemma_key_order_transitive(v1[i], last, k);
                        }
                    }
                }
            }
            assert(all1.contains(last));
        }
        return true;
    }
    proof {
        lemma_key_order_total(last, x);
        assert forall|i: int| 0 <= i < v0.len() implies key_before(#[trigger] v0[i], x) by {
            if i < v0.len() - 1 {
                assert(key_before(v0[i], last));
                lemma_key_order_transitive(v0[i], last, x);
            }
        }
        assert(comes_after(v0, x));
        assert(all1.contains(x));
    }
    true
}

/// Whether `k` is the key of a snapshot of one of the first `n` workspaces of a list.
spec fn visited(v: Seq<&WorkspaceState>, n: int, k: KeyView) -> bool {
    exists|j: int| 0 <= j < n && is_key_of((#[trigger] v[j])@, k)
}

/// Whether `k` was seen: in the workspaces before, or among the first `m` snapshots of this one.
spec fn seen(
    v: Seq<&WorkspaceState>,
    n: int,
    ids: Seq<Seq<char>>,
    m: int,
    k: KeyView,
) -> bool {
    visited(v, n, k) || (is_key_of(v[n]@, k) && ids.take(m).contains(k.id))
}

/// What the scan knows of the largest key.
spec fn tracks_maximum(
    upper: Option<KeyView>,
    maximum: Option<KeyView>,
    known: spec_fn(KeyView) -> bool,
) -> bool {
    match upper {
        Some(u) => maximum == Some(u),
        None => match maximum {
            Some(x) => known(x) && forall|k: KeyView| #[trigger] known(k) ==> k == x || key_before(k, x),
            None => forall|k: KeyView| !(#[trigger] known(k)),
        },
    }
}

impl DaemonState {
    /// The workspaces that a list is about.
    fn workspaces_in_scope(&self, scope: Option<&str>) -> (r: Vec<&WorkspaceState>)
        ensures
            lists_all(r@, in_scope(self.registry@.by_id, opt_str(scope))),
    {
        match scope {
            None => self.registry.all_workspaces(),
            Some(id) => {
                let ghost one = in_scope(self.registry@.by_id, Some(id@));
                let mut r: Vec<&WorkspaceState> = Vec::new();
                if let Some(w) = self.registry.get_by_wsid(id) {
                    r.push(w);
                    proof {
                        assert(one.contains_key(id@));
                        assert forall|k: Seq<char>| #[trigger] one.contains_key(k) implies exists|
                            i: int,
                        |
                            0 <= i < r@.len() && (#[trigger] r@[i]).ws_id@ == k by {
                            assert(r@[0].ws_id@ == k);
                        }
                    }
                }
                r
            },
        }
    }

    /// Selects the keys for a page: of those in scope that come after `after` and not after
    /// `upper`, the first `capacity`. Without an upper bound the largest key becomes it.
    pub fn select_candidates(
        &self,
        scope: Option<&str>,
        after: Option<&Key>,
        upper: Option<&Key>,
        capacity: usize,
    ) -> (r: Candidates)
        ensures
            selects(
                self.registry@.by_id,
                opt_str(scope),
                opt_key_ref(after),
                opt_key_ref(upper),
                capacity as nat,
                r,
            ),
    {
        let all = self.workspaces_in_scope(scope);
        let ghost by_id = self.registry@.by_id;
        let ghost scoped = in_scope(by_id, opt_str(scope));
        let ghost av = opt_key_ref(after);
        let ghost uv = opt_key_ref(upper);
        let ghost mut chosen: Set<KeyView> = Set::empty();
        let mut keys: Vec<Key> = Vec::new();
        let mut maximum: Option<Key> = match upper {
            Some(u) => Some(u.copy()),
            None => None,
        };
        let mut has_more = false;
        let mut i: usize = 0;
        proof {
            assert(key_views(keys@) =~= Seq::<KeyView>::empty());
            assert(tracks_maximum(uv, opt_key(maximum), |k: KeyView| visited(all@, 0, k)));
        }
        while i < all.len()
            invariant
                i <= all@.len(),
                lists_all(all@, scoped),
                av == opt_key_ref(after),
                uv == opt_key_ref(upper),
                are_first(key_views(keys@), chosen, capacity as nat),
                has_more == leaves_some(key_views(keys@), chosen),
                forall|k: KeyView| #[trigger]
                    chosen.contains(k) <==> visited(all@, i as int, k) && in_range(av, uv, k),
                tracks_maximum(uv, opt_key(maximum), |k: KeyView| visited(all@, i as int, k)),
            decreases all@.len() - i,
        {
            let w = all[i];
            let total: usize = w.index.snapshots.len();
            let ghost ids = w.index.snapshots.ordered_keys();
            let mut j: usize = 0;
            proof {
                assert(ids.take(0) =~= Seq::<Seq<char>>::empty());
                assert forall|k: KeyView| seen(all@, i as int, ids, 0, k) == visited(
                    all@,
                    i as int,
                    k,
                ) by {}
                lemma_tracks_same(
                    uv,
                    opt_key(maximum),
                    |k: KeyView| visited(all@, i as int, k),
                    |k: KeyView| seen(all@, i as int, ids, 0, k),
                );
            }
            while j < total
                invariant
                    i < all@.len(),
                    w == all@[i as int],
                    j <= total == ids.len(),
                    ids == w.index.snapshots.ordered_keys(),
                    w.index.snapshots.keys_cover(),
                    lists_all(all@, scoped),
                    av == opt_key_ref(after),
                    uv == opt_key_ref(upper),
                    are_first(key_views(keys@), chosen, capacity as nat),
                    has_more == leaves_some(key_views(keys@), chosen),
                    forall|k: KeyView| #[trigger]
                        chosen.contains(k) <==> seen(all@, i as int, ids, j as int, k) && in_range(
                            av,
                            uv,
                            k,
                        ),
                    tracks_maximum(
                        uv,
                        opt_key(maximum),
                        |k: KeyView| seen(all@, i as int, ids, j as int, k),
                    ),
                decreases total - j,
            {
                let (id, meta) = w.index.snapshots.entry(j);
                let ghost x = KeyView { created_at: meta.created_at@, ws_id: w.ws_id@, id: id@ };
                let ghost before = |k: KeyView| seen(all@, i as int, ids, j as int, k);
                let ghost now = |k: KeyView| seen(all@, i as int, ids, j + 1, k);
                proof {
                    assert(is_key_of(w@, x));
                    lemma_ids_step(ids, j as int);
                    assert(!ids.take(j as int).contains(x.id)) by {
                        if ids.take(j as int).contains(x.id) {
                            let q = ids.take(j as int).index_of(x.id);
                            assert(ids[q] == ids[j as int]);
                        }
                    }
                    assert(!visited(all@, i as int, x)) by {
                        if visited(all@, i as int, x) {
                            let q = choose|q: int| 0 <= q < i && is_key_of((#[trigger] all@[q])@, x);
                            assert(all@[q].ws_id@ != all@[i as int].ws_id@);
                        }
                    }
                    assert forall|k: KeyView| #[trigger] now(k) == (before(k) || k == x) by {
                        assert(ids.take(j + 1).contains(k.id) == (ids.take(j as int).contains(k.id)
                            || k.id == id@));
                    }
                }
                let larger = match (&maximum, upper) {
                    (_, Some(_)) => false,
                    (None, None) => true,
                    (Some(m), None) => {
                        let below = parts_before(
                            &meta.created_at,
                            w.ws_id.as_str(),
                            id.as_str(),
                            m,
                        );
                        proof {
                            lemma_key_order_total(m@, x);
                        }
                        !below
                    },
                };
                if larger {
                    proof {
                        assert forall|k: KeyView| #[trigger] now(k) implies k == x || key_before(
                            k,
                            x,
                        ) by {
                            if k != x {
                                assert(before(k));
                                let m = opt_key(maximum)->0;
                                lemma_key_order_total(m, x);
                                if k != m {
                                    lemma_key_order_transitive(k, m, x);
                                }
                                assert(before(m));
                            }
                        }
                    }
                    maximum = Some(
                        Key { created_at: meta.created_at, ws_id: w.ws_id.clone(), id: id.clone() },
                    );
                    proof {
                        assert(now(x));
                        assert(tracks_maximum(uv, opt_key(maximum), now));
                    }
                } else {
                    proof {
                        if uv is None {
                            let m = opt_key(maximum)->0;
                            assert(before(m));
                            assert(now(m));
                            assert forall|k: KeyView| #[trigger] now(k) implies k == m || key_before(
                                k,
                                m,
                            ) by {
                                if k != x {
                                    assert(before(k));
                                }
                            }
                        }
                        assert(tracks_maximum(uv, opt_key(maximum), now));
                    }
                }
                let too_early = match after {
                    Some(a) => {
                        let past = parts_before(
                            &meta.created_at,
                            w.ws_id.as_str(),
                            id.as_str(),
                            a,
                        );
                        proof {
                            lemma_key_order_total(a@, x);
                        }
                        past || (meta.created_at.same(&a.created_at) && str_eq(
                            w.ws_id.as_str(),
                            a.ws_id.as_str(),
                        ) && str_eq(id.as_str(), a.id.as_str()))
                    },
                    None => false,
                };
                let too_late = match upper {
                    Some(u) => {
                        let past = parts_before(
                            &meta.created_at,
                            w.ws_id.as_str(),
                            id.as_str(),
                            u,
                        );
                        proof {
                            lemma_key_order_total(u@, x);
                        }
                        !past && !(meta.created_at.same(&u.created_at) && str_eq(
                            w.ws_id.as_str(),
                            u.ws_id.as_str(),
                        ) && str_eq(id.as_str(), u.id.as_str()))
                    },
                    None => false,
                };
                proof {
                    assert(in_range(av, uv, x) == (!too_early && !too_late)) by {
                        if av is Some {
                            lemma_key_order_total(av->0, x);
                        }
                        if uv is Some {
                            lemma_key_order_total(uv->0, x);
                        }
                    }
                }
                if !too_early && !too_late {
                    let ghost chosen0 = chosen;
                    let full = consider(
                        &mut keys,
                        Key { created_at: meta.created_at, ws_id: w.ws_id.clone(), id: id.clone() },
                        capacity,
                        Ghost(chosen0),
                    );
                    has_more = full;
                    proof {
                        chosen = chosen0.insert(x);
                    }
                }
                proof {
                    assert forall|k: KeyView| #[trigger] chosen.contains(k) <==> seen(
                        all@,
                        i as int,
                        ids,
                        j + 1,
                        k,
                    ) && in_range(av, uv, k) by {
                        assert(now(k) == (before(k) || k == x));
                    }
                }
                j = j + 1;
            }
            proof {
                assert(ids.take(ids.len() as int) =~= ids);
                assert forall|k: KeyView| seen(all@, i as int, ids, ids.len() as int, k) == visited(
                    all@,
                    i + 1,
                    k,
                ) by {
                    if visited(all@, i + 1, k) {
                        let q = choose|q: int| 0 <= q < i + 1 && is_key_of((#[trigger] all@[q])@, k);
                        if q == i {
                            assert(ids.to_set().contains(k.id));
                        } else {
                            assert(visited(all@, i as int, k));
                        }
                    }
                    if visited(all@, i as int, k) {
                        let q = choose|q: int| 0 <= q < i && is_key_of((#[trigger] all@[q])@, k);
                        assert(visited(all@, i + 1, k));
                    }
                    if is_key_of(all@[i as int]@, k) {
                        assert(visited(all@, i + 1, k));
                    }
                }
                lemma_tracks_same(
                    uv,
                    opt_key(maximum),
                    |k: KeyView| seen(all@, i as int, ids, ids.len() as int, k),
                    |k: KeyView| visited(all@, i + 1, k),
                );
            }
            i = i + 1;
        }
        proof {
            assert forall|k: KeyView| #[trigger] listed(by_id, opt_str(scope), k) == visited(
                all@,
                all@.len() as int,
                k,
            ) by {
                if listed(by_id, opt_str(scope), k) {
                    let q = choose|q: int| 0 <= q < all@.len() && (#[trigger] all@[q]).ws_id@ == k.ws_id;
                    assert(scoped[k.ws_id] == all@[q]@);
                    assert(is_key_of(all@[q]@, k));
                }
                if visited(all@, all@.len() as int, k) {
                    let q = choose|q: int|
                        0 <= q < all@.len() && is_key_of((#[trigger] all@[q])@, k);
                    assert(scoped.contains_key(all@[q].ws_id@));
                }
            }
            assert(chosen =~= eligible(by_id, opt_str(scope), av, uv));
            let known = |k: KeyView| visited(all@, all@.len() as int, k);
            assert(tracks_maximum(uv, opt_key(maximum), known));
            if uv is None {
                match opt_key(maximum) {
                    Some(m) => {
                        assert(known(m));
                        assert forall|x: KeyView| #[trigger]
                            listed(by_id, opt_str(scope), x) implies x == m || key_before(x, m) by {
                            assert(known(x));
                        }
                    },
                    None => {
                        assert forall|k: KeyView| !listed(by_id, opt_str(scope), k) by {
                            assert(!known(k));
                        }
                    },
                }
            }
        }
        Candidates { keys, upper: maximum, has_more }
    }
}

proof fn lemma_tracks_same(
    upper: Option<KeyView>,
    maximum: Option<KeyView>,
    a: spec_fn(KeyView) -> bool,
    b: spec_fn(KeyView) -> bool,
)
    requires
        forall|k: KeyView| #![trigger a(k)] #![trigger b(k)] a(k) == b(k),
        tracks_maximum(upper, maximum, a),
    ensures
        tracks_maximum(upper, maximum, b),
{
    if upper is None {
        match maximum {
            Some(x) => {
                assert(a(x) == b(x));
                assert forall|k: KeyView| #[trigger] b(k) implies k == x || key_before(k, x) by {
                    assert(a(k));
                }
            },
            None => {
                assert forall|k: KeyView| !(#[trigger] b(k)) by {
                    assert(!a(k));
                }
            },
        }
    }
}

proof fn lemma_ids_step(ids: Seq<Seq<char>>, j: int)
    requires
        0 <= j < ids.len(),
    ensures
        forall|d: Seq<char>| #[trigger]
            ids.take(j + 1).contains(d) == (ids.take(j).contains(d) || d == ids[j]),
{
    assert forall|d: Seq<char>| #[trigger] ids.take(j + 1).contains(d) == (ids.take(j).contains(d)
        || d == ids[j]) by {
        if ids.take(j).contains(d) {
            let q = ids.take(j).index_of(d);
            assert(ids.take(j + 1)[q] == d);
        }
        assert(ids.take(j + 1)[j] == ids[j]);
        if ids.take(j + 1).contains(d) {
            let q = ids.take(j + 1).index_of(d);
            if q < j {
                assert(ids.take(j)[q] == d);
            }
        }
    }
}

} // verus!
