//! Taking a batch of snapshots out of the lineage.

use crate::ids::LIVE_CHILD;
use crate::index::{
    children_of, mark_live, parent_of, set_children, set_parent, IndexView, Nodes, SnapshotIndex,
    StringSet,
};
use crate::snapshot::{MetaView, SnapshotMeta};
use crate::string_map::StringMap;
use crate::text::str_eq;
use crate::text_list::{
    copy_opt, copy_texts, include_text, including, opt_text, other_than, texts, without,
    without_text,
};
use vstd::prelude::*;

verus! {

/// The snapshot reached from `id` by `n` steps to the parent, where there is one.
pub open spec fn up(nodes: Nodes, id: Seq<char>, n: nat) -> Option<Seq<char>>
    decreases n,
{
    if n == 0 {
        Some(id)
    } else {
        match up(nodes, id, (n - 1) as nat) {
            Some(x) => parent_of(nodes, x),
            None => None,
        }
    }
}

/// Whether `x` is a snapshot among `ids`.
pub open spec fn within(ids: Set<Seq<char>>, x: Option<Seq<char>>) -> bool {
    x matches Some(k) && ids.contains(k)
}

/// The `n`-th step up from `id` is the first that is not among `ids`.
pub open spec fn escapes_at(nodes: Nodes, ids: Set<Seq<char>>, id: Seq<char>, n: nat) -> bool {
    &&& n >= 1
    &&& !within(ids, up(nodes, id, n))
    &&& forall|m: nat| 1 <= m < n ==> within(ids, #[trigger] up(nodes, id, m))
}

/// Whether the way up from `id` leaves `ids`, rather than going round in them.
pub open spec fn escapes(nodes: Nodes, ids: Set<Seq<char>>, id: Seq<char>) -> bool {
    exists|n: nat| escapes_at(nodes, ids, id, n)
}

/// The nearest ancestor of `id` that is not among `ids`; none where the way up ends first.
pub open spec fn survivor(nodes: Nodes, ids: Set<Seq<char>>, id: Seq<char>) -> Option<Seq<char>> {
    up(nodes, id, choose|n: nat| escapes_at(nodes, ids, id, n))
}

/// Whether the surviving snapshot `child` is recorded as a child of `id`, which is to go.
pub open spec fn cut_edge(
    nodes: Nodes,
    ids: Set<Seq<char>>,
    child: Seq<char>,
    id: Seq<char>,
) -> bool {
    &&& ids.contains(id)
    &&& children_of(nodes, id).contains(child)
    &&& child != LIVE_CHILD@
    &&& !ids.contains(child)
}

/// The children that `k` keeps: all but those among `ids` that name `k` as their parent.
pub open spec fn kept_children(nodes: Nodes, ids: Set<Seq<char>>, k: Seq<char>) -> Seq<Seq<char>> {
    children_of(nodes, k).filter(|c: Seq<char>| !(ids.contains(c) && parent_of(nodes, c) == Some(k)))
}

/// The snapshots that come to hang from `k`.
pub open spec fn gained_children(nodes: Nodes, ids: Set<Seq<char>>, k: Seq<char>) -> Set<
    Seq<char>,
> {
    Set::new(
        |c: Seq<char>|
            exists|d: Seq<char>| #[trigger]
                cut_edge(nodes, ids, c, d) && survivor(nodes, ids, d) == Some(k),
    )
}

/// `l` is `base` followed by the texts of `extra` that are not in `base`, each once.
pub open spec fn extended_by(base: Seq<Seq<char>>, l: Seq<Seq<char>>, extra: Set<Seq<char>>) -> bool {
    &&& base.is_prefix_of(l)
    &&& l.skip(base.len() as int).no_duplicates()
    &&& forall|c: Seq<char>| #[trigger]
        l.skip(base.len() as int).contains(c) <==> extra.contains(c) && !base.contains(c)
}

/// What pruning `ids` makes of the record of `k`.
pub open spec fn pruned_record(
    v: IndexView,
    ids: Set<Seq<char>>,
    head: Option<Seq<char>>,
    k: Seq<char>,
    m: MetaView,
) -> bool {
    let old_m = v.nodes[k];
    let extra = gained_children(v.nodes, ids, k);
    if ids.contains(k) {
        m == old_m
    } else {
        &&& m == MetaView { parent_id: m.parent_id, child_ids: m.child_ids, ..old_m }
        &&& if exists|d: Seq<char>| cut_edge(v.nodes, ids, k, d) {
            exists|d: Seq<char>| #[trigger]
                cut_edge(v.nodes, ids, k, d) && m.parent_id == survivor(v.nodes, ids, d)
        } else {
            m.parent_id == old_m.parent_id
        }
        &&& exists|l: Seq<Seq<char>>| #[trigger]
            extended_by(kept_children(v.nodes, ids, k), l, extra) && m.child_ids == if within(
                ids,
                v.head,
            ) && head == Some(k) {
                including(l, LIVE_CHILD@)
            } else {
                l
            }
    }
}

/// Whether `order` is an order in which to take the snapshots `ids`: each of them, once.
pub open spec fn is_walk(order: Seq<Seq<char>>, ids: Set<Seq<char>>) -> bool {
    order.no_duplicates() && order.to_set() == ids
}

/// The surviving snapshots among `kids`, in order. The live marker is no snapshot.
pub open spec fn surviving(kids: Seq<Seq<char>>, ids: Set<Seq<char>>) -> Seq<Seq<char>> {
    kids.filter(|c: Seq<char>| c != LIVE_CHILD@ && !ids.contains(c))
}

/// The edges from the surviving snapshots among `kids` to `d`, in order.
pub open spec fn edges_to(kids: Seq<Seq<char>>, ids: Set<Seq<char>>, d: Seq<char>) -> Seq<
    (Seq<char>, Seq<char>),
> {
    surviving(kids, ids).map_values(|c: Seq<char>| (c, d))
}

/// The edges that are cut, as they are found when `ids` are taken in an order: those of one
/// snapshot after those of the other, each snapshot's in the order of its record.
pub open spec fn cut_edges(nodes: Nodes, ids: Set<Seq<char>>, order: Seq<Seq<char>>) -> Seq<
    (Seq<char>, Seq<char>),
>
    decreases order.len(),
{
    if order.len() == 0 {
        Seq::empty()
    } else {
        cut_edges(nodes, ids, order.drop_last()) + edges_to(
            children_of(nodes, order.last()),
            ids,
            order.last(),
        )
    }
}

/// `list`, the children of `k`, after the edges were hung from their nearest surviving ancestors
/// one by one: `k` lists, at the end, each child that it is given and does not list yet.
pub open spec fn after_hanging(
    nodes: Nodes,
    ids: Set<Seq<char>>,
    edges: Seq<(Seq<char>, Seq<char>)>,
    k: Seq<char>,
    list: Seq<Seq<char>>,
) -> Seq<Seq<char>>
    decreases edges.len(),
{
    if edges.len() == 0 {
        list
    } else {
        let l = after_hanging(nodes, ids, edges.drop_last(), k, list);
        if survivor(nodes, ids, edges.last().1) == Some(k) {
            including(l, edges.last().0)
        } else {
            l
        }
    }
}

/// The parent of `k` after the edges were hung one by one: the last of its edges decides.
pub open spec fn parent_after(
    nodes: Nodes,
    ids: Set<Seq<char>>,
    edges: Seq<(Seq<char>, Seq<char>)>,
    k: Seq<char>,
) -> Option<Seq<char>>
    decreases edges.len(),
{
    if edges.len() == 0 {
        parent_of(nodes, k)
    } else if edges.last().0 == k {
        survivor(nodes, ids, edges.last().1)
    } else {
        parent_after(nodes, ids, edges.drop_last(), k)
    }
}

impl IndexView {
    /// The index with `ids` taken out of the lineage, in that order.
    pub open spec fn pruned_along(self, ids: Set<Seq<char>>, order: Seq<Seq<char>>) -> IndexView {
        let edges = cut_edges(self.nodes, ids, order);
        let head = if within(ids, self.head) {
            survivor(self.nodes, ids, self.head->0)
        } else {
            self.head
        };
        IndexView {
            nodes: self.nodes.map_entries(
                |k: Seq<char>, m: MetaView|
                    if ids.contains(k) {
                        m
                    } else {
                        let l = after_hanging(
                            self.nodes,
                            ids,
                            edges,
                            k,
                            kept_children(self.nodes, ids, k),
                        );
                        MetaView {
                            parent_id: parent_after(self.nodes, ids, edges, k),
                            child_ids: if within(ids, self.head) && head == Some(k) {
                                including(l, LIVE_CHILD@)
                            } else {
                                l
                            },
                            ..m
                        }
                    },
            ),
            head,
            ..self
        }
    }
}

/// What pruning `ids` makes of an index: every surviving child of a pruned snapshot hangs from
/// the nearest surviving ancestor, which lists it; surviving parents drop their pruned
/// children; and where the head was pruned, its nearest surviving ancestor takes its place and
/// carries the live marker. The pruned records themselves stay. What is left open is only the
/// order in which the pruned snapshots are taken: some order gives this very index.
pub open spec fn pruned(v: IndexView, ids: Set<Seq<char>>, r: IndexView) -> bool {
    &&& r == IndexView { nodes: r.nodes, head: r.head, ..v }
    &&& r.head == if within(ids, v.head) {
        survivor(v.nodes, ids, v.head->0)
    } else {
        v.head
    }
    &&& r.nodes.dom() == v.nodes.dom()
    &&& forall|k: Seq<char>| #[trigger]
        v.nodes.contains_key(k) ==> pruned_record(v, ids, r.head, k, r.nodes[k])
    &&& exists|order: Seq<Seq<char>>| #[trigger]
        is_walk(order, ids) && r == v.pruned_along(ids, order)
}

/// Wherever the way up first leaves the set, the nearest surviving ancestor stands there.
pub proof fn lemma_escape_unique(nodes: Nodes, ids: Set<Seq<char>>, id: Seq<char>, n: nat)
    requires
        escapes_at(nodes, ids, id, n),
    ensures
        survivor(nodes, ids, id) == up(nodes, id, n),
{
    let m = choose|m: nat| escapes_at(nodes, ids, id, m);
    assert(escapes_at(nodes, ids, id, m));
    if m < n {
        assert(within(ids, up(nodes, id, m)));
    } else if n < m {
        assert(within(ids, up(nodes, id, n)));
    }
}

/// Walks up from `id` until it leaves `ids`. The records of `ids` are those of `n0`.
fn find_survivor(
    nodes: &StringMap<SnapshotMeta>,
    ids: &StringSet,
    id: &str,
    Ghost(n0): Ghost<Nodes>,
) -> (r: Option<String>)
    requires
        escapes(n0, ids@.dom(), id@),
        ids@.contains_key(id@),
        nodes@.dom() == n0.dom(),
        forall|k: Seq<char>| #[trigger]
            ids@.contains_key(k) && n0.contains_key(k) ==> nodes@[k] == n0[k],
    ensures
        opt_text(r) == survivor(n0, ids@.dom(), id@),
        !within(ids@.dom(), opt_text(r)),
{
    let ghost s = ids@.dom();
    let ghost limit = choose|n: nat| escapes_at(n0, s, id@, n);
    let ghost mut steps: nat = 1;
    let mut sp: Option<String> = match nodes.get(id) {
        Some(m) => copy_opt(&m.parent_id),
        None => None,
    };
    proof {
        assert(up(n0, id@, 0) == Some(id@));
        assert(up(n0, id@, 1) == parent_of(n0, id@));
        assert(escapes_at(n0, s, id@, limit));
    }
    loop
        invariant
            s == ids@.dom(),
            escapes_at(n0, s, id@, limit),
            1 <= steps <= limit,
            opt_text(sp) == up(n0, id@, steps),
            nodes@.dom() == n0.dom(),
            forall|k: Seq<char>| #[trigger]
                ids@.contains_key(k) && n0.contains_key(k) ==> nodes@[k] == n0[k],
        ensures
            opt_text(sp) == up(n0, id@, limit),
        decreases limit - steps,
    {
        let next = match &sp {
            Some(pid) => {
                if !ids.contains_key(pid.as_str()) {
                    proof {
                        if steps < limit {
                            assert(within(s, up(n0, id@, steps)));
                        }
                    }
                    break;
                }
                match nodes.get(pid.as_str()) {
                    Some(m) => copy_opt(&m.parent_id),
                    None => None,
                }
            },
            None => {
                proof {
                    if steps < limit {
                        assert(within(s, up(n0, id@, steps)));
                    }
                }
                break;
            },
        };
        proof {
            assert(within(s, up(n0, id@, steps)));
            assert(steps != limit);
            assert(up(n0, id@, steps + 1) == opt_text(next));
            steps = steps + 1;
        }
        sp = next;
    }
    proof {
        lemma_escape_unique(n0, s, id@, limit);
    }
    sp
}

/// The texts of a list of pairs.
spec fn pairs(v: Seq<(String, String)>) -> Seq<(Seq<char>, Seq<char>)> {
    v.map_values(|p: (String, String)| (p.0@, p.1@))
}

pub(crate) proof fn lemma_filter_same<A>(s: Seq<A>, p: spec_fn(A) -> bool, q: spec_fn(A) -> bool)
    requires
        forall|i: int| 0 <= i < s.len() ==> p(#[trigger] s[i]) == q(s[i]),
    ensures
        s.filter(p) == s.filter(q),
    decreases s.len(),
{
    reveal(Seq::filter);
    if s.len() > 0 {
        let t = s.drop_last();
        assert forall|i: int| 0 <= i < t.len() implies p(#[trigger] t[i]) == q(t[i]) by {
            assert(t[i] == s[i]);
        }
        lemma_filter_same(t, p, q);
        assert(p(s[s.len() - 1]) == q(s[s.len() - 1]));
    }
}

proof fn lemma_filter_twice<A>(
    s: Seq<A>,
    p: spec_fn(A) -> bool,
    q: spec_fn(A) -> bool,
    both: spec_fn(A) -> bool,
)
    requires
        forall|x: A| #[trigger] both(x) == (p(x) && q(x)),
    ensures
        s.filter(p).filter(q) == s.filter(both),
    decreases s.len(),
{
    reveal(Seq::filter);
    if s.len() > 0 {
        let t = s.drop_last();
        lemma_filter_twice(t, p, q, both);
        if p(s.last()) {
            assert(t.filter(p).push(s.last()).drop_last() =~= t.filter(p));
        }
    }
}

/// Phase one's result: `k`'s children without the pairs `(k, c)` among `cuts`.
spec fn uncut(
    nodes: Nodes,
    cuts: Seq<(Seq<char>, Seq<char>)>,
    k: Seq<char>,
) -> Seq<Seq<char>> {
    children_of(nodes, k).filter(|c: Seq<char>| !cuts.contains((k, c)))
}

proof fn lemma_uncut_step(
    nodes: Nodes,
    cuts: Seq<(Seq<char>, Seq<char>)>,
    i: int,
    k: Seq<char>,
)
    requires
        0 <= i < cuts.len(),
    ensures
        uncut(nodes, cuts.take(i + 1), k) == if cuts[i].0 == k {
            without(uncut(nodes, cuts.take(i), k), cuts[i].1)
        } else {
            uncut(nodes, cuts.take(i), k)
        },
{
    let a = cuts.take(i);
    let b = cuts.take(i + 1);
    let s = children_of(nodes, k);
    assert(b =~= a.push(cuts[i]));
    assert forall|x: (Seq<char>, Seq<char>)| b.contains(x) == (a.contains(x) || x == cuts[i]) by {
        if a.contains(x) {
            let j = a.index_of(x);
            assert(b[j] == x);
        }
        assert(b[i] == cuts[i]);
    }
    let pa = |c: Seq<char>| !a.contains((k, c));
    let pb = |c: Seq<char>| !b.contains((k, c));
    assert(uncut(nodes, a, k) == s.filter(pa));
    assert(uncut(nodes, b, k) == s.filter(pb));
    if cuts[i].0 == k {
        let d = cuts[i].1;
        let q = other_than(d);
        let both = |x: Seq<char>| pa(x) && q(x);
        lemma_filter_twice(s, pa, q, both);
        assert forall|j: int| 0 <= j < s.len() implies pb(#[trigger] s[j]) == both(s[j]) by {
            assert(b.contains((k, s[j])) == (a.contains((k, s[j])) || (k, s[j]) == cuts[i]));
        }
        lemma_filter_same(s, pb, both);
    } else {
        assert forall|j: int| 0 <= j < s.len() implies pa(#[trigger] s[j]) == pb(s[j]) by {
            assert(b.contains((k, s[j])) == (a.contains((k, s[j])) || (k, s[j]) == cuts[i]));
        }
        lemma_filter_same(s, pa, pb);
    }
}

/// The snapshots that the first `n` edges make hang from `k`.
spec fn hung(
    nodes: Nodes,
    ids: Set<Seq<char>>,
    edges: Seq<(Seq<char>, Seq<char>)>,
    n: int,
    k: Seq<char>,
) -> Set<Seq<char>> {
    Set::new(
        |c: Seq<char>|
            exists|e: int|
                0 <= e < n && (#[trigger] edges[e]).0 == c && survivor(nodes, ids, edges[e].1)
                    == Some(k),
    )
}

proof fn lemma_extend(base: Seq<Seq<char>>, l: Seq<Seq<char>>, extra: Set<Seq<char>>, c: Seq<char>)
    requires
        extended_by(base, l, extra),
    ensures
        extended_by(base, including(l, c), extra.insert(c)),
{
    let l2 = including(l, c);
    let n = base.len() as int;
    assert(base == l.subrange(0, n));
    if l.contains(c) {
        let j = l.index_of(c);
        if j < n {
            assert(base[j] == c);
        } else {
            assert(l.skip(n)[j - n] == c);
        }
        assert forall|x: Seq<char>| #[trigger]
            l2.skip(n).contains(x) <==> extra.insert(c).contains(x) && !base.contains(x) by {
            if x == c && j < n {
                assert(base.contains(c));
            }
        }
    } else {
        assert(l2.skip(n) =~= l.skip(n).push(c));
        assert(l2.subrange(0, n) =~= l.subrange(0, n));
        assert(!base.contains(c)) by {
            if base.contains(c) {
                let j = base.index_of(c);
                assert(l[j] == c);
            }
        }
        assert(!l.skip(n).contains(c)) by {
            if l.skip(n).contains(c) {
                let j = l.skip(n).index_of(c);
                assert(l[j + n] == c);
            }
        }
        assert forall|x: Seq<char>| #[trigger]
            l2.skip(n).contains(x) <==> extra.insert(c).contains(x) && !base.contains(x) by {
            if l.skip(n).contains(x) {
                let j = l.skip(n).index_of(x);
                assert(l2.skip(n)[j] == x);
            }
            assert(l2.skip(n)[l.skip(n).len() as int] == c);
            if l2.skip(n).contains(x) {
                let j = l2.skip(n).index_of(x);
                if j < l.skip(n).len() {
                    assert(l.skip(n)[j] == x);
                }
            }
        }
    }
}

/// The state after the first `n` edges: what each record has become.
spec fn rehung_record(
    nodes: Nodes,
    ids: Set<Seq<char>>,
    edges: Seq<(Seq<char>, Seq<char>)>,
    n: int,
    k: Seq<char>,
    m: MetaView,
) -> bool {
    let old_m = nodes[k];
    if ids.contains(k) {
        m == old_m
    } else {
        &&& m == MetaView { parent_id: m.parent_id, child_ids: m.child_ids, ..old_m }
        &&& (exists|e: int|
            0 <= e < n && (#[trigger] edges[e]).0 == k && m.parent_id == survivor(
                nodes,
                ids,
                edges[e].1,
            )) || (m.parent_id == old_m.parent_id && forall|e: int|
            0 <= e < n ==> (#[trigger] edges[e]).0 != k)
        &&& extended_by(kept_children(nodes, ids, k), m.child_ids, hung(nodes, ids, edges, n, k))
    }
}

/// The record of `k` after the edges were hung one by one.
spec fn hung_along(
    nodes: Nodes,
    ids: Set<Seq<char>>,
    edges: Seq<(Seq<char>, Seq<char>)>,
    k: Seq<char>,
    m: MetaView,
) -> bool {
    &&& m.parent_id == parent_after(nodes, ids, edges, k)
    &&& m.child_ids == after_hanging(nodes, ids, edges, k, kept_children(nodes, ids, k))
}

pub(crate) proof fn lemma_edges_none(ids: Set<Seq<char>>, d: Seq<char>)
    ensures
        edges_to(Seq::empty(), ids, d) == Seq::<(Seq<char>, Seq<char>)>::empty(),
{
    reveal(Seq::filter);
    assert(edges_to(Seq::empty(), ids, d) =~= Seq::<(Seq<char>, Seq<char>)>::empty());
}

pub(crate) proof fn lemma_edges_step(kids: Seq<Seq<char>>, ids: Set<Seq<char>>, d: Seq<char>, j: int)
    requires
        0 <= j < kids.len(),
    ensures
        edges_to(kids.take(j + 1), ids, d) == if kids[j] != LIVE_CHILD@ && !ids.contains(kids[j]) {
            edges_to(kids.take(j), ids, d).push((kids[j], d))
        } else {
            edges_to(kids.take(j), ids, d)
        },
{
    reveal(Seq::filter);
    assert(kids.take(j + 1).drop_last() =~= kids.take(j));
    if kids[j] != LIVE_CHILD@ && !ids.contains(kids[j]) {
        assert(surviving(kids.take(j + 1), ids) == surviving(kids.take(j), ids).push(kids[j]));
        assert(edges_to(kids.take(j + 1), ids, d) =~= edges_to(kids.take(j), ids, d).push(
            (kids[j], d),
        ));
    }
}

impl SnapshotIndex {
    /// Takes a batch of nodes out of the lineage, touching only the edges at its border. The
    /// ways up that it follows, from the border and from the head, must end.
    pub fn prune_chain(&mut self, ids: &StringSet)
        requires
            forall|c: Seq<char>, d: Seq<char>| #[trigger]
                cut_edge(old(self)@.nodes, ids@.dom(), c, d) ==> escapes(
                    old(self)@.nodes,
                    ids@.dom(),
                    d,
                ),
            within(ids@.dom(), old(self)@.head) ==> escapes(
                old(self)@.nodes,
                ids@.dom(),
                old(self)@.head->0,
            ),
        ensures
            pruned(old(self)@, ids@.dom(), final(self)@),
    {
        let ghost v0 = self@;
        let ghost n0 = v0.nodes;
        let ghost s = ids@.dom();
        let mut edges: Vec<(String, String)> = Vec::new();
        let mut cuts: Vec<(String, String)> = Vec::new();
        let total: usize = ids.len();
        let ghost keys = ids.ordered_keys();
        let mut i: usize = 0;
        proof {
            assert(pairs(edges@) =~= cut_edges(n0, s, keys.take(0)));
        }
        while i < total
            invariant
                i <= total == keys.len(),
                keys == ids.ordered_keys(),
                s == ids@.dom(),
                n0 == self.snapshots@,
                *self == *old(self),
                forall|c: Seq<char>, d: Seq<char>| #[trigger]
                    pairs(edges@).contains((c, d)) <==> cut_edge(n0, s, c, d) && keys.take(
                        i as int,
                    ).contains(d),
                forall|p: Seq<char>, d: Seq<char>| #[trigger]
                    pairs(cuts@).contains((p, d)) <==> !s.contains(p) && parent_of(n0, d) == Some(p)
                        && keys.take(i as int).contains(d),
                pairs(edges@) == cut_edges(n0, s, keys.take(i as int)),
            decreases total - i,
        {
            let id = ids.entry(i).0;
            let ghost e0 = pairs(edges@);
            let ghost c0 = pairs(cuts@);
            proof {
                assert(keys.take(i + 1) =~= keys.take(i as int).push(id@));
                assert forall|d: Seq<char>| #[trigger] keys.take(i + 1).contains(d) == (keys.take(
                    i as int,
                ).contains(d) || d == id@) by {
                    if keys.take(i as int).contains(d) {
                        let j = keys.take(i as int).index_of(d);
                        assert(keys.take(i + 1)[j] == d);
                    }
                    assert(keys.take(i + 1)[i as int] == id@);
                }
            }
            proof {
                assert(keys.take(i + 1).drop_last() =~= keys.take(i as int));
                lemma_edges_none(s, id@);
                assert(e0 =~= e0 + Seq::<(Seq<char>, Seq<char>)>::empty());
            }
            if let Some(meta) = self.snapshots.get(id.as_str()) {
                let ghost kids = meta@.child_ids;
                let mut j: usize = 0;
                proof {
                    lemma_edges_none(s, id@);
                    assert(kids.take(0) =~= Seq::<Seq<char>>::empty());
                    assert(e0 =~= e0 + edges_to(kids.take(0), s, id@));
                }
                while j < meta.child_ids.len()
                    invariant
                        j <= meta.child_ids@.len(),
                        kids == texts(meta.child_ids@),
                        s == ids@.dom(),
                        forall|c: Seq<char>, d: Seq<char>| #[trigger]
                            pairs(edges@).contains((c, d)) <==> e0.contains((c, d)) || (d == id@
                                && c != LIVE_CHILD@ && !s.contains(c) && kids.take(
                                j as int,
                            ).contains(c)),
                        pairs(edges@) == e0 + edges_to(kids.take(j as int), s, id@),
                    decreases meta.child_ids@.len() - j,
                {
                    let ghost eb = pairs(edges@);
                    let ghost c1 = kids[j as int];
                    proof {
                        assert(kids.take(j + 1) =~= kids.take(j as int).push(c1));
                        assert forall|c: Seq<char>| #[trigger] kids.take(j + 1).contains(c) == (
                        kids.take(j as int).contains(c) || c == c1) by {
                            if kids.take(j as int).contains(c) {
                                let q = kids.take(j as int).index_of(c);
                                assert(kids.take(j + 1)[q] == c);
                            }
                            assert(kids.take(j + 1)[j as int] == c1);
                        }
                        lemma_edges_step(kids, s, id@, j as int);
                    }
                    if !str_eq(meta.child_ids[j].as_str(), LIVE_CHILD) && !ids.contains_key(
                        meta.child_ids[j].as_str(),
                    ) {
                        edges.push((meta.child_ids[j].clone(), id.clone()));
                        proof {
                            assert(pairs(edges@) =~= eb.push((c1, id@)));
                            assert forall|x: (Seq<char>, Seq<char>)| #[trigger]
                                pairs(edges@).contains(x) == (eb.contains(x) || x == (c1, id@)) by {
                                if eb.contains(x) {
                                    let q = eb.index_of(x);
                                    assert(pairs(edges@)[q] == x);
                                }
                                assert(pairs(edges@)[eb.len() as int] == (c1, id@));
                            }
                            assert(pairs(edges@) =~= e0 + edges_to(kids.take(j + 1), s, id@));
                        }
                    }
                    j = j + 1;
                }
                proof {
                    assert(kids.take(kids.len() as int) =~= kids);
                }
                if let Some(pid) = &meta.parent_id {
                    if !ids.contains_key(pid.as_str()) {
                        cuts.push((pid.clone(), id.clone()));
                        proof {
                            assert(pairs(cuts@) =~= c0.push((pid@, id@)));
                            assert forall|x: (Seq<char>, Seq<char>)| #[trigger]
                                pairs(cuts@).contains(x) == (c0.contains(x) || x == (pid@, id@)) by {
                                if c0.contains(x) {
                                    let q = c0.index_of(x);
                                    assert(pairs(cuts@)[q] == x);
                                }
                                assert(pairs(cuts@)[c0.len() as int] == (pid@, id@));
                            }
                        }
                    }
                }
            }
            i = i + 1;
        }
        let ghost ev = pairs(edges@);
        let ghost cv = pairs(cuts@);
        proof {
            assert(keys.take(keys.len() as int) =~= keys);
            assert forall|d: Seq<char>| keys.contains(d) == s.contains(d) by {
                assert(keys.to_set().contains(d) == keys.contains(d));
            }
            assert(is_walk(keys, s));
            assert(ev == cut_edges(n0, s, keys));
        }
        // Surviving parents drop their pruned children.
        let mut a: usize = 0;
        proof {
            assert forall|k: Seq<char>| n0.contains_key(k) implies #[trigger] uncut(
                n0,
                cv.take(0),
                k,
            ) == n0[k].child_ids by {
                let l = n0[k].child_ids;
                lemma_filter_same(
                    l,
                    |c: Seq<char>| !cv.take(0).contains((k, c)),
                    |c: Seq<char>| true,
                );
                lemma_filter_all(l);
            }
        }
        while a < cuts.len()
            invariant
                a <= cuts@.len(),
                cv == pairs(cuts@),
                s == ids@.dom(),
                self@ == (IndexView { nodes: self@.nodes, ..v0 }),
                self@.nodes.dom() == n0.dom(),
                forall|p: Seq<char>, d: Seq<char>| #[trigger] cv.contains((p, d)) ==> !s.contains(p),
                forall|k: Seq<char>| #[trigger]
                    n0.contains_key(k) ==> self@.nodes[k] == (MetaView {
                        child_ids: uncut(n0, cv.take(a as int), k),
                        ..n0[k]
                    }),
            decreases cuts@.len() - a,
        {
            let ghost before = self@.nodes;
            let p = &cuts[a].0;
            let d = &cuts[a].1;
            proof {
                assert(cv[a as int] == (p@, d@));
                assert forall|k: Seq<char>| #[trigger] n0.contains_key(k) implies uncut(
                    n0,
                    cv.take(a + 1),
                    k,
                ) == if p@ == k {
                    without(uncut(n0, cv.take(a as int), k), d@)
                } else {
                    uncut(n0, cv.take(a as int), k)
                } by {
                    lemma_uncut_step(n0, cv, a as int, k);
                }
            }
            if let Some(pm) = self.snapshots.get(p.as_str()) {
                let list = without_text(&pm.child_ids, d.as_str());
                set_children(&mut self.snapshots, p.as_str(), list);
            }
            proof {
                assert(self@.nodes.dom() =~= n0.dom());
            }
            a = a + 1;
        }
        proof {
            assert(cv.take(cv.len() as int) =~= cv);
            assert forall|k: Seq<char>| #[trigger] n0.contains_key(k) && !s.contains(k) implies uncut(
                n0,
                cv,
                k,
            ) == kept_children(n0, s, k) by {
                lemma_filter_same(
                    children_of(n0, k),
                    |c: Seq<char>| !cv.contains((k, c)),
                    |c: Seq<char>| !(s.contains(c) && parent_of(n0, c) == Some(k)),
                );
            }
            assert forall|k: Seq<char>| #[trigger] n0.contains_key(k) && s.contains(k) implies uncut(
                n0,
                cv,
                k,
            ) == n0[k].child_ids by {
                let l = n0[k].child_ids;
                lemma_filter_same(l, |c: Seq<char>| !cv.contains((k, c)), |c: Seq<char>| true);
                lemma_filter_all(l);
            }
            assert forall|k: Seq<char>| #[trigger] n0.contains_key(k) implies rehung_record(
                n0,
                s,
                ev,
                0,
                k,
                self@.nodes[k],
            ) by {
                let l = self@.nodes[k].child_ids;
                assert(l.skip(l.len() as int) =~= Seq::<Seq<char>>::empty());
                assert(l.subrange(0, l.len() as int) =~= l);
            }
            assert(ev.take(0) =~= Seq::<(Seq<char>, Seq<char>)>::empty());
        }
        // Surviving children hang from the nearest surviving ancestor.
        let mut b: usize = 0;
        while b < edges.len()
            invariant
                b <= edges@.len(),
                ev == pairs(edges@),
                s == ids@.dom(),
                self@ == (IndexView { nodes: self@.nodes, ..v0 }),
                self@.nodes.dom() == n0.dom(),
                forall|c: Seq<char>, d: Seq<char>| #[trigger]
                    cut_edge(n0, s, c, d) ==> escapes(n0, s, d),
                forall|c: Seq<char>, d: Seq<char>| #[trigger]
                    ev.contains((c, d)) ==> cut_edge(n0, s, c, d),
                forall|k: Seq<char>| #[trigger]
                    n0.contains_key(k) ==> rehung_record(n0, s, ev, b as int, k, self@.nodes[k]),
                forall|k: Seq<char>| #[trigger]
                    n0.contains_key(k) && !s.contains(k) ==> hung_along(
                        n0,
                        s,
                        ev.take(b as int),
                        k,
                        self@.nodes[k],
                    ),
            decreases edges@.len() - b,
        {
            let c = &edges[b].0;
            let d = &edges[b].1;
            let ghost before = self@.nodes;
            proof {
                assert(ev[b as int] == (c@, d@));
                assert(ev.contains((c@, d@)));
                assert(ev.take(b + 1).drop_last() =~= ev.take(b as int));
                assert(ev.take(b + 1).last() == (c@, d@));
            }
            let sp = find_survivor(&self.snapshots, ids, d.as_str(), Ghost(n0));
            let ghost spv = opt_text(sp);
            set_parent(&mut self.snapshots, c.as_str(), &sp);
            if let Some(spid) = &sp {
                if let Some(pm) = self.snapshots.get(spid.as_str()) {
                    let mut list = copy_texts(&pm.child_ids);
                    include_text(&mut list, c.as_str());
                    set_children(&mut self.snapshots, spid.as_str(), list);
                }
            }
            proof {
                assert(self@.nodes.dom() =~= n0.dom());
                assert forall|k: Seq<char>| #[trigger] n0.contains_key(k) implies rehung_record(
                    n0,
                    s,
                    ev,
                    b + 1,
                    k,
                    self@.nodes[k],
                ) by {
                    assert(rehung_record(n0, s, ev, b as int, k, before[k]));
                    if !s.contains(k) {
                        let m = self@.nodes[k];
                        let h0 = hung(n0, s, ev, b as int, k);
                        let h1 = hung(n0, s, ev, b + 1, k);
                        if spv == Some(k) {
                            lemma_extend(
                                kept_children(n0, s, k),
                                before[k].child_ids,
                                h0,
                                c@,
                            );
                            assert(h1 =~= h0.insert(c@)) by {
                                assert(ev[b as int].0 == c@);
                                assert forall|x: Seq<char>| h1.contains(x) == h0.insert(
                                    c@,
                                ).contains(x) by {
                                    if h1.contains(x) {
                                        let e = choose|e: int|
                                            0 <= e < b + 1 && (#[trigger] ev[e]).0 == x && survivor(
                                                n0,
                                                s,
                                                ev[e].1,
                                            ) == Some(k);
                                        if e < b {
                                            assert(h0.contains(x));
                                        }
                                    }
                                    if h0.contains(x) {
                                        let e = choose|e: int|
                                            0 <= e < b && (#[trigger] ev[e]).0 == x && survivor(
                                                n0,
                                                s,
                                                ev[e].1,
                                            ) == Some(k);
                                        assert(h1.contains(x));
                                    }
                                }
                            }
                            assert(m.child_ids == including(before[k].child_ids, c@));
                        } else {
                            assert(h1 =~= h0);
                            assert(m.child_ids == before[k].child_ids);
                        }
                        if k == c@ {
                            assert(m.parent_id == spv);
                            assert(ev[b as int].0 == k);
                        } else {
                            assert(m.parent_id == before[k].parent_id);
                        }
                    }
                }
            }
            b = b + 1;
        }
        let ghost n2 = self@.nodes;
        proof {
            assert(ev.take(ev.len() as int) =~= ev);
            assert forall|k: Seq<char>| #[trigger] n0.contains_key(k) implies n2.contains_key(k) by {}
            assert forall|c: Seq<char>, d: Seq<char>| #[trigger] cut_edge(n0, s, c, d) implies exists|
                e: int,
            |
                0 <= e < ev.len() && #[trigger] ev[e] == (c, d) by {
                assert(ev.contains((c, d)));
            }
            assert forall|k: Seq<char>| #[trigger] n0.contains_key(k) && !s.contains(k) implies hung(
                n0,
                s,
                ev,
                ev.len() as int,
                k,
            ) == gained_children(n0, s, k) by {
                let h = hung(n0, s, ev, ev.len() as int, k);
                let g = gained_children(n0, s, k);
                assert forall|x: Seq<char>| h.contains(x) == g.contains(x) by {
                    if h.contains(x) {
                        let e = choose|e: int|
                            0 <= e < ev.len() && (#[trigger] ev[e]).0 == x && survivor(n0, s, ev[e].1)
                                == Some(k);
                        assert(ev.contains((x, ev[e].1)));
                        assert(cut_edge(n0, s, x, ev[e].1));
                    }
                    if g.contains(x) {
                        let d = choose|d: Seq<char>| #[trigger]
                            cut_edge(n0, s, x, d) && survivor(n0, s, d) == Some(k);
                        let e = choose|e: int| 0 <= e < ev.len() && #[trigger] ev[e] == (x, d);
                        assert(ev[e].0 == x);
                    }
                }
                assert(h =~= g);
            }
        }
        let old_head = copy_opt(&self.head);
        if let Some(h) = &old_head {
            if ids.contains_key(h.as_str()) {
                let p = find_survivor(&self.snapshots, ids, h.as_str(), Ghost(n0));
                if let Some(nh) = &p {
                    mark_live(&mut self.snapshots, nh.as_str());
                }
                self.head = p;
            }
        }
        proof {
            assert(self@.nodes.dom() =~= n0.dom());
            assert forall|k: Seq<char>| #[trigger] n0.contains_key(k) implies pruned_record(
                v0,
                s,
                self@.head,
                k,
                self@.nodes[k],
            ) by {
                assert(rehung_record(n0, s, ev, ev.len() as int, k, n2[k]));
                if !s.contains(k) {
                    let m = n2[k];
                    assert(extended_by(
                        kept_children(n0, s, k),
                        m.child_ids,
                        gained_children(n0, s, k),
                    ));
                    if exists|e: int|
                        0 <= e < ev.len() && (#[trigger] ev[e]).0 == k && m.parent_id == survivor(
                            n0,
                            s,
                            ev[e].1,
                        ) {
                        let e = choose|e: int|
                            0 <= e < ev.len() && (#[trigger] ev[e]).0 == k && m.parent_id
                                == survivor(n0, s, ev[e].1);
                        assert(ev.contains((k, ev[e].1)));
                        assert(cut_edge(n0, s, k, ev[e].1));
                    } else {
                        assert forall|d: Seq<char>| !cut_edge(n0, s, k, d) by {
                            if cut_edge(n0, s, k, d) {
                                let e = choose|e: int| 0 <= e < ev.len() && #[trigger] ev[e] == (k, d);
                                assert(ev[e].0 == k);
                            }
                        }
                    }
                }
            }
            assert(self@.nodes =~= v0.pruned_along(s, keys).nodes);
            assert(self@ == v0.pruned_along(s, keys));
        }
    }
}

pub(crate) proof fn lemma_filter_all(l: Seq<Seq<char>>)
    ensures
        l.filter(|c: Seq<char>| true) == l,
    decreases l.len(),
{
    reveal(Seq::filter);
    if l.len() > 0 {
        lemma_filter_all(l.drop_last());
        assert(l.drop_last().push(l.last()) =~= l);
    }
}

} // verus!
