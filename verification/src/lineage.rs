//! What every change of the index keeps of the lineage.

use crate::ids::LIVE_CHILD;
use crate::index::{adopting, children_of, parent_of, IndexView, Nodes};
use crate::lookup::lemma_up_from_parent;
use crate::prune::{
    after_hanging, cut_edge, cut_edges, edges_to, escapes, escapes_at, extended_by,
    gained_children, is_walk, kept_children, lemma_edges_none, lemma_edges_step,
    lemma_escape_unique, lemma_filter_all, lemma_filter_same, parent_after, pruned, pruned_record,
    survivor, up, within,
};
use crate::snapshot::MetaView;
use crate::text_list::{including, other_than, without};
use vstd::prelude::*;

verus! {

/// Parents come before their children in some ranking: following parents never returns.
pub open spec fn ranked(nodes: Nodes, rank: spec_fn(Seq<char>) -> nat) -> bool {
    forall|k: Seq<char>| #[trigger]
        nodes.contains_key(k) && nodes[k].parent_id is Some ==> rank(nodes[k].parent_id->0)
            < rank(k)
}

/// The record of `k` agrees with those of its parent and of its children.
pub open spec fn record_linked(nodes: Nodes, head: Option<Seq<char>>, k: Seq<char>) -> bool {
    let m = nodes[k];
    &&& m.parent_id matches Some(p) ==> nodes.contains_key(p) && nodes[p].child_ids.contains(k)
    &&& forall|c: Seq<char>| #[trigger]
        m.child_ids.contains(c) && c != LIVE_CHILD@ ==> nodes.contains_key(c) && nodes[c].parent_id
            == Some(k)
    &&& m.child_ids.no_duplicates()
    &&& m.child_ids.contains(LIVE_CHILD@) <==> head == Some(k)
}

/// A consistent lineage: parents and children name each other, nothing descends from itself,
/// and the live marker hangs from the head and nowhere else.
pub open spec fn linked(v: IndexView) -> bool {
    &&& !v.nodes.contains_key(LIVE_CHILD@)
    &&& v.head matches Some(h) ==> v.nodes.contains_key(h)
    &&& forall|k: Seq<char>| #[trigger]
        v.nodes.contains_key(k) ==> record_linked(v.nodes, v.head, k)
    &&& exists|rank: spec_fn(Seq<char>) -> nat| ranked(v.nodes, rank)
}

impl IndexView {
    /// The index without the records of `ids`.
    pub open spec fn without_records(self, ids: Set<Seq<char>>) -> IndexView {
        IndexView { nodes: self.nodes.remove_keys(ids), ..self }
    }
}

/// A new index is consistent.
pub proof fn lemma_empty_is_linked(v: IndexView)
    requires
        v.nodes == Map::<Seq<char>, MetaView>::empty(),
        v.head is None,
    ensures
        linked(v),
{
    let rank = |k: Seq<char>| 0nat;
    assert(ranked(v.nodes, rank));
}

/// Dropping a text from a list drops that text and nothing else, and repeats nothing.
pub proof fn lemma_without(list: Seq<Seq<char>>, t: Seq<char>)
    ensures
        forall|x: Seq<char>| #[trigger]
            without(list, t).contains(x) <==> list.contains(x) && x != t,
        list.no_duplicates() ==> without(list, t).no_duplicates(),
{
    let p = other_than(t);
    assert forall|x: Seq<char>| #[trigger] without(list, t).contains(x) <==> list.contains(x) && x
        != t by {
        if list.contains(x) && x != t {
            let i = list.index_of(x);
            list.lemma_filter_contains(p, i);
        }
        if without(list, t).contains(x) {
            let i = without(list, t).index_of(x);
            list.lemma_filter_pred(p, i);
            lemma_filter_from(list, p, x);
        }
    }
    if list.no_duplicates() {
        lemma_filter_no_duplicates(list, p);
    }
}

proof fn lemma_filter_from<A>(s: Seq<A>, p: spec_fn(A) -> bool, x: A)
    requires
        s.filter(p).contains(x),
    ensures
        s.contains(x),
        p(x),
    decreases s.len(),
{
    reveal(Seq::filter);
    if s.len() > 0 {
        let t = s.drop_last();
        let i = s.filter(p).index_of(x);
        if p(s.last()) && i == t.filter(p).len() {
            assert(s[s.len() - 1] == x);
        } else {
            assert(t.filter(p)[i] == x);
            lemma_filter_from(t, p, x);
            let j = t.index_of(x);
            assert(s[j] == x);
        }
    }
}

proof fn lemma_filter_no_duplicates<A>(s: Seq<A>, p: spec_fn(A) -> bool)
    requires
        s.no_duplicates(),
    ensures
        s.filter(p).no_duplicates(),
    decreases s.len(),
{
    reveal(Seq::filter);
    if s.len() > 0 {
        let t = s.drop_last();
        lemma_filter_no_duplicates(t, p);
        if p(s.last()) {
            assert(!t.filter(p).contains(s.last())) by {
                if t.filter(p).contains(s.last()) {
                    lemma_filter_from(t, p, s.last());
                    let j = t.index_of(s.last());
                    assert(s[j] == s[s.len() - 1]);
                }
            }
        }
    }
}

pub(crate) proof fn lemma_including(list: Seq<Seq<char>>, t: Seq<char>)
    ensures
        forall|x: Seq<char>| #[trigger]
            including(list, t).contains(x) <==> list.contains(x) || x == t,
        list.no_duplicates() ==> including(list, t).no_duplicates(),
{
    if !list.contains(t) {
        let l = list.push(t);
        assert forall|x: Seq<char>| #[trigger] l.contains(x) <==> list.contains(x) || x == t by {
            if list.contains(x) {
                let i = list.index_of(x);
                assert(l[i] == x);
            }
            assert(l[list.len() as int] == t);
        }
    }
}

pub(crate) proof fn lemma_adopting(list: Seq<Seq<char>>, kids: Seq<Seq<char>>)
    ensures
        forall|x: Seq<char>| #[trigger]
            adopting(list, kids).contains(x) <==> list.contains(x) || (kids.contains(x) && x
                != LIVE_CHILD@),
        list.no_duplicates() ==> adopting(list, kids).no_duplicates(),
    decreases kids.len(),
{
    if kids.len() > 0 {
        let front = kids.drop_last();
        let l = adopting(list, front);
        lemma_adopting(list, front);
        lemma_including(l, kids.last());
        assert forall|x: Seq<char>| #[trigger] adopting(list, kids).contains(x) <==> list.contains(x)
            || (kids.contains(x) && x != LIVE_CHILD@) by {
            if front.contains(x) {
                let i = front.index_of(x);
                assert(kids[i] == x);
            }
            if kids.contains(x) {
                let i = kids.index_of(x);
                if i < front.len() {
                    assert(front[i] == x);
                }
            }
        }
    }
}

/// Deleting a snapshot (taking it out of the lineage and dropping its record) keeps the lineage
/// consistent; in particular nothing refers to it any more. Every other snapshot keeps its
/// parent, but for the children of the deleted one, which hang from its parent.
pub proof fn lemma_delete_keeps_lineage(v: IndexView, id: Seq<char>)
    requires
        linked(v),
        v.nodes.contains_key(id),
    ensures
        linked(v.unlinked(id).without_records(set![id])),
        forall|k: Seq<char>| #[trigger]
            v.nodes.contains_key(k) && k != id ==> v.unlinked(id).nodes[k].parent_id == if parent_of(
                v.nodes,
                k,
            ) == Some(id) {
                parent_of(v.nodes, id)
            } else {
                parent_of(v.nodes, k)
            },
{
    let u = v.unlinked(id);
    let r = u.without_records(set![id]);
    let parent = parent_of(v.nodes, id);
    let kids = children_of(v.nodes, id);
    let rank = choose|rank: spec_fn(Seq<char>) -> nat| ranked(v.nodes, rank);
    assert(record_linked(v.nodes, v.head, id));
    assert forall|k: Seq<char>| #[trigger] v.nodes.contains_key(k) implies (kids.contains(k)
        <==> v.nodes[k].parent_id == Some(id)) by {
        assert(record_linked(v.nodes, v.head, k));
    }
    assert(parent != Some(id)) by {
        if parent == Some(id) {
            assert(rank(id) < rank(id));
        }
    }
    assert forall|k: Seq<char>| #[trigger] r.nodes.contains_key(k) implies record_linked(
        r.nodes,
        r.head,
        k,
    ) by {
        assert(v.nodes.contains_key(k) && k != id);
        assert(record_linked(v.nodes, v.head, k));
        let m0 = v.nodes[k];
        let m = r.nodes[k];
        assert(m == u.nodes[k]);
        // The parent knows k.
        if m.parent_id is Some {
            let p = m.parent_id->0;
            if kids.contains(k) {
                assert(parent == Some(p));
                assert(v.nodes.contains_key(p));
                assert(p != id);
                lemma_without(v.nodes[p].child_ids, id);
                lemma_adopting(without(v.nodes[p].child_ids, id), kids);
                lemma_including(adopting(without(v.nodes[p].child_ids, id), kids), LIVE_CHILD@);
                assert(r.nodes[p].child_ids.contains(k));
            } else {
                assert(m0.parent_id == Some(p));
                assert(p != id);
                lemma_without(v.nodes[p].child_ids, id);
                lemma_adopting(without(v.nodes[p].child_ids, id), kids);
                lemma_including(adopting(without(v.nodes[p].child_ids, id), kids), LIVE_CHILD@);
                assert(r.nodes.contains_key(p) && r.nodes[p].child_ids.contains(k));
            }
        }
        // The children know k.
        lemma_without(m0.child_ids, id);
        lemma_adopting(without(m0.child_ids, id), kids);
        lemma_including(adopting(without(m0.child_ids, id), kids), LIVE_CHILD@);
        assert forall|c: Seq<char>| #[trigger] m.child_ids.contains(c) && c
            != LIVE_CHILD@ implies r.nodes.contains_key(c) && r.nodes[c].parent_id == Some(k) by {
            if parent == Some(k) {
                if m0.child_ids.contains(c) && c != id {
                    assert(v.nodes[c].parent_id == Some(k));
                    assert(!kids.contains(c));
                } else {
                    assert(kids.contains(c));
                    assert(v.nodes.contains_key(c));
                    assert(c != id) by {
                        if c == id {
                            assert(v.nodes[id].parent_id == Some(id));
                        }
                    }
                }
            } else {
                assert(m0.child_ids.contains(c));
                assert(v.nodes[c].parent_id == Some(k));
                assert(c != id);
                assert(!kids.contains(c));
            }
        }
        // The live marker.
        if parent == Some(k) {
            assert(v.head != Some(id) ==> (m.child_ids.contains(LIVE_CHILD@) <==> m0.child_ids.contains(
                LIVE_CHILD@,
            )));
        }
    }
    assert(ranked(r.nodes, rank)) by {
        assert forall|k: Seq<char>| #[trigger]
            r.nodes.contains_key(k) && r.nodes[k].parent_id is Some implies rank(
            r.nodes[k].parent_id->0,
        ) < rank(k) by {
            assert(v.nodes.contains_key(k));
            if kids.contains(k) {
                assert(rank(id) < rank(k));
                assert(v.nodes.contains_key(id));
            }
        }
    }
    if r.head is Some {
        assert(v.nodes.contains_key(r.head->0));
    }
}

/// In a consistent lineage the way up from any snapshot ends, so it leaves any set.
pub proof fn lemma_linked_escapes(v: IndexView, ids: Set<Seq<char>>, id: Seq<char>)
    requires
        linked(v),
    ensures
        escapes(v.nodes, ids, id),
{
    let rank = choose|rank: spec_fn(Seq<char>) -> nat| ranked(v.nodes, rank);
    lemma_ranked_escapes(v.nodes, ids, id, rank);
}

proof fn lemma_ranked_escapes(
    nodes: Nodes,
    ids: Set<Seq<char>>,
    id: Seq<char>,
    rank: spec_fn(Seq<char>) -> nat,
)
    requires
        ranked(nodes, rank),
    ensures
        escapes(nodes, ids, id),
    decreases rank(id),
{
    assert(up(nodes, id, 0) == Some(id));
    assert(up(nodes, id, 1) == parent_of(nodes, id));
    if within(ids, parent_of(nodes, id)) {
        let p = parent_of(nodes, id)->0;
        assert(nodes.contains_key(id));
        lemma_ranked_escapes(nodes, ids, p, rank);
        let n = choose|n: nat| escapes_at(nodes, ids, p, n);
        assert(escapes_at(nodes, ids, id, n + 1)) by {
            lemma_up_from_parent(nodes, id, p, n);
            assert forall|m: nat| 1 <= m < n + 1 implies within(ids, #[trigger] up(nodes, id, m)) by {
                lemma_up_from_parent(nodes, id, p, (m - 1) as nat);
                if m == 1 {
                    assert(up(nodes, p, 0) == Some(p));
                } else {
                    assert(within(ids, up(nodes, p, (m - 1) as nat)));
                }
            }
        }
    } else {
        assert(escapes_at(nodes, ids, id, 1));
    }
}

/// The nearest surviving ancestor is in the index, outside the set, and ranks lower.
proof fn lemma_survivor(
    v: IndexView,
    ids: Set<Seq<char>>,
    id: Seq<char>,
    rank: spec_fn(Seq<char>) -> nat,
)
    requires
        linked(v),
        ranked(v.nodes, rank),
        v.nodes.contains_key(id),
        survivor(v.nodes, ids, id) is Some,
    ensures
        v.nodes.contains_key(survivor(v.nodes, ids, id)->0),
        !ids.contains(survivor(v.nodes, ids, id)->0),
        rank(survivor(v.nodes, ids, id)->0) < rank(id),
{
    lemma_linked_escapes(v, ids, id);
    let n = choose|n: nat| escapes_at(v.nodes, ids, id, n);
    assert(escapes_at(v.nodes, ids, id, n));
    lemma_up_ranks(v, id, n, rank);
}

proof fn lemma_up_ranks(v: IndexView, id: Seq<char>, n: nat, rank: spec_fn(Seq<char>) -> nat)
    requires
        linked(v),
        ranked(v.nodes, rank),
        v.nodes.contains_key(id),
        n >= 1,
        up(v.nodes, id, n) is Some,
    ensures
        v.nodes.contains_key(up(v.nodes, id, n)->0),
        rank(up(v.nodes, id, n)->0) < rank(id),
    decreases n,
{
    if n == 1 {
        assert(up(v.nodes, id, 0) == Some(id));
        assert(record_linked(v.nodes, v.head, id));
    } else {
        lemma_up_ranks(v, id, (n - 1) as nat, rank);
        let x = up(v.nodes, id, (n - 1) as nat)->0;
        assert(record_linked(v.nodes, v.head, x));
    }
}

/// Pruning a batch of snapshots (taking them out of the lineage and dropping their records)
/// keeps the lineage consistent; in particular nothing refers to them any more. Every other
/// snapshot hangs from its nearest surviving ancestor.
pub proof fn lemma_prune_keeps_lineage(v: IndexView, ids: Set<Seq<char>>, r: IndexView)
    requires
        linked(v),
        pruned(v, ids, r),
    ensures
        linked(r.without_records(ids)),
        forall|k: Seq<char>| #[trigger]
            v.nodes.contains_key(k) && !ids.contains(k) ==> r.nodes[k].parent_id == survivor(
                v.nodes,
                ids,
                k,
            ),
{
    let w = r.without_records(ids);
    let rank = choose|rank: spec_fn(Seq<char>) -> nat| ranked(v.nodes, rank);
    assert forall|k: Seq<char>| #[trigger]
        v.nodes.contains_key(k) && !ids.contains(k) implies r.nodes[k].parent_id == survivor(
        v.nodes,
        ids,
        k,
    ) by {
        lemma_pruned_parent(v, ids, r, k);
    }
    assert forall|k: Seq<char>| #[trigger] w.nodes.contains_key(k) implies record_linked(
        w.nodes,
        w.head,
        k,
    ) by {
        assert(v.nodes.contains_key(k) && !ids.contains(k));
        assert(record_linked(v.nodes, v.head, k));
        assert(pruned_record(v, ids, r.head, k, r.nodes[k]));
        let m = w.nodes[k];
        if m.parent_id is Some {
            lemma_survivor(v, ids, k, rank);
            lemma_pruned_children(v, ids, r, m.parent_id->0, k);
        }
        assert forall|c: Seq<char>| #[trigger] m.child_ids.contains(c) && c
            != LIVE_CHILD@ implies w.nodes.contains_key(c) && w.nodes[c].parent_id == Some(k) by {
            lemma_pruned_children(v, ids, r, k, c);
            assert(v.nodes.contains_key(c));
        }
        lemma_pruned_list(v, ids, r, k);
    }
    assert(ranked(w.nodes, rank)) by {
        assert forall|k: Seq<char>| #[trigger]
            w.nodes.contains_key(k) && w.nodes[k].parent_id is Some implies rank(
            w.nodes[k].parent_id->0,
        ) < rank(k) by {
            assert(v.nodes.contains_key(k));
            lemma_survivor(v, ids, k, rank);
        }
    }
    if r.head is Some {
        if within(ids, v.head) {
            lemma_survivor(v, ids, v.head->0, rank);
        }
        assert(w.nodes.contains_key(r.head->0));
    }
}

proof fn lemma_pruned_parent(v: IndexView, ids: Set<Seq<char>>, r: IndexView, k: Seq<char>)
    requires
        linked(v),
        pruned(v, ids, r),
        v.nodes.contains_key(k),
        !ids.contains(k),
    ensures
        r.nodes[k].parent_id == survivor(v.nodes, ids, k),
{
    let nodes = v.nodes;
    assert(record_linked(nodes, v.head, k));
    assert(pruned_record(v, ids, r.head, k, r.nodes[k]));
    assert(up(nodes, k, 0) == Some(k));
    assert(up(nodes, k, 1) == parent_of(nodes, k));
    assert forall|d: Seq<char>| #[trigger] cut_edge(nodes, ids, k, d) <==> nodes[k].parent_id == Some(
        d,
    ) && ids.contains(d) by {
        if cut_edge(nodes, ids, k, d) {
            assert(nodes.contains_key(d));
            assert(record_linked(nodes, v.head, d));
        }
    }
    if within(ids, nodes[k].parent_id) {
        let d = nodes[k].parent_id->0;
        assert(cut_edge(nodes, ids, k, d));
        lemma_linked_escapes(v, ids, d);
        let n = choose|n: nat| escapes_at(nodes, ids, d, n);
        assert(escapes_at(nodes, ids, d, n));
        lemma_up_from_parent(nodes, k, d, n);
        assert(escapes_at(nodes, ids, k, n + 1)) by {
            assert forall|m: nat| 1 <= m < n + 1 implies within(ids, #[trigger] up(nodes, k, m)) by {
                lemma_up_from_parent(nodes, k, d, (m - 1) as nat);
                if m == 1 {
                    assert(up(nodes, d, 0) == Some(d));
                } else {
                    assert(within(ids, up(nodes, d, (m - 1) as nat)));
                }
            }
        }
        lemma_escape_unique(nodes, ids, k, n + 1);
    } else {
        assert(escapes_at(nodes, ids, k, 1));
        lemma_escape_unique(nodes, ids, k, 1);
        assert(forall|d: Seq<char>| !cut_edge(nodes, ids, k, d));
    }
}

/// The children that pruning leaves `k`: the survivors whose nearest surviving ancestor it is.
proof fn lemma_pruned_children(
    v: IndexView,
    ids: Set<Seq<char>>,
    r: IndexView,
    k: Seq<char>,
    c: Seq<char>,
)
    requires
        linked(v),
        pruned(v, ids, r),
        v.nodes.contains_key(k),
        !ids.contains(k),
        c != LIVE_CHILD@,
    ensures
        r.nodes[k].child_ids.contains(c) <==> v.nodes.contains_key(c) && !ids.contains(c)
            && survivor(v.nodes, ids, c) == Some(k),
{
    let nodes = v.nodes;
    assert(record_linked(nodes, v.head, k));
    assert(pruned_record(v, ids, r.head, k, r.nodes[k]));
    let base = kept_children(nodes, ids, k);
    let extra = gained_children(nodes, ids, k);
    let l = choose|l: Seq<Seq<char>>| #[trigger]
        extended_by(base, l, extra) && r.nodes[k].child_ids == if within(ids, v.head) && r.head
            == Some(k) {
            including(l, LIVE_CHILD@)
        } else {
            l
        };
    lemma_including(l, LIVE_CHILD@);
    lemma_extended(base, l, extra, c);
    let keep = |x: Seq<char>| !(ids.contains(x) && parent_of(nodes, x) == Some(k));
    assert(base == children_of(nodes, k).filter(keep));
    assert(base.contains(c) <==> nodes[k].child_ids.contains(c) && keep(c)) by {
        if base.contains(c) {
            lemma_filter_from(nodes[k].child_ids, keep, c);
        }
        if nodes[k].child_ids.contains(c) && keep(c) {
            let i = nodes[k].child_ids.index_of(c);
            nodes[k].child_ids.lemma_filter_contains(keep, i);
        }
    }
    if base.contains(c) {
        assert(nodes.contains_key(c) && nodes[c].parent_id == Some(k));
        assert(!ids.contains(c));
        lemma_pruned_parent(v, ids, r, c);
        assert(pruned_record(v, ids, r.head, c, r.nodes[c]));
        assert(up(nodes, c, 0) == Some(c));
        assert(up(nodes, c, 1) == Some(k));
        assert(escapes_at(nodes, ids, c, 1));
        lemma_escape_unique(nodes, ids, c, 1);
    }
    if extra.contains(c) {
        let d = choose|d: Seq<char>| #[trigger]
            cut_edge(nodes, ids, c, d) && survivor(nodes, ids, d) == Some(k);
        assert(nodes.contains_key(d));
        assert(record_linked(nodes, v.head, d));
        lemma_survivor_of_child(v, ids, c, d);
    }
    if nodes.contains_key(c) && !ids.contains(c) && survivor(nodes, ids, c) == Some(k) {
        assert(record_linked(nodes, v.head, c));
        assert(up(nodes, c, 0) == Some(c));
        assert(up(nodes, c, 1) == parent_of(nodes, c));
        if within(ids, nodes[c].parent_id) {
            let d = nodes[c].parent_id->0;
            lemma_survivor_of_child(v, ids, c, d);
            assert(cut_edge(nodes, ids, c, d));
            assert(extra.contains(c));
        } else {
            assert(escapes_at(nodes, ids, c, 1));
            lemma_escape_unique(nodes, ids, c, 1);
            assert(nodes[c].parent_id == Some(k));
            assert(base.contains(c));
        }
    }
}

proof fn lemma_survivor_of_child(v: IndexView, ids: Set<Seq<char>>, c: Seq<char>, d: Seq<char>)
    requires
        linked(v),
        parent_of(v.nodes, c) == Some(d),
        ids.contains(d),
    ensures
        survivor(v.nodes, ids, c) == survivor(v.nodes, ids, d),
{
    let nodes = v.nodes;
    lemma_linked_escapes(v, ids, d);
    let n = choose|n: nat| escapes_at(nodes, ids, d, n);
    assert(escapes_at(nodes, ids, d, n));
    lemma_up_from_parent(nodes, c, d, n);
    assert(escapes_at(nodes, ids, c, n + 1)) by {
        assert forall|m: nat| 1 <= m < n + 1 implies within(ids, #[trigger] up(nodes, c, m)) by {
            lemma_up_from_parent(nodes, c, d, (m - 1) as nat);
            if m == 1 {
                assert(up(nodes, d, 0) == Some(d));
            } else {
                assert(within(ids, up(nodes, d, (m - 1) as nat)));
            }
        }
    }
    lemma_escape_unique(nodes, ids, c, n + 1);
}

proof fn lemma_extended(base: Seq<Seq<char>>, l: Seq<Seq<char>>, extra: Set<Seq<char>>, c: Seq<char>)
    requires
        extended_by(base, l, extra),
    ensures
        l.contains(c) <==> base.contains(c) || extra.contains(c),
        base.no_duplicates() ==> l.no_duplicates(),
{
    let n = base.len() as int;
    let t = l.skip(n);
    assert(base == l.subrange(0, n));
    if l.contains(c) {
        let i = l.index_of(c);
        if i < n {
            assert(base[i] == c);
        } else {
            assert(t[i - n] == c);
            assert(t.contains(c));
        }
    }
    if base.contains(c) {
        let i = base.index_of(c);
        assert(l[i] == c);
    }
    if extra.contains(c) && !base.contains(c) {
        assert(t.contains(c));
        let i = t.index_of(c);
        assert(l[i + n] == c);
    }
    if base.no_duplicates() {
        assert forall|i: int, j: int| 0 <= i < l.len() && 0 <= j < l.len() && i != j implies l[i]
            != l[j] by {
            if i < n && j < n {
                assert(base[i] == l[i] && base[j] == l[j]);
            } else if i >= n && j >= n {
                assert(t[i - n] == l[i] && t[j - n] == l[j]);
            } else if i < n {
                assert(base[i] == l[i] && t[j - n] == l[j]);
                assert(t.contains(l[j]));
            } else {
                assert(base[j] == l[j] && t[i - n] == l[i]);
                assert(t.contains(l[i]));
            }
        }
    }
}

proof fn lemma_pruned_list(v: IndexView, ids: Set<Seq<char>>, r: IndexView, k: Seq<char>)
    requires
        linked(v),
        pruned(v, ids, r),
        v.nodes.contains_key(k),
        !ids.contains(k),
    ensures
        r.nodes[k].child_ids.no_duplicates(),
        r.nodes[k].child_ids.contains(LIVE_CHILD@) <==> r.head == Some(k),
{
    let nodes = v.nodes;
    assert(record_linked(nodes, v.head, k));
    assert(pruned_record(v, ids, r.head, k, r.nodes[k]));
    let base = kept_children(nodes, ids, k);
    let extra = gained_children(nodes, ids, k);
    let l = choose|l: Seq<Seq<char>>| #[trigger]
        extended_by(base, l, extra) && r.nodes[k].child_ids == if within(ids, v.head) && r.head
            == Some(k) {
            including(l, LIVE_CHILD@)
        } else {
            l
        };
    let keep = |x: Seq<char>| !(ids.contains(x) && parent_of(nodes, x) == Some(k));
    assert(base == children_of(nodes, k).filter(keep));
    lemma_filter_no_duplicates(nodes[k].child_ids, keep);
    lemma_including(l, LIVE_CHILD@);
    lemma_extended(base, l, extra, LIVE_CHILD@);
    assert(!extra.contains(LIVE_CHILD@));
    assert(base.contains(LIVE_CHILD@) <==> nodes[k].child_ids.contains(LIVE_CHILD@)) by {
        if base.contains(LIVE_CHILD@) {
            lemma_filter_from(nodes[k].child_ids, keep, LIVE_CHILD@);
        }
        if nodes[k].child_ids.contains(LIVE_CHILD@) {
            let i = nodes[k].child_ids.index_of(LIVE_CHILD@);
            assert(parent_of(nodes, LIVE_CHILD@) is None);
            nodes[k].child_ids.lemma_filter_contains(keep, i);
        }
    }
}

/// The way up from a snapshot that is not its own parent leaves the snapshot at once, and leads
/// to its parent.
pub proof fn lemma_one_escapes(nodes: Nodes, id: Seq<char>)
    requires
        parent_of(nodes, id) != Some(id),
    ensures
        escapes(nodes, set![id], id),
        survivor(nodes, set![id], id) == parent_of(nodes, id),
{
    assert(up(nodes, id, 0) == Some(id));
    assert(up(nodes, id, 1) == parent_of(nodes, id));
    assert(escapes_at(nodes, set![id], id, 1));
    lemma_escape_unique(nodes, set![id], id, 1);
}

/// Pruning a single snapshot is unlinking it: the same head, the same parents, and the same
/// children in the same order. Only a snapshot that is recorded as its own parent or as its own
/// child is no case of this.
pub proof fn lemma_prune_one_is_unlink(v: IndexView, id: Seq<char>, r: IndexView)
    requires
        pruned(v, set![id], r),
        parent_of(v.nodes, id) != Some(id),
        !children_of(v.nodes, id).contains(id),
    ensures
        r == v.unlinked(id),
{
    let nodes = v.nodes;
    let ids = set![id];
    let kids = children_of(nodes, id);
    let order = choose|order: Seq<Seq<char>>| #[trigger]
        is_walk(order, ids) && r == v.pruned_along(ids, order);
    lemma_walk_of_one(order, id);
    assert(order.drop_last() =~= Seq::<Seq<char>>::empty());
    assert(cut_edges(nodes, ids, order.drop_last()).len() == 0);
    assert(cut_edges(nodes, ids, order) =~= edges_to(kids, ids, id));
    lemma_one_escapes(nodes, id);
    assert forall|k: Seq<char>| #[trigger] nodes.contains_key(k) implies r.nodes[k] == v.unlinked(
        id,
    ).nodes[k] by {
        if k != id {
            lemma_parent_after_one(nodes, id, kids, k);
            lemma_hanging_one(nodes, id, kids, k, kept_children(nodes, ids, k));
            lemma_kept_of_one(nodes, id, k);
        }
    }
    assert(r.nodes =~= v.unlinked(id).nodes);
}

proof fn lemma_walk_of_one(order: Seq<Seq<char>>, id: Seq<char>)
    requires
        is_walk(order, set![id]),
    ensures
        order == seq![id],
{
    assert(order.to_set().contains(id));
    assert(order.contains(id));
    assert forall|i: int| 0 <= i < order.len() implies #[trigger] order[i] == id by {
        assert(order.contains(order[i]));
        assert(order.to_set().contains(order[i]));
    }
    if order.len() > 1 {
        assert(order[0] == order[1]);
    }
    assert(order =~= seq![id]);
}

/// One more child adds its edge, if it survives.
proof fn lemma_edges_grow(kids: Seq<Seq<char>>, ids: Set<Seq<char>>, d: Seq<char>)
    requires
        kids.len() > 0,
    ensures
        edges_to(kids, ids, d) == if kids.last() != LIVE_CHILD@ && !ids.contains(kids.last()) {
            edges_to(kids.drop_last(), ids, d).push((kids.last(), d))
        } else {
            edges_to(kids.drop_last(), ids, d)
        },
{
    let n = kids.len() as int;
    assert(kids.take(n) =~= kids);
    assert(kids.take(n - 1) =~= kids.drop_last());
    lemma_edges_step(kids, ids, d, n - 1);
}

proof fn lemma_parent_after_one(
    nodes: Nodes,
    id: Seq<char>,
    kids: Seq<Seq<char>>,
    k: Seq<char>,
)
    requires
        k != id,
    ensures
        parent_after(nodes, set![id], edges_to(kids, set![id], id), k) == if k != LIVE_CHILD@
            && kids.contains(k) {
            survivor(nodes, set![id], id)
        } else {
            parent_of(nodes, k)
        },
    decreases kids.len(),
{
    let ids = set![id];
    if kids.len() == 0 {
        assert(kids =~= Seq::empty());
        lemma_edges_none(ids, id);
    } else {
        let front = kids.drop_last();
        lemma_edges_grow(kids, ids, id);
        lemma_parent_after_one(nodes, id, front, k);
        assert(kids =~= front.push(kids.last()));
        if front.contains(k) {
            let i = front.index_of(k);
            assert(kids[i] == k);
        }
        assert(kids[kids.len() - 1] == kids.last());
        let before = edges_to(front, ids, id);
        assert(before.push((kids.last(), id)).drop_last() =~= before);
    }
}

proof fn lemma_hanging_one(
    nodes: Nodes,
    id: Seq<char>,
    kids: Seq<Seq<char>>,
    k: Seq<char>,
    list: Seq<Seq<char>>,
)
    requires
        !kids.contains(id),
    ensures
        after_hanging(nodes, set![id], edges_to(kids, set![id], id), k, list) == if survivor(
            nodes,
            set![id],
            id,
        ) == Some(k) {
            adopting(list, kids)
        } else {
            list
        },
    decreases kids.len(),
{
    let ids = set![id];
    if kids.len() == 0 {
        assert(kids =~= Seq::empty());
        lemma_edges_none(ids, id);
    } else {
        let front = kids.drop_last();
        assert(!front.contains(id)) by {
            if front.contains(id) {
                let i = front.index_of(id);
                assert(kids[i] == id);
            }
        }
        assert(kids[kids.len() - 1] != id);
        lemma_edges_grow(kids, ids, id);
        lemma_hanging_one(nodes, id, front, k, list);
        let before = edges_to(front, ids, id);
        assert(before.push((kids.last(), id)).drop_last() =~= before);
    }
}

proof fn lemma_kept_of_one(nodes: Nodes, id: Seq<char>, k: Seq<char>)
    ensures
        kept_children(nodes, set![id], k) == if parent_of(nodes, id) == Some(k) {
            without(children_of(nodes, k), id)
        } else {
            children_of(nodes, k)
        },
{
    let ids = set![id];
    let l = children_of(nodes, k);
    let keep = |c: Seq<char>| !(ids.contains(c) && parent_of(nodes, c) == Some(k));
    if parent_of(nodes, id) == Some(k) {
        lemma_filter_same(l, keep, other_than(id));
    } else {
        lemma_filter_same(l, keep, |c: Seq<char>| true);
        lemma_filter_all(l);
    }
}

/// `a` comes before `b` in a list: `b` is in it, but not up to the first `a`.
pub open spec fn comes_first(l: Seq<Seq<char>>, a: Seq<char>, b: Seq<char>) -> bool {
    &&& l.contains(b)
    &&& exists|i: int| 0 <= i < l.len() && #[trigger] l[i] == a && !l.take(i + 1).contains(b)
}

/// The children of one pruned snapshot keep their order: of two that come to hang from `k`, the
/// one that the pruned snapshot lists first, `k` lists first. It is so unless `k` lists the
/// second already, or is given it by another pruned snapshot too.
pub proof fn lemma_siblings_keep_their_order(
    v: IndexView,
    ids: Set<Seq<char>>,
    r: IndexView,
    k: Seq<char>,
    d: Seq<char>,
    a: Seq<char>,
    b: Seq<char>,
)
    requires
        pruned(v, ids, r),
        v.nodes.contains_key(k),
        !ids.contains(k),
        survivor(v.nodes, ids, d) == Some(k),
        cut_edge(v.nodes, ids, a, d),
        cut_edge(v.nodes, ids, b, d),
        comes_first(children_of(v.nodes, d), a, b),
        !kept_children(v.nodes, ids, k).contains(b),
        forall|x: Seq<char>| #[trigger]
            cut_edge(v.nodes, ids, b, x) && x != d ==> survivor(v.nodes, ids, x) != Some(k),
    ensures
        comes_first(r.nodes[k].child_ids, a, b),
{
    let nodes = v.nodes;
    let kids = children_of(nodes, d);
    let base = kept_children(nodes, ids, k);
    let order = choose|order: Seq<Seq<char>>| #[trigger]
        is_walk(order, ids) && r == v.pruned_along(ids, order);
    let edges = cut_edges(nodes, ids, order);
    let l = after_hanging(nodes, ids, edges, k, base);
    // The walk up to `d`.
    assert(order.to_set().contains(d));
    let p = order.index_of(d);
    assert(order[p] == d);
    let done = cut_edges(nodes, ids, order.take(p));
    assert(order.take(p + 1).drop_last() =~= order.take(p));
    let upto = cut_edges(nodes, ids, order.take(p + 1));
    assert(upto == done + edges_to(kids, ids, d));
    // The children of `d` up to `a`.
    let i = choose|i: int| 0 <= i < kids.len() && #[trigger] kids[i] == a && !kids.take(i + 1).contains(
        b,
    );
    let part = edges_to(kids.take(i + 1), ids, d);
    lemma_edges_prefix(kids, ids, d, i + 1);
    assert(kids.take(i + 1)[i] == a);
    lemma_edges_among(kids.take(i + 1), ids, d, a);
    let first = done + part;
    let l1 = after_hanging(nodes, ids, first, k, base);
    assert forall|e: int| 0 <= e < first.len() && survivor(nodes, ids, (#[trigger] first[e]).1)
        == Some(k) implies first[e].0 != b by {
        if e < done.len() {
            lemma_edges_are_cut(nodes, ids, order.take(p), e);
            let x = done[e].1;
            if done[e].0 == b {
                assert(cut_edge(nodes, ids, b, x));
                assert(x != d) by {
                    if x == d {
                        let j = order.take(p).index_of(d);
                        assert(order[j] == order[p]);
                    }
                }
            }
        } else {
            let q = part[e - done.len()];
            assert(first[e] == q);
            if q.0 == b {
                assert(part.contains((b, d))) by {
                    lemma_edge_target(kids.take(i + 1), ids, d, e - done.len());
                    assert(part[e - done.len()] == (b, d));
                }
                lemma_edges_among(kids.take(i + 1), ids, d, b);
            }
        }
    }
    lemma_not_hung(nodes, ids, first, k, base, b);
    assert(first.contains((a, d))) by {
        let j = part.index_of((a, d));
        assert(first[done.len() + j] == (a, d));
    }
    lemma_hung(nodes, ids, first, k, base, a, d);
    // What follows only adds at the end.
    lemma_walk_prefix(nodes, ids, order, p + 1);
    assert(first.is_prefix_of(upto)) by {
        assert(first =~= upto.subrange(0, first.len() as int));
    }
    assert(first.is_prefix_of(edges)) by {
        assert(first =~= edges.subrange(0, first.len() as int));
    }
    lemma_hanging_prefix(nodes, ids, edges, k, base, first.len() as int);
    assert(edges.take(first.len() as int) =~= first);
    assert(edges.contains((b, d))) by {
        lemma_edges_among(kids, ids, d, b);
        let j = edges_to(kids, ids, d).index_of((b, d));
        assert(upto[done.len() + j] == (b, d));
        assert(edges[done.len() + j] == (b, d));
    }
    lemma_hung(nodes, ids, edges, k, base, b, d);
    let c = r.nodes[k].child_ids;
    lemma_including(l, LIVE_CHILD@);
    assert(c.contains(b));
    let j = l1.index_of(a);
    assert(l[j] == a && c[j] == a);
    assert(!c.take(j + 1).contains(b)) by {
        if c.take(j + 1).contains(b) {
            let q = c.take(j + 1).index_of(b);
            assert(l1[q] == b);
        }
    }
}

/// The edges of the first children are the first edges.
proof fn lemma_edges_prefix(kids: Seq<Seq<char>>, ids: Set<Seq<char>>, d: Seq<char>, n: int)
    requires
        0 <= n <= kids.len(),
    ensures
        edges_to(kids.take(n), ids, d).is_prefix_of(edges_to(kids, ids, d)),
    decreases kids.len(),
{
    if n == kids.len() {
        assert(kids.take(n) =~= kids);
        let e = edges_to(kids, ids, d);
        assert(e =~= e.subrange(0, e.len() as int));
    } else {
        let front = kids.drop_last();
        lemma_edges_prefix(front, ids, d, n);
        assert(front.take(n) =~= kids.take(n));
        lemma_edges_grow(kids, ids, d);
        let e = edges_to(kids.take(n), ids, d);
        assert(e =~= edges_to(kids, ids, d).subrange(0, e.len() as int));
    }
}

/// There is an edge for each surviving child, and for no other.
proof fn lemma_edges_among(kids: Seq<Seq<char>>, ids: Set<Seq<char>>, d: Seq<char>, c: Seq<char>)
    ensures
        edges_to(kids, ids, d).contains((c, d)) <==> kids.contains(c) && c != LIVE_CHILD@
            && !ids.contains(c),
    decreases kids.len(),
{
    if kids.len() == 0 {
        assert(kids =~= Seq::empty());
        lemma_edges_none(ids, d);
    } else {
        let front = kids.drop_last();
        let e = edges_to(front, ids, d);
        lemma_edges_among(front, ids, d, c);
        lemma_edges_grow(kids, ids, d);
        let g = e.push((kids.last(), d));
        if e.contains((c, d)) {
            let i = e.index_of((c, d));
            assert(g[i] == (c, d));
        }
        if g.contains((c, d)) {
            let i = g.index_of((c, d));
            if i < e.len() {
                assert(e[i] == (c, d));
            }
        }
        assert(g[e.len() as int] == (kids.last(), d));
        if front.contains(c) {
            let i = front.index_of(c);
            assert(kids[i] == c);
        }
        if kids.contains(c) {
            let i = kids.index_of(c);
            if i < front.len() {
                assert(front[i] == c);
            }
        }
    }
}

proof fn lemma_edge_target(kids: Seq<Seq<char>>, ids: Set<Seq<char>>, d: Seq<char>, i: int)
    requires
        0 <= i < edges_to(kids, ids, d).len(),
    ensures
        edges_to(kids, ids, d)[i].1 == d,
{
}

/// Every edge that a walk finds is cut, and is one of a snapshot of the walk.
proof fn lemma_edges_are_cut(nodes: Nodes, ids: Set<Seq<char>>, order: Seq<Seq<char>>, e: int)
    requires
        0 <= e < cut_edges(nodes, ids, order).len(),
        forall|i: int| 0 <= i < order.len() ==> ids.contains(#[trigger] order[i]),
    ensures
        ({
            let (c, d) = cut_edges(nodes, ids, order)[e];
            cut_edge(nodes, ids, c, d) && order.contains(d)
        }),
    decreases order.len(),
{
    let front = order.drop_last();
    let done = cut_edges(nodes, ids, front);
    let d = order.last();
    let kids = children_of(nodes, d);
    if e < done.len() {
        lemma_edges_are_cut(nodes, ids, front, e);
        let x = done[e].1;
        let i = front.index_of(x);
        assert(order[i] == x);
    } else {
        let part = edges_to(kids, ids, d);
        let q = part[e - done.len()];
        assert(cut_edges(nodes, ids, order)[e] == q);
        lemma_edge_target(kids, ids, d, e - done.len());
        assert(part.contains((q.0, d)));
        lemma_edges_among(kids, ids, d, q.0);
        assert(order[order.len() - 1] == d);
    }
}

/// The edges that the beginning of a walk finds are the first of all.
proof fn lemma_walk_prefix(nodes: Nodes, ids: Set<Seq<char>>, order: Seq<Seq<char>>, n: int)
    requires
        0 <= n <= order.len(),
    ensures
        cut_edges(nodes, ids, order.take(n)).is_prefix_of(cut_edges(nodes, ids, order)),
    decreases order.len(),
{
    let all = cut_edges(nodes, ids, order);
    if n == order.len() {
        assert(order.take(n) =~= order);
        assert(all =~= all.subrange(0, all.len() as int));
    } else {
        let front = order.drop_last();
        lemma_walk_prefix(nodes, ids, front, n);
        assert(front.take(n) =~= order.take(n));
        let e = cut_edges(nodes, ids, order.take(n));
        assert(e =~= all.subrange(0, e.len() as int));
    }
}

proof fn lemma_hanging_prefix(
    nodes: Nodes,
    ids: Set<Seq<char>>,
    edges: Seq<(Seq<char>, Seq<char>)>,
    k: Seq<char>,
    list: Seq<Seq<char>>,
    n: int,
)
    requires
        0 <= n <= edges.len(),
    ensures
        after_hanging(nodes, ids, edges.take(n), k, list).is_prefix_of(
            after_hanging(nodes, ids, edges, k, list),
        ),
    decreases edges.len(),
{
    let all = after_hanging(nodes, ids, edges, k, list);
    if n == edges.len() {
        assert(edges.take(n) =~= edges);
        assert(all =~= all.subrange(0, all.len() as int));
    } else {
        let front = edges.drop_last();
        lemma_hanging_prefix(nodes, ids, front, k, list, n);
        assert(front.take(n) =~= edges.take(n));
        let l = after_hanging(nodes, ids, edges.take(n), k, list);
        assert(l =~= all.subrange(0, l.len() as int));
    }
}

proof fn lemma_hung(
    nodes: Nodes,
    ids: Set<Seq<char>>,
    edges: Seq<(Seq<char>, Seq<char>)>,
    k: Seq<char>,
    list: Seq<Seq<char>>,
    c: Seq<char>,
    d: Seq<char>,
)
    requires
        edges.contains((c, d)),
        survivor(nodes, ids, d) == Some(k),
    ensures
        after_hanging(nodes, ids, edges, k, list).contains(c),
    decreases edges.len(),
{
    let front = edges.drop_last();
    let l = after_hanging(nodes, ids, front, k, list);
    lemma_including(l, edges.last().0);
    if edges.last() != (c, d) {
        let i = edges.index_of((c, d));
        assert(front[i] == (c, d));
        lemma_hung(nodes, ids, front, k, list, c, d);
    }
}

proof fn lemma_not_hung(
    nodes: Nodes,
    ids: Set<Seq<char>>,
    edges: Seq<(Seq<char>, Seq<char>)>,
    k: Seq<char>,
    list: Seq<Seq<char>>,
    c: Seq<char>,
)
    requires
        !list.contains(c),
        forall|e: int|
            0 <= e < edges.len() && survivor(nodes, ids, (#[trigger] edges[e]).1) == Some(k)
                ==> edges[e].0 != c,
    ensures
        !after_hanging(nodes, ids, edges, k, list).contains(c),
    decreases edges.len(),
{
    if edges.len() > 0 {
        let front = edges.drop_last();
        assert forall|e: int|
            0 <= e < front.len() && survivor(nodes, ids, (#[trigger] front[e]).1) == Some(
                k,
            ) implies front[e].0 != c by {
            assert(front[e] == edges[e]);
        }
        lemma_not_hung(nodes, ids, front, k, list, c);
        assert(edges[edges.len() - 1] == edges.last());
        lemma_including(after_hanging(nodes, ids, front, k, list), edges.last().0);
    }
}

} // verus!
