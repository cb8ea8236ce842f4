//! Finding snapshots: by lineage and by identifier prefix.

use crate::index::{parent_of, IndexView, Nodes, SnapshotIndex};
use crate::prune::up;
use crate::snapshot::SnapshotMeta;
use crate::text::{decimal, push_decimal, starts_with};
use vstd::prelude::*;

verus! {

/// Why an ancestor could not be reached.
#[derive(Debug, PartialEq, Eq)]
pub enum AncestorError {
    InvalidAncestors,
    NoHead,
    BrokenChain { depth: usize },
    NotFound { at_id: String },
}

/// What an ancestor error says.
pub enum AncestorFault {
    InvalidAncestors,
    NoHead,
    BrokenChain { depth: nat },
    NotFound { at_id: Seq<char> },
}

impl View for AncestorError {
    type V = AncestorFault;

    open spec fn view(&self) -> AncestorFault {
        match self {
            AncestorError::InvalidAncestors => AncestorFault::InvalidAncestors,
            AncestorError::NoHead => AncestorFault::NoHead,
            AncestorError::BrokenChain { depth } => AncestorFault::BrokenChain {
                depth: *depth as nat,
            },
            AncestorError::NotFound { at_id } => AncestorFault::NotFound { at_id: at_id@ },
        }
    }
}

impl AncestorFault {
    /// The message shown for the error.
    pub open spec fn text(self) -> Seq<char> {
        match self {
            AncestorFault::InvalidAncestors => "num-ancestors must be >= 1"@,
            AncestorFault::NoHead =>
                "no head set \u{2014} no lineage available, use --snapshot instead"@,
            AncestorFault::BrokenChain { depth } => "lineage chain broken at depth "@ + decimal(
                depth,
            ) + " (parent_id is None)"@,
            AncestorFault::NotFound { at_id } => "parent snapshot '"@ + at_id
                + "' not found in index"@,
        }
    }
}

impl AncestorError {
    /// The message shown for the error.
    pub fn to_text(&self) -> (r: String)
        ensures
            r@ == self@.text(),
    {
        match self {
            AncestorError::InvalidAncestors => "num-ancestors must be >= 1".to_owned(),
            AncestorError::NoHead => {
                "no head set \u{2014} no lineage available, use --snapshot instead".to_owned()
            },
            AncestorError::BrokenChain { depth } => {
                let mut m = "lineage chain broken at depth ".to_owned();
                push_decimal(&mut m, *depth as u64);
                m.append(" (parent_id is None)");
                m
            },
            AncestorError::NotFound { at_id } => {
                let mut m = "parent snapshot '".to_owned();
                m.append(at_id.as_str());
                m.append("' not found in index");
                m
            },
        }
    }
}

/// Climbing `steps` parents from `id`, which stands at `depth`: every snapshot on the way, the
/// last included, is in the index, and every one but the last has a parent.
pub open spec fn climb(nodes: Nodes, id: Seq<char>, steps: nat, depth: nat) -> Result<
    Seq<char>,
    AncestorFault,
>
    decreases steps,
{
    if !nodes.contains_key(id) {
        Err(AncestorFault::NotFound { at_id: id })
    } else if steps == 0 {
        Ok(id)
    } else {
        match nodes[id].parent_id {
            None => Err(AncestorFault::BrokenChain { depth }),
            Some(p) => climb(nodes, p, (steps - 1) as nat, depth + 1),
        }
    }
}

impl IndexView {
    /// The `n`-th snapshot of the lineage: the head itself for 1, its parent for 2, and so on.
    pub open spec fn ancestor(self, n: nat) -> Result<Seq<char>, AncestorFault> {
        if n < 1 {
            Err(AncestorFault::InvalidAncestors)
        } else {
            match self.head {
                None => Err(AncestorFault::NoHead),
                Some(h) => climb(self.nodes, h, (n - 1) as nat, 1),
            }
        }
    }

    /// The identifiers that begin with `prefix`.
    pub open spec fn matching(self, prefix: Seq<char>) -> Set<Seq<char>> {
        self.nodes.dom().filter(|k: Seq<char>| prefix.is_prefix_of(k))
    }

    /// The snapshot that `prefix` stands for: the one of that very name, or else the only one
    /// whose name begins with it.
    pub open spec fn resolved(self, prefix: Seq<char>) -> Result<Seq<char>, ResolveError> {
        if self.nodes.contains_key(prefix) {
            Ok(prefix)
        } else if self.matching(prefix).len() == 0 {
            Err(ResolveError::NotFound)
        } else if self.matching(prefix).len() == 1 {
            Ok(self.matching(prefix).choose())
        } else {
            Err(ResolveError::Ambiguous(self.matching(prefix).len() as usize))
        }
    }
}

/// Why a snapshot prefix stands for no snapshot.
#[derive(Clone, Copy, Debug, PartialEq, Eq)]
pub enum ResolveError {
    NotFound,
    /// The number of snapshots that match.
    Ambiguous(usize),
}

impl SnapshotIndex {
    /// Climbs the lineage from the head: 1 is the head itself, 2 its parent, and so on.
    pub fn ancestor(&self, n: usize) -> (r: Result<(&String, &SnapshotMeta), AncestorError>)
        ensures
            match r {
                Ok(e) => self@.ancestor(n as nat) == Ok::<Seq<char>, AncestorFault>(e.0@)
                    && self@.nodes.contains_key(e.0@) && self@.nodes[e.0@] == e.1@,
                Err(e) => self@.ancestor(n as nat) == Err::<Seq<char>, AncestorFault>(e@),
            },
    {
        if n < 1 {
            return Err(AncestorError::InvalidAncestors);
        }
        let head_id = match &self.head {
            Some(h) => h,
            None => {
                return Err(AncestorError::NoHead);
            },
        };
        let mut current_id = head_id;
        let mut depth: usize = 1;
        while depth < n
            invariant
                1 <= depth <= n,
                self@.ancestor(n as nat) == climb(
                    self@.nodes,
                    current_id@,
                    (n - depth) as nat,
                    depth as nat,
                ),
            decreases n - depth,
        {
            match self.snapshots.get(current_id.as_str()) {
                None => {
                    return Err(AncestorError::NotFound { at_id: current_id.clone() });
                },
                Some(meta) => {
                    match &meta.parent_id {
                        None => {
                            return Err(AncestorError::BrokenChain { depth });
                        },
                        Some(p) => {
                            current_id = p;
                        },
                    }
                },
            }
            depth = depth + 1;
        }
        match self.snapshots.get(current_id.as_str()) {
            None => Err(AncestorError::NotFound { at_id: current_id.clone() }),
            Some(meta) => Ok((current_id, meta)),
        }
    }

    /// Resolves a snapshot by exact identifier or unique prefix.
    pub fn resolve_by_prefix(&self, prefix: &str) -> (r: Result<
        (&String, &SnapshotMeta),
        ResolveError,
    >)
        ensures
            match r {
                Ok(e) => self@.resolved(prefix@) == Ok::<Seq<char>, ResolveError>(e.0@)
                    && self@.nodes.contains_key(e.0@) && self@.nodes[e.0@] == e.1@,
                Err(e) => self@.resolved(prefix@) == Err::<Seq<char>, ResolveError>(e),
            },
            self@.matching(prefix@).finite(),
            self@.matching(prefix@).len() <= usize::MAX,
    {
        let total: usize = self.snapshots.len();
        let ghost keys = self.snapshots.ordered_keys();
        let ghost all = self@.matching(prefix@);
        let ghost mut seen: Set<Seq<char>> = Set::empty();
        let mut first: usize = 0;
        let mut count: usize = 0;
        let mut i: usize = 0;
        while i < total
            invariant
                i <= total == keys.len(),
                count <= i,
                keys == self.snapshots.ordered_keys(),
                self.snapshots.keys_cover(),
                all == self@.matching(prefix@),
                seen.finite(),
                seen.len() == count,
                forall|k: Seq<char>| #[trigger]
                    seen.contains(k) <==> keys.take(i as int).contains(k) && prefix@.is_prefix_of(k),
                count > 0 ==> first < total && seen.contains(keys[first as int]),
            decreases total - i,
        {
            let id = self.snapshots.entry(i).0;
            let ghost before = seen;
            proof {
                assert(keys.take(i + 1) =~= keys.take(i as int).push(id@));
                assert forall|d: Seq<char>| #[trigger] keys.take(i + 1).contains(d) == (keys.take(
                    i as int,
                ).contains(d) || d == id@) by {
                    if keys.take(i as int).contains(d) {
                        let j = keys.take(i as int).index_of(d);
                        assert(keys.take(i + 1)[j] == d);
                    }
                    assert(keys.take(i + 1)[i as int] == id@);
                }
                assert(!keys.take(i as int).contains(id@)) by {
                    if keys.take(i as int).contains(id@) {
                        let j = keys.take(i as int).index_of(id@);
                        assert(keys[j] == keys[i as int]);
                    }
                }
            }
            if starts_with(id.as_str(), prefix) {
                proof {
                    seen = seen.insert(id@);
                }
                if count == 0 {
                    first = i;
                }
                count = count + 1;
            }
            i = i + 1;
        }
        proof {
            assert(keys.take(keys.len() as int) =~= keys);
            assert forall|k: Seq<char>| seen.contains(k) == all.contains(k) by {
                assert(keys.to_set().contains(k) == self@.nodes.contains_key(k));
            }
            assert(seen =~= all);
        }
        if let Some(e) = self.snapshots.get_key_value(prefix) {
            return Ok(e);
        }
        if count == 0 {
            return Err(ResolveError::NotFound);
        }
        if count == 1 {
            proof {
                let k = keys[first as int];
                assert(all.contains(k));
                let c = all.choose();
                assert(all.contains(c));
                if c != k {
                    assert(all.remove(k).contains(c));
                    assert(all.remove(k).len() == 0);
                }
            }
            return Ok(self.snapshots.entry(first));
        }
        Err(ResolveError::Ambiguous(count))
    }
}

/// An identifier that is in the index stands for itself, however many longer ones begin
/// with it.
pub proof fn lemma_exact_identifier_wins(v: IndexView, id: Seq<char>)
    requires
        v.nodes.contains_key(id),
    ensures
        v.resolved(id) == Ok::<Seq<char>, ResolveError>(id),
{
}

/// Whatever a prefix stands for is in the index and begins with the prefix.
pub proof fn lemma_resolved_matches(v: IndexView, prefix: Seq<char>)
    requires
        v.nodes.dom().finite(),
        v.resolved(prefix) is Ok,
    ensures
        v.nodes.contains_key(v.resolved(prefix)->Ok_0),
        prefix.is_prefix_of(v.resolved(prefix)->Ok_0),
{
    if !v.nodes.contains_key(prefix) {
        let m = v.matching(prefix);
        assert(m.finite());
        assert(m.contains(m.choose())) by {
            if m =~= Set::empty() {
            }
        }
    } else {
        assert(prefix.subrange(0, prefix.len() as int) =~= prefix);
    }
}

/// An ancestor that can be reached is found by following parents from the head.
pub proof fn lemma_ancestor_is_up(v: IndexView, n: nat)
    requires
        v.ancestor(n) is Ok,
    ensures
        v.head is Some,
        up(v.nodes, v.head->0, (n - 1) as nat) == Some(v.ancestor(n)->Ok_0),
        v.nodes.contains_key(v.ancestor(n)->Ok_0),
{
    lemma_climb_is_up(v.nodes, v.head->0, (n - 1) as nat, 1);
}

proof fn lemma_climb_is_up(nodes: Nodes, id: Seq<char>, steps: nat, depth: nat)
    requires
        climb(nodes, id, steps, depth) is Ok,
    ensures
        up(nodes, id, steps) == Some(climb(nodes, id, steps, depth)->Ok_0),
        nodes.contains_key(climb(nodes, id, steps, depth)->Ok_0),
    decreases steps,
{
    if steps > 0 {
        let p = nodes[id].parent_id->0;
        lemma_climb_is_up(nodes, p, (steps - 1) as nat, depth + 1);
        lemma_up_from_parent(nodes, id, p, (steps - 1) as nat);
    }
}

/// Climbing from the parent is climbing one step further from the child.
pub proof fn lemma_up_from_parent(nodes: Nodes, id: Seq<char>, p: Seq<char>, n: nat)
    requires
        parent_of(nodes, id) == Some(p),
    ensures
        up(nodes, id, n + 1) == up(nodes, p, n),
    decreases n,
{
    if n == 0 {
        assert(up(nodes, id, 0) == Some(id));
        assert(up(nodes, id, 1) == parent_of(nodes, id));
    } else {
        lemma_up_from_parent(nodes, id, p, (n - 1) as nat);
    }
}

/// Where the `n`-th ancestor can be reached, so can every nearer one, and the next one is the
/// parent of the one before.
pub proof fn lemma_ancestors_are_consecutive(v: IndexView, n: nat)
    requires
        n >= 1,
        v.ancestor(n + 1) is Ok,
    ensures
        v.ancestor(n) is Ok,
        v.nodes[v.ancestor(n)->Ok_0].parent_id == Some(v.ancestor(n + 1)->Ok_0),
{
    lemma_climb_step(v.nodes, v.head->0, (n - 1) as nat, 1);
}

proof fn lemma_climb_step(nodes: Nodes, id: Seq<char>, steps: nat, depth: nat)
    requires
        climb(nodes, id, steps + 1, depth) is Ok,
    ensures
        climb(nodes, id, steps, depth) is Ok,
        nodes[climb(nodes, id, steps, depth)->Ok_0].parent_id == Some(
            climb(nodes, id, steps + 1, depth)->Ok_0,
        ),
    decreases steps,
{
    let p = nodes[id].parent_id->0;
    if steps == 0 {
        assert(climb(nodes, p, 0, depth + 1) is Ok);
    } else {
        lemma_climb_step(nodes, p, (steps - 1) as nat, depth + 1);
    }
}

/// From a snapshot that was reached, one step further reaches its parent, if it has one that is
/// in the index.
pub(crate) proof fn lemma_climb_next(nodes: Nodes, id: Seq<char>, steps: nat, depth: nat)
    requires
        climb(nodes, id, steps, depth) is Ok,
    ensures
        ({
            let at = climb(nodes, id, steps, depth)->Ok_0;
            let next = climb(nodes, id, steps + 1, depth);
            match nodes[at].parent_id {
                None => next == Err::<Seq<char>, AncestorFault>(
                    AncestorFault::BrokenChain { depth: depth + steps },
                ),
                Some(p) => if nodes.contains_key(p) {
                    next == Ok::<Seq<char>, AncestorFault>(p)
                } else {
                    next == Err::<Seq<char>, AncestorFault>(AncestorFault::NotFound { at_id: p })
                },
            }
        }),
    decreases steps,
{
    reveal_with_fuel(climb, 3);
    if steps > 0 {
        lemma_climb_next(nodes, nodes[id].parent_id->0, (steps - 1) as nat, depth + 1);
    }
}

} // verus!
