use ws_ckpt::ids::LIVE_CHILD;
use ws_ckpt::index::{SnapshotIndex, StringSet};
use ws_ckpt::lookup::{AncestorError, ResolveError};
use ws_ckpt::snapshot::{Duplicate, SnapshotMeta, Timestamp};
use ws_ckpt::string_map::StringMap;

fn now() -> Timestamp {
    let t = chrono::Utc::now();
    Timestamp::new(t.timestamp(), t.timestamp_subsec_nanos()).unwrap()
}

fn meta(parent: Option<&str>, children: Vec<&str>) -> SnapshotMeta {
    SnapshotMeta {
        message: None,
        metadata: None,
        pinned: false,
        created_at: now(),
        missing: false,
        parent_id: parent.map(|s| s.to_string()),
        child_ids: children.into_iter().map(|s| s.to_string()).collect(),
    }
}

fn set(ids: &[&str]) -> StringSet {
    let mut s = StringSet::new();
    for id in ids {
        s.insert(id.to_string(), ());
    }
    s
}

fn parent<'a>(idx: &'a SnapshotIndex, id: &str) -> Option<&'a str> {
    idx.snapshots.get(id).unwrap().parent_id.as_deref()
}

fn children(idx: &SnapshotIndex, id: &str) -> Vec<String> {
    idx.snapshots.get(id).unwrap().child_ids.clone()
}

#[test]
fn snapshot_index_new_is_empty() {
    let idx = SnapshotIndex::new("/tmp/ws".to_string());
    assert_eq!(idx.workspace_path, "/tmp/ws");
    assert!(idx.snapshots.is_empty());
    assert!(idx.head.is_none());
    assert!(idx.governed_evidence.is_empty());
    assert!(idx.guarded_rollbacks.is_empty());
}

#[test]
fn snapshot_index_resolve_by_prefix_exact_match() {
    let mut idx = SnapshotIndex::new("/ws".to_string());
    let mut m = meta(None, vec![]);
    m.pinned = true;
    idx.snapshots.insert("abcdef1234567890abcdef1234567890abcdef12".to_string(), m);
    let result = idx.resolve_by_prefix("abcdef1234567890abcdef1234567890abcdef12");
    assert!(result.is_ok());
    let (id, _) = result.unwrap();
    assert_eq!(id, "abcdef1234567890abcdef1234567890abcdef12");
}

#[test]
fn snapshot_index_resolve_by_prefix_unique_prefix() {
    let mut idx = SnapshotIndex::new("/ws".to_string());
    idx.snapshots
        .insert("abcdef1234567890abcdef1234567890abcdef12".to_string(), meta(None, vec![]));
    let result = idx.resolve_by_prefix("abcdef");
    assert!(result.is_ok());
}

#[test]
fn snapshot_index_resolve_by_prefix_not_found() {
    let idx = SnapshotIndex::new("/ws".to_string());
    let result = idx.resolve_by_prefix("nonexistent");
    assert_eq!(result.unwrap_err(), ResolveError::NotFound);
}

#[test]
fn snapshot_index_resolve_by_prefix_ambiguous() {
    let mut idx = SnapshotIndex::new("/ws".to_string());
    idx.snapshots
        .insert("abcdef1111111111111111111111111111111111".to_string(), meta(None, vec![]));
    idx.snapshots
        .insert("abcdef2222222222222222222222222222222222".to_string(), meta(None, vec![]));
    let result = idx.resolve_by_prefix("abcdef");
    assert_eq!(result.unwrap_err(), ResolveError::Ambiguous(2));
}

#[test]
fn exact_identifier_wins_over_longer_ones() {
    let mut idx = SnapshotIndex::new("/ws".to_string());
    for id in ["snap", "snap-1", "snap-2"] {
        idx.snapshots.insert(id.to_string(), meta(None, vec![]));
    }
    assert_eq!(idx.resolve_by_prefix("snap").unwrap().0, "snap");
    assert_eq!(idx.resolve_by_prefix("snap-").unwrap_err(), ResolveError::Ambiguous(2));
    assert_eq!(idx.resolve_by_prefix("").unwrap_err(), ResolveError::Ambiguous(3));
}

fn make_chain_index() -> SnapshotIndex {
    let mut idx = SnapshotIndex::new("/ws".to_string());
    idx.snapshots.insert("snap-a".to_string(), meta(None, vec![]));
    idx.snapshots.insert("snap-b".to_string(), meta(Some("snap-a"), vec![]));
    idx.snapshots.insert("snap-c".to_string(), meta(Some("snap-b"), vec![]));
    idx.head = Some("snap-c".to_string());
    idx
}

#[test]
fn ancestor_zero_returns_error() {
    let idx = make_chain_index();
    assert_eq!(idx.ancestor(0).unwrap_err(), AncestorError::InvalidAncestors);
}

#[test]
fn ancestor_one_returns_head() {
    let idx = make_chain_index();
    let (id, _) = idx.ancestor(1).unwrap();
    assert_eq!(id, "snap-c");
}

#[test]
fn ancestor_two_returns_parent() {
    let idx = make_chain_index();
    let (id, _) = idx.ancestor(2).unwrap();
    assert_eq!(id, "snap-b");
}

#[test]
fn ancestor_three_returns_grandparent() {
    let idx = make_chain_index();
    let (id, _) = idx.ancestor(3).unwrap();
    assert_eq!(id, "snap-a");
}

#[test]
fn ancestor_exceeds_chain_returns_broken_chain() {
    let idx = make_chain_index();
    let err = idx.ancestor(4).unwrap_err();
    assert_eq!(err, AncestorError::BrokenChain { depth: 3 });
}

#[test]
fn ancestor_no_head_returns_error() {
    let idx = SnapshotIndex::new("/ws".to_string());
    assert_eq!(idx.ancestor(1).unwrap_err(), AncestorError::NoHead);
}

#[test]
fn ancestor_broken_chain_mid_traversal() {
    let mut idx = SnapshotIndex::new("/ws".to_string());
    idx.snapshots.insert("orphan".to_string(), meta(None, vec![]));
    idx.snapshots.insert("child".to_string(), meta(Some("orphan"), vec![]));
    idx.head = Some("child".to_string());
    let err = idx.ancestor(3).unwrap_err();
    assert_eq!(err, AncestorError::BrokenChain { depth: 2 });
}

#[test]
fn ancestor_missing_from_the_index_is_named() {
    let mut idx = SnapshotIndex::new("/ws".to_string());
    idx.snapshots.insert("child".to_string(), meta(Some("gone"), vec![]));
    idx.head = Some("child".to_string());
    let err = idx.ancestor(2).unwrap_err();
    assert_eq!(err, AncestorError::NotFound { at_id: "gone".to_string() });
    assert_eq!(err.to_text(), "parent snapshot 'gone' not found in index");
    assert_eq!(
        AncestorError::BrokenChain { depth: 3 }.to_text(),
        "lineage chain broken at depth 3 (parent_id is None)"
    );
    assert_eq!(AncestorError::InvalidAncestors.to_text(), "num-ancestors must be >= 1");
    assert_eq!(
        AncestorError::NoHead.to_text(),
        "no head set \u{2014} no lineage available, use --snapshot instead"
    );
}

#[test]
fn unlink_node_reparents_children() {
    // A<-B<-C(head+live), delete B: C.parent=A, A.child_ids=[C], head unchanged
    let mut idx = SnapshotIndex::new("/ws".to_string());
    idx.snapshots.insert("a".into(), meta(None, vec!["b"]));
    idx.snapshots.insert("b".into(), meta(Some("a"), vec!["c"]));
    idx.snapshots.insert("c".into(), meta(Some("b"), vec![LIVE_CHILD]));
    idx.head = Some("c".into());

    idx.unlink_node("b");

    assert_eq!(parent(&idx, "c"), Some("a"));
    assert_eq!(children(&idx, "a"), vec!["c"]);
    assert_eq!(idx.head.as_deref(), Some("c"));
}

#[test]
fn unlink_node_updates_head_and_migrates_live() {
    // A<-B<-C(head+live), delete C: head=B, B gets the live marker
    let mut idx = SnapshotIndex::new("/ws".to_string());
    idx.snapshots.insert("a".into(), meta(None, vec!["b"]));
    idx.snapshots.insert("b".into(), meta(Some("a"), vec!["c"]));
    idx.snapshots.insert("c".into(), meta(Some("b"), vec![LIVE_CHILD]));
    idx.head = Some("c".into());

    idx.unlink_node("c");

    assert_eq!(idx.head.as_deref(), Some("b"));
    assert!(children(&idx, "b").contains(&LIVE_CHILD.to_string()));
}

#[test]
fn unlink_node_branching() {
    // A<-B, A<-C, delete A: B.parent=None, C.parent=None
    let mut idx = SnapshotIndex::new("/ws".to_string());
    idx.snapshots.insert("a".into(), meta(None, vec!["b", "c"]));
    idx.snapshots.insert("b".into(), meta(Some("a"), vec![]));
    idx.snapshots.insert("c".into(), meta(Some("a"), vec![]));
    idx.head = Some("b".into());

    idx.unlink_node("a");

    assert_eq!(parent(&idx, "b"), None);
    assert_eq!(parent(&idx, "c"), None);
}

#[test]
fn unlink_node_root() {
    // A(root)<-B(head+live), delete A: B.parent=None, head unchanged
    let mut idx = SnapshotIndex::new("/ws".to_string());
    idx.snapshots.insert("a".into(), meta(None, vec!["b"]));
    idx.snapshots.insert("b".into(), meta(Some("a"), vec![LIVE_CHILD]));
    idx.head = Some("b".into());

    idx.unlink_node("a");

    assert_eq!(parent(&idx, "b"), None);
    assert_eq!(idx.head.as_deref(), Some("b"));
}

#[test]
fn unlinking_an_unknown_node_changes_nothing() {
    let mut idx = make_chain_index();
    let before = idx.duplicate();
    idx.unlink_node("zzz");
    for id in ["snap-a", "snap-b", "snap-c"] {
        assert_eq!(idx.snapshots.get(id), before.snapshots.get(id));
    }
    assert_eq!(idx.head, before.head);
}

#[test]
fn prune_chain_tail() {
    // A<-B<-C<-D<-E(head+live), delete {A,B}: C.parent=None, head unchanged
    let mut idx = SnapshotIndex::new("/ws".to_string());
    idx.snapshots.insert("a".into(), meta(None, vec!["b"]));
    idx.snapshots.insert("b".into(), meta(Some("a"), vec!["c"]));
    idx.snapshots.insert("c".into(), meta(Some("b"), vec!["d"]));
    idx.snapshots.insert("d".into(), meta(Some("c"), vec!["e"]));
    idx.snapshots.insert("e".into(), meta(Some("d"), vec![LIVE_CHILD]));
    idx.head = Some("e".into());

    idx.prune_chain(&set(&["a", "b"]));

    assert_eq!(parent(&idx, "c"), None);
    assert_eq!(idx.head.as_deref(), Some("e"));
}

#[test]
fn prune_chain_includes_head() {
    // A<-B<-C(head+live), delete {B,C}: head=A, A gets the live marker
    let mut idx = SnapshotIndex::new("/ws".to_string());
    idx.snapshots.insert("a".into(), meta(None, vec!["b"]));
    idx.snapshots.insert("b".into(), meta(Some("a"), vec!["c"]));
    idx.snapshots.insert("c".into(), meta(Some("b"), vec![LIVE_CHILD]));
    idx.head = Some("c".into());

    idx.prune_chain(&set(&["b", "c"]));

    assert_eq!(idx.head.as_deref(), Some("a"));
    let a_children = children(&idx, "a");
    assert!(a_children.contains(&LIVE_CHILD.to_string()));
    assert!(!a_children.contains(&"b".to_string()));
    assert_eq!(a_children.len(), 1);
}

#[test]
fn prune_chain_skip_middle() {
    // A<-B<-C<-D(head+live), delete {B,C}: D.parent=A, A.child_ids=[D]
    let mut idx = SnapshotIndex::new("/ws".to_string());
    idx.snapshots.insert("a".into(), meta(None, vec!["b"]));
    idx.snapshots.insert("b".into(), meta(Some("a"), vec!["c"]));
    idx.snapshots.insert("c".into(), meta(Some("b"), vec!["d"]));
    idx.snapshots.insert("d".into(), meta(Some("c"), vec![LIVE_CHILD]));
    idx.head = Some("d".into());

    let ids = set(&["b", "c"]);
    idx.prune_chain(&ids);

    assert_eq!(parent(&idx, "d"), Some("a"));
    assert!(children(&idx, "a").contains(&"d".to_string()));
    assert!(!children(&idx, "a").iter().any(|c| ids.contains_key(c)));
}

#[test]
fn prune_chain_creates_forest() {
    // a<-b<-c<-d -> {e<-f, g<-h<-i, j<-k -> {l, m(head+live)<-n}}
    // delete {a,b,c,d,e,g,j}: f,h,k have no parent (3 trees)
    let mut idx = SnapshotIndex::new("/ws".to_string());
    idx.snapshots.insert("a".into(), meta(None, vec!["b"]));
    idx.snapshots.insert("b".into(), meta(Some("a"), vec!["c"]));
    idx.snapshots.insert("c".into(), meta(Some("b"), vec!["d"]));
    idx.snapshots.insert("d".into(), meta(Some("c"), vec!["e", "g", "j"]));
    idx.snapshots.insert("e".into(), meta(Some("d"), vec!["f"]));
    idx.snapshots.insert("f".into(), meta(Some("e"), vec![]));
    idx.snapshots.insert("g".into(), meta(Some("d"), vec!["h"]));
    idx.snapshots.insert("h".into(), meta(Some("g"), vec!["i"]));
    idx.snapshots.insert("i".into(), meta(Some("h"), vec![]));
    idx.snapshots.insert("j".into(), meta(Some("d"), vec!["k"]));
    idx.snapshots.insert("k".into(), meta(Some("j"), vec!["l", "m"]));
    idx.snapshots.insert("l".into(), meta(Some("k"), vec![]));
    idx.snapshots.insert("m".into(), meta(Some("k"), vec![LIVE_CHILD, "n"]));
    idx.snapshots.insert("n".into(), meta(Some("m"), vec![]));
    idx.head = Some("m".into());

    idx.prune_chain(&set(&["a", "b", "c", "d", "e", "g", "j"]));

    assert_eq!(parent(&idx, "f"), None);
    assert_eq!(parent(&idx, "h"), None);
    assert_eq!(parent(&idx, "k"), None);
    assert_eq!(parent(&idx, "i"), Some("h"));
    assert_eq!(parent(&idx, "l"), Some("k"));
    assert_eq!(parent(&idx, "m"), Some("k"));
    assert_eq!(parent(&idx, "n"), Some("m"));
    assert_eq!(idx.head.as_deref(), Some("m"));
}

fn make_wide_index() -> SnapshotIndex {
    let mut idx = SnapshotIndex::new("/ws".to_string());
    idx.snapshots.insert("root".to_string(), meta(None, vec!["z", "mid", "a"]));
    idx.snapshots.insert("mid".to_string(), meta(Some("root"), vec!["y", "b", LIVE_CHILD, "x"]));
    for leaf in ["z", "a"] {
        idx.snapshots.insert(leaf.to_string(), meta(Some("root"), vec![]));
    }
    for leaf in ["y", "b", "x"] {
        idx.snapshots.insert(leaf.to_string(), meta(Some("mid"), vec![]));
    }
    idx.head = Some("mid".to_string());
    idx
}

#[test]
fn pruning_one_snapshot_is_unlinking_it() {
    for id in ["root", "mid", "y", "unknown"] {
        let mut unlinked = make_wide_index();
        let mut pruned = unlinked.duplicate();
        unlinked.unlink_node(id);
        pruned.prune_chain(&set(&[id]));
        assert_eq!(pruned.head, unlinked.head);
        for k in ["root", "mid", "z", "a", "y", "b", "x"] {
            assert_eq!(parent(&pruned, k), parent(&unlinked, k), "{id}: parent of {k}");
            assert_eq!(children(&pruned, k), children(&unlinked, k), "{id}: children of {k}");
        }
    }
    let mut idx = make_wide_index();
    idx.prune_chain(&set(&["mid"]));
    assert_eq!(children(&idx, "root"), ["z", "a", "y", "b", "x", LIVE_CHILD]);
}

#[test]
fn children_of_a_pruned_snapshot_keep_their_order() {
    let mut idx = make_wide_index();
    idx.snapshots.insert("top".to_string(), meta(None, vec!["root"]));
    idx.snapshots.remove("root");
    idx.snapshots.insert("root".to_string(), meta(Some("top"), vec!["z", "mid", "a"]));
    idx.prune_chain(&set(&["root", "mid"]));
    let kids = children(&idx, "top");
    let position = |id: &str| kids.iter().position(|k| k == id).unwrap();
    assert!(position("z") < position("a"));
    assert!(position("y") < position("b") && position("b") < position("x"));
    assert_eq!(kids.len(), 6);
    assert_eq!(kids[5], LIVE_CHILD);
}

#[test]
fn string_map_behaves_like_a_map() {
    let mut m: StringMap<SnapshotMeta> = StringMap::new();
    for id in ["b", "é", "a", "", "ab"] {
        assert!(m.insert(id.to_string(), meta(None, vec![id])).is_none());
    }
    assert_eq!(m.len(), 5);
    let order: Vec<String> = (0..5).map(|i| m.entry(i).0.clone()).collect();
    assert_eq!(order, ["", "a", "ab", "b", "é"]);
    let before = m.insert("a".to_string(), meta(Some("p"), vec![])).unwrap();
    assert_eq!(before.child_ids, ["a"]);
    assert_eq!(m.get("a").unwrap().parent_id.as_deref(), Some("p"));
    assert_eq!(m.get_key_value("ab").unwrap().0, "ab");
    assert!(m.remove("zz").is_none());
    assert!(m.remove("b").is_some());
    assert!(!m.contains_key("b"));
    assert!(m.contains_key("é"));
    let copy = m.duplicate();
    assert_eq!(copy.len(), 4);
    assert_eq!(copy.get("a"), m.get("a"));
    assert!(!m.is_empty());
}
