use ws_ckpt::calendar::{FIRST_SECOND, LAST_SECOND};
use ws_ckpt::config::DaemonConfig;
use ws_ckpt::frame::MAX_FRAME_SIZE;
use ws_ckpt::index::SnapshotIndex;
use ws_ckpt::listing::{
    Key, DEFAULT_LIST_PAGE_LIMIT, LIST_PAGE_TARGET_BYTES, MAX_LIST_CURSOR_BYTES,
    MAX_LIST_PAGE_LIMIT,
};
use ws_ckpt::message::{ErrorCode, Response};
use ws_ckpt::pages::{
    assemble_cursor, cursor_bytes, encode_cursor, metadata_to_send, Cursor, CursorInput,
    KeyLiterals,
};
use ws_ckpt::snapshot::{Duplicate, SnapshotEntry, SnapshotMeta, SnapshotSummary, Timestamp};
use ws_ckpt::state::{DaemonState, PathKind, RegistrationFacts};

const SECS: i64 = 1_700_000_000;
const NANOS: u32 = 123_456_789;

fn at(secs: i64, nanos: u32) -> Timestamp {
    Timestamp::new(secs, nanos).unwrap()
}

fn meta() -> SnapshotMeta {
    SnapshotMeta {
        message: None,
        metadata: None,
        pinned: false,
        created_at: at(SECS, NANOS),
        missing: false,
        parent_id: None,
        child_ids: vec![],
    }
}

fn with_message(message: String) -> SnapshotMeta {
    SnapshotMeta { message: Some(message), ..meta() }
}

fn entries(ids: &[&str]) -> Vec<(String, SnapshotMeta)> {
    ids.iter().map(|id| (id.to_string(), meta())).collect()
}

struct Fixture {
    state: DaemonState,
    live: bool,
}

impl Fixture {
    fn new() -> Self {
        let state = DaemonState::new(
            DaemonConfig::default(),
            "/mount".to_string(),
            "/mount/snapshots".to_string(),
            "/state".to_string(),
        );
        Fixture { state, live: true }
    }

    fn path(&self, ws_id: &str) -> String {
        format!("/root/user-{ws_id}")
    }

    fn add_workspace(&mut self, ws_id: &str, rows: Vec<(String, SnapshotMeta)>) {
        let path = self.path(ws_id);
        let mut index = SnapshotIndex::new(path.clone());
        for (id, m) in rows {
            index.snapshots.insert(id, m);
        }
        self.state.register_workspace(ws_id.to_string(), path, index);
    }

    fn edit(&mut self, change: impl Fn(&mut SnapshotIndex)) {
        let mut index = self.state.get_by_wsid("ws-a").unwrap().index.duplicate();
        change(&mut index);
        self.state.set_index("ws-a", index);
    }

    fn list(&self, scope: Option<&str>, limit: u32, cursor: Option<&str>) -> Response {
        let facts = RegistrationFacts {
            registration_target: if self.live { Some("/mount/x".to_string()) } else { None },
            live_target: Some("/mount/x".to_string()),
            kind: if self.live { PathKind::Symlink } else { PathKind::Absent },
        };
        self.state.list_page(scope, None, &facts, limit, read_cursor(cursor))
    }
}

fn read_key(v: &serde_json::Value) -> Option<Key> {
    let fields = v.as_object()?;
    if fields.len() != 3 {
        return None;
    }
    let text = |name: &str| Some(fields.get(name)?.as_str()?.to_string());
    let time = chrono::DateTime::parse_from_rfc3339(&text("created_at")?).ok()?;
    Some(Key {
        created_at: Timestamp::new(time.timestamp(), time.timestamp_subsec_nanos())?,
        ws_id: text("ws_id")?,
        id: text("id")?,
    })
}

fn parse_cursor(bytes: &[u8]) -> Option<Cursor> {
    let v: serde_json::Value = serde_json::from_slice(bytes).ok()?;
    let fields = v.as_object()?;
    if fields.len() != 4 {
        return None;
    }
    Some(Cursor {
        version: fields.get("version")?.as_u64()? as u32,
        scope: fields.get("scope")?.as_str().map(|s| s.to_string()),
        after: read_key(fields.get("after")?)?,
        upper: read_key(fields.get("upper")?)?,
    })
}

fn read_cursor(cursor: Option<&str>) -> CursorInput {
    match cursor {
        None => CursorInput::Absent,
        Some(text) => match cursor_bytes(text).and_then(|b| parse_cursor(&b)) {
            Some(c) => CursorInput::Parsed(c),
            None => CursorInput::Malformed,
        },
    }
}

fn decoded(cursor: &Option<String>, scope: Option<&str>) -> Cursor {
    match read_cursor(cursor.as_deref()) {
        CursorInput::Parsed(c) => c.accept(scope).unwrap(),
        _ => panic!("expected a cursor"),
    }
}

fn key(k: &Key) -> Key {
    Key { created_at: k.created_at, ws_id: k.ws_id.clone(), id: k.id.clone() }
}

fn copy(c: &Cursor) -> Cursor {
    Cursor { version: c.version, scope: c.scope.clone(), after: key(&c.after), upper: key(&c.upper) }
}

fn value(c: &Cursor) -> serde_json::Value {
    let of_key = |k: &Key| {
        let mut m = serde_json::Map::new();
        m.insert("created_at".to_string(), k.created_at.to_rfc3339().into());
        m.insert("ws_id".to_string(), k.ws_id.clone().into());
        m.insert("id".to_string(), k.id.clone().into());
        serde_json::Value::Object(m)
    };
    let mut m = serde_json::Map::new();
    m.insert("version".to_string(), c.version.into());
    m.insert("scope".to_string(), c.scope.clone().into());
    m.insert("after".to_string(), of_key(&c.after));
    m.insert("upper".to_string(), of_key(&c.upper));
    serde_json::Value::Object(m)
}

fn token(c: &Cursor) -> String {
    hex::encode(serde_json::to_vec(&value(c)).unwrap())
}

fn chrono_time(t: &Timestamp) -> chrono::DateTime<chrono::Utc> {
    chrono::DateTime::from_timestamp(t.secs(), t.nanos()).unwrap()
}

fn entry_size(id: &str, workspace: &str, m: &SnapshotMeta) -> u64 {
    let fields = (
        id,
        workspace,
        &m.message,
        &m.metadata,
        m.pinned,
        chrono_time(&m.created_at),
        m.missing,
        &m.parent_id,
        &m.child_ids,
    );
    bincode::serialized_size(&fields).unwrap()
}

fn payload_size(response: &Response) -> u64 {
    match response {
        Response::ListPageOk { snapshots, next_cursor } => {
            let empty: Vec<String> = vec![];
            let mut n = bincode::serialized_size(&(29u32, empty, next_cursor)).unwrap();
            for s in snapshots {
                n += entry_size(&s.id, &s.workspace, &s.meta);
            }
            n
        }
        Response::ListPageSummaryOk { snapshot, next_cursor } => {
            let fields = (
                30u32,
                &snapshot.id,
                &snapshot.workspace,
                snapshot.meta.pinned,
                chrono_time(&snapshot.meta.created_at),
                snapshot.meta.missing,
                next_cursor,
            );
            bincode::serialized_size(&fields).unwrap()
        }
        Response::Error { message, .. } => {
            bincode::serialized_size(&(4u32, 0u32, message)).unwrap()
        }
        _ => panic!("unexpected response"),
    }
}

fn unpack(response: Response) -> (Vec<SnapshotEntry>, Option<String>) {
    match response {
        Response::ListPageOk { snapshots, next_cursor } => (snapshots, next_cursor),
        _ => panic!("expected a page"),
    }
}

fn unpack_summary(response: Response) -> (SnapshotSummary, Option<String>) {
    assert!(payload_size(&response) <= u64::from(MAX_FRAME_SIZE));
    match response {
        Response::ListPageSummaryOk { snapshot, next_cursor } => (snapshot, next_cursor),
        _ => panic!("expected a summary page"),
    }
}

fn assert_error(response: Response, expected: ErrorCode) {
    match response {
        Response::Error { code, .. } => assert_eq!(code, expected),
        _ => panic!("expected an error"),
    }
}

fn ids(snapshots: &[SnapshotEntry]) -> Vec<&str> {
    snapshots.iter().map(|s| s.id.as_str()).collect()
}

#[test]
fn static_pages_order_ties_by_workspace_then_snapshot_id() {
    let mut fixture = Fixture::new();
    fixture.add_workspace("ws-b", entries(&["same", "a", "z"]));
    fixture.add_workspace("ws-a", entries(&["z", "same", "a"]));
    let mut cursor: Option<String> = None;
    let mut all = Vec::new();
    for _ in 0..3 {
        let (snapshots, next) = unpack(fixture.list(None, 2, cursor.as_deref()));
        assert_eq!(snapshots.len(), 2);
        assert_ne!(next.as_ref(), cursor.as_ref());
        all.extend(snapshots.into_iter().map(|entry| (entry.workspace, entry.id)));
        cursor = next;
    }
    assert!(cursor.is_none());
    let expected: Vec<_> = ["ws-a", "ws-b"]
        .into_iter()
        .flat_map(|ws| ["a", "same", "z"].map(|id| (fixture.path(ws), id.to_string())))
        .collect();
    assert_eq!(all, expected);
}

#[test]
fn cursor_preserves_subsecond_precision_and_alias_scope() {
    let mut fixture = Fixture::new();
    let earlier = SnapshotMeta { created_at: at(SECS, NANOS - 1), ..meta() };
    fixture.add_workspace("ws-a", vec![("z".into(), earlier), ("a".into(), meta())]);
    let (first, cursor) = unpack(fixture.list(Some("ws-a"), 1, None));
    assert_eq!(first[0].id, "z");
    let c = decoded(&cursor, Some("ws-a"));
    assert_eq!(c.after.created_at, first[0].meta.created_at);
    assert_eq!(c.upper.created_at, meta().created_at);
    let path = fixture.path("ws-a");
    let (second, cursor) = unpack(fixture.list(Some(&path), 1, cursor.as_deref()));
    assert_eq!(second[0].id, "a");
    assert!(cursor.is_none());
}

#[test]
fn invalid_limits_empty_scope_and_detached_registration() {
    let mut fixture = Fixture::new();
    for limit in [0, MAX_LIST_PAGE_LIMIT + 1, u32::MAX] {
        assert_error(fixture.list(None, limit, None), ErrorCode::InvalidListRequest);
    }
    let (snapshots, cursor) = unpack(fixture.list(None, MAX_LIST_PAGE_LIMIT, None));
    assert!(snapshots.is_empty());
    assert!(cursor.is_none());
    assert_error(fixture.list(Some("unknown"), 1, None), ErrorCode::WorkspaceNotFound);
    fixture.add_workspace("ws-a", entries(&["a"]));
    fixture.live = false;
    let response = fixture.list(Some("ws-a"), 1, None);
    assert!(matches!(response, Response::Error { message, .. } if message.contains("recover")));
    let (snapshots, cursor) = unpack(fixture.list(None, 1, None));
    assert_eq!(snapshots.len(), 1);
    assert!(cursor.is_none());
}

#[test]
fn malformed_version_range_and_scope_cursors_are_rejected() {
    let mut fixture = Fixture::new();
    fixture.add_workspace("ws-a", entries(&["a", "z"]));
    fixture.add_workspace("ws-b", entries(&["a", "z"]));
    let (_, encoded) = unpack(fixture.list(Some("ws-a"), 1, None));
    let valid = decoded(&encoded, Some("ws-a"));
    let encoded = encoded.unwrap();
    let mut invalid = vec![
        String::new(),
        "z0".to_string(),
        "0".to_string(),
        hex::encode("not JSON"),
        hex::encode("{}"),
        "a".repeat(MAX_LIST_CURSOR_BYTES + 1),
    ];
    let mut changed = copy(&valid);
    changed.version = 2;
    invalid.push(token(&changed));
    changed = copy(&valid);
    changed.after = key(&changed.upper);
    invalid.push(token(&changed));
    changed = copy(&valid);
    std::mem::swap(&mut changed.after, &mut changed.upper);
    invalid.push(token(&changed));
    changed = copy(&valid);
    changed.after.id.clear();
    invalid.push(token(&changed));
    changed = copy(&valid);
    changed.upper.ws_id.clear();
    invalid.push(token(&changed));
    changed = copy(&valid);
    changed.scope = Some("ws-b".to_string());
    invalid.push(token(&changed));
    changed = copy(&valid);
    changed.after.ws_id = "ws-b".to_string();
    invalid.push(token(&changed));
    changed = copy(&valid);
    changed.upper.ws_id = "ws-b".to_string();
    invalid.push(token(&changed));
    let mut extra = value(&valid);
    extra["unexpected"] = true.into();
    invalid.push(hex::encode(serde_json::to_vec(&extra).unwrap()));
    let mut bad_timestamp = value(&valid);
    bad_timestamp["after"]["created_at"] = "invalid".into();
    invalid.push(hex::encode(serde_json::to_vec(&bad_timestamp).unwrap()));
    for encoded in invalid {
        assert_error(
            fixture.list(Some("ws-a"), 1, Some(&encoded)),
            ErrorCode::InvalidListCursor,
        );
    }
    for scope in [None, Some("ws-b")] {
        assert_error(fixture.list(scope, 1, Some(&encoded)), ErrorCode::InvalidListCursor);
    }
    let (_, global) = unpack(fixture.list(None, 1, None));
    assert_error(
        fixture.list(Some("ws-a"), 1, global.as_deref()),
        ErrorCode::InvalidListCursor,
    );
}

#[test]
fn deleted_cursor_and_unread_rows_do_not_break_continuation() {
    let mut fixture = Fixture::new();
    fixture.add_workspace("ws-a", entries(&["a", "b", "c", "d"]));
    let (_, cursor) = unpack(fixture.list(None, 1, None));
    fixture.edit(|index| {
        index.snapshots.remove("a");
        index.snapshots.remove("b");
        index.snapshots.insert("z".to_string(), meta());
        index.snapshots.insert("c".to_string(), with_message("updated".to_string()));
    });
    let (snapshots, cursor) = unpack(fixture.list(None, 10, cursor.as_deref()));
    assert_eq!(ids(&snapshots), ["c", "d"]);
    assert_eq!(snapshots[0].meta.message.as_deref(), Some("updated"));
    assert!(cursor.is_none());
}

#[test]
fn deletion_of_all_remaining_rows_returns_an_empty_terminal_page() {
    let mut fixture = Fixture::new();
    fixture.add_workspace("ws-a", entries(&["a", "z"]));
    let (_, cursor) = unpack(fixture.list(None, 1, None));
    fixture.edit(|index| {
        index.snapshots.remove("a");
        index.snapshots.remove("z");
    });
    let (snapshots, cursor) = unpack(fixture.list(None, 1, cursor.as_deref()));
    assert!(snapshots.is_empty());
    assert!(cursor.is_none());
}

#[test]
fn vanished_selected_batch_refills_without_empty_continuations() {
    let mut fixture = Fixture::new();
    fixture.add_workspace("ws-a", entries(&["a", "b", "c", "d", "e"]));
    let selected = fixture.state.select_candidates(None, None, None, 3);
    assert_eq!(selected.keys.len(), 3);
    assert!(selected.has_more);
    fixture.edit(|index| {
        for id in ["a", "b", "c"] {
            index.snapshots.remove(id);
        }
    });
    let (snapshots, cursor) = unpack(fixture.state.collect_page(None, 2, None, selected));
    assert_eq!(ids(&snapshots), ["d", "e"]);
    assert!(cursor.is_none());
}

#[test]
fn changed_key_is_reread_and_refilled_below_the_frozen_upper() {
    let mut fixture = Fixture::new();
    let upper_meta = SnapshotMeta { created_at: at(SECS + 10, NANOS), ..meta() };
    fixture.add_workspace("ws-a", vec![("a".into(), meta()), ("z".into(), upper_meta)]);
    let selected = fixture.state.select_candidates(None, None, None, 2);
    let upper = selected.upper.unwrap();
    fixture.edit(|index| {
        index.snapshots.remove("z");
    });
    let selected = fixture.state.select_candidates(None, None, Some(&upper), 2);
    assert!(!selected.has_more);
    fixture.edit(|index| {
        let later = SnapshotMeta { created_at: at(SECS + 1, NANOS), ..meta() };
        index.snapshots.insert("a".to_string(), later);
    });
    let (snapshots, cursor) = unpack(fixture.state.collect_page(None, 1, None, selected));
    assert_eq!(snapshots.len(), 1);
    assert_eq!(snapshots[0].meta.created_at, at(SECS + 1, NANOS));
    assert!(cursor.is_none());
}

#[test]
fn vanished_lookahead_is_not_mistaken_for_more_pages() {
    let mut fixture = Fixture::new();
    fixture.add_workspace("ws-a", entries(&["a", "b", "c"]));
    let selected = fixture.state.select_candidates(None, None, None, 2);
    fixture.edit(|index| {
        index.snapshots.remove("b");
        index.snapshots.remove("c");
    });
    let (snapshots, cursor) = unpack(fixture.state.collect_page(None, 1, None, selected));
    assert_eq!(snapshots.len(), 1);
    assert!(cursor.is_none());
}

#[test]
fn target_budget_counts_the_envelope_and_cursor() {
    let mut fixture = Fixture::new();
    let rows = (0..20).map(|id| (format!("{id:02}"), with_message("x".repeat(100_000)))).collect();
    fixture.add_workspace("ws-a", rows);
    let response = fixture.list(None, 20, None);
    let size = payload_size(&response);
    assert!(size <= LIST_PAGE_TARGET_BYTES);
    let (snapshots, cursor) = unpack(response);
    assert_eq!(snapshots.len(), 10);
    assert!(cursor.is_some());
    let first = &snapshots[0];
    assert!(size + entry_size(&first.id, &first.workspace, &first.meta) > LIST_PAGE_TARGET_BYTES);
    let (rest, cursor) = unpack(fixture.list(None, 20, cursor.as_deref()));
    assert_eq!(rest.len(), 10);
    assert!(cursor.is_none());
}

fn set_first_entry_size(fixture: &mut Fixture, size: u64) {
    let selected = fixture.state.select_candidates(None, None, None, 2);
    let cursor = token(&Cursor {
        version: 1,
        scope: None,
        after: key(&selected.keys[0]),
        upper: selected.upper.unwrap(),
    });
    let empty: Vec<String> = vec![];
    let base = bincode::serialized_size(&(29u32, empty, Some(cursor))).unwrap()
        + entry_size("a", &fixture.path("ws-a"), &with_message(String::new()));
    fixture.edit(|index| {
        let m = with_message("x".repeat((size - base) as usize));
        index.snapshots.insert("a".to_string(), m);
    });
}

#[test]
fn exact_target_and_frame_boundaries_include_required_cursor() {
    for budget in [LIST_PAGE_TARGET_BYTES, u64::from(MAX_FRAME_SIZE)] {
        let mut fixture = Fixture::new();
        fixture.add_workspace("ws-a", entries(&["a", "z"]));
        set_first_entry_size(&mut fixture, budget);
        let response = fixture.list(None, 1, None);
        assert_eq!(payload_size(&response), budget);
        let (snapshots, cursor) = unpack(response);
        assert_eq!(snapshots.len(), 1);
        assert!(cursor.is_some());
        let (last, cursor) = unpack(fixture.list(None, 1, cursor.as_deref()));
        assert_eq!(last[0].id, "z");
        assert!(cursor.is_none());
    }
}

#[test]
fn cursor_can_push_a_single_entry_over_the_frame_limit() {
    let mut fixture = Fixture::new();
    fixture.add_workspace("ws-a", entries(&["a", "z"]));
    set_first_entry_size(&mut fixture, u64::from(MAX_FRAME_SIZE) + 1);
    let (summary, cursor) = unpack_summary(fixture.list(None, 1, None));
    assert_eq!(summary.id, "a");
    assert_eq!(decoded(&cursor, None).after.id, "a");
    let (rest, cursor) = unpack(fixture.list(None, 1, cursor.as_deref()));
    assert_eq!(rest[0].id, "z");
    assert!(cursor.is_none());
    fixture.edit(|index| {
        index.snapshots.remove("z");
    });
    let response = fixture.list(None, 1, None);
    assert!(payload_size(&response) <= u64::from(MAX_FRAME_SIZE));
    let (snapshots, cursor) = unpack(response);
    assert_eq!(snapshots.len(), 1);
    assert!(cursor.is_none());
}

#[test]
fn oversized_singletons_use_summaries_only_above_the_frame_limit() {
    for bytes in [2 * LIST_PAGE_TARGET_BYTES, u64::from(MAX_FRAME_SIZE) + 1] {
        let mut fixture = Fixture::new();
        fixture.add_workspace("ws-a", vec![("a".into(), with_message("x".repeat(bytes as usize)))]);
        let response = fixture.list(None, 10, None);
        if bytes > u64::from(MAX_FRAME_SIZE) {
            let (summary, cursor) = unpack_summary(response);
            assert_eq!(summary.id, "a");
            assert!(cursor.is_none());
        } else {
            assert!(payload_size(&response) > LIST_PAGE_TARGET_BYTES);
            assert!(payload_size(&response) <= u64::from(MAX_FRAME_SIZE));
            let (snapshots, cursor) = unpack(response);
            assert_eq!(snapshots.len(), 1);
            assert!(cursor.is_none());
        }
    }
}

#[test]
fn later_unframeable_entry_does_not_lose_the_preceding_page() {
    let mut fixture = Fixture::new();
    let too_large = with_message("x".repeat(MAX_FRAME_SIZE as usize + 1));
    fixture.add_workspace(
        "ws-a",
        vec![("a".into(), meta()), ("b".into(), too_large), ("c".into(), meta())],
    );
    let (snapshots, cursor) = unpack(fixture.list(None, 100, None));
    assert_eq!(ids(&snapshots), ["a"]);
    assert!(cursor.is_some());
    let (summary, next) = unpack_summary(fixture.list(None, 100, cursor.as_deref()));
    assert_eq!(summary.id, "b");
    assert_ne!(next, cursor);
    assert_eq!(decoded(&next, None).after.id, "b");
    let (rest, cursor) = unpack(fixture.list(None, 100, next.as_deref()));
    assert_eq!(ids(&rest), ["c"]);
    assert!(cursor.is_none());
}

#[test]
fn summaries_preserve_identity_flags_and_index_for_every_large_field() {
    let mut fixture = Fixture::new();
    let large = "雪".repeat(MAX_FRAME_SIZE as usize / 3 + 1);
    let flagged = || SnapshotMeta { pinned: true, missing: true, ..meta() };
    let originals = || {
        vec![
            (
                "a-metadata".to_string(),
                SnapshotMeta { metadata: Some(format!("{{\"value\":\"{large}\"}}")), ..flagged() },
            ),
            (
                "b-message".to_string(),
                SnapshotMeta { message: Some(large.clone()), ..flagged() },
            ),
            (
                "c-parent".to_string(),
                SnapshotMeta { parent_id: Some(large.clone()), ..flagged() },
            ),
            (
                "d-children".to_string(),
                SnapshotMeta { child_ids: vec![large.clone()], ..flagged() },
            ),
        ]
    };
    fixture.add_workspace("ws-a", originals());
    let kept = originals();
    for scope in [None, Some("ws-a")] {
        let mut cursor: Option<String> = None;
        for (position, (id, original)) in kept.iter().enumerate() {
            let (summary, next) = unpack_summary(fixture.list(scope, 100, cursor.as_deref()));
            assert_eq!(&summary.id, id);
            assert_eq!(summary.workspace, fixture.path("ws-a"));
            assert_eq!(summary.meta.created_at, original.created_at);
            assert!(summary.meta.pinned);
            assert!(summary.meta.missing);
            assert_eq!(next.is_none(), position == kept.len() - 1);
            if next.is_some() {
                assert_eq!(decoded(&next, scope).after.id, *id);
                assert_ne!(next, cursor);
            }
            cursor = next;
        }
    }
    let ws = fixture.state.get_by_wsid("ws-a").unwrap();
    for (id, original) in &kept {
        assert!(ws.index.snapshots.get(id) == Some(original));
    }
}

#[test]
fn summary_identity_and_cursor_budgets_still_fail_without_skipping() {
    let mut fixture = Fixture::new();
    let huge_id = "z".repeat(MAX_FRAME_SIZE as usize);
    fixture.add_workspace("ws-a", vec![(huge_id, meta())]);
    let response = fixture.list(None, 1, None);
    assert!(payload_size(&response) + 4 < 2048);
    assert_error(response, ErrorCode::ListEntryTooLarge);

    let mut fixture = Fixture::new();
    let huge_cursor_id = "z".repeat(MAX_LIST_CURSOR_BYTES);
    fixture.add_workspace("ws-a", vec![("a".into(), meta()), (huge_cursor_id, meta())]);
    for _ in 0..2 {
        assert_error(fixture.list(None, 1, None), ErrorCode::ListEntryTooLarge);
    }
}

#[test]
fn summary_budget_includes_identity_envelope_and_cursor() {
    for continuation in [false, true] {
        let mut fixture = Fixture::new();
        let mut rows = vec![("a".to_string(), with_message("x".repeat(MAX_FRAME_SIZE as usize)))];
        if continuation {
            rows.push(("z".to_string(), meta()));
        }
        fixture.add_workspace("ws-a", rows);
        let baseline = fixture.list(None, 1, None);
        assert!(matches!(baseline, Response::ListPageSummaryOk { .. }));
        let base = payload_size(&baseline) - fixture.path("ws-a").len() as u64;
        for extra in [0, 1] {
            fixture.edit(|index| {
                index.workspace_path =
                    "x".repeat((u64::from(MAX_FRAME_SIZE) - base + extra) as usize);
            });
            let response = fixture.list(None, 1, None);
            if extra == 0 {
                assert_eq!(payload_size(&response), u64::from(MAX_FRAME_SIZE));
                let (summary, cursor) = unpack_summary(response);
                assert_eq!(summary.id, "a");
                assert_eq!(cursor.is_some(), continuation);
            } else {
                assert_error(response, ErrorCode::ListEntryTooLarge);
            }
        }
    }
}

#[test]
fn metadata_and_flags_are_preserved() {
    let mut fixture = Fixture::new();
    let m = || SnapshotMeta {
        pinned: true,
        missing: true,
        metadata: Some("{\"agent\":\"test\",\"turn\":1}".to_string()),
        parent_id: Some("parent".to_string()),
        child_ids: vec!["child".to_string()],
        ..meta()
    };
    fixture.add_workspace("ws-a", vec![("a".into(), m())]);
    let (snapshots, cursor) = unpack(fixture.list(Some("ws-a"), 1, None));
    assert_eq!(snapshots[0].meta, m());
    assert!(cursor.is_none());
    assert_eq!(metadata_to_send(&Some("null".to_string())), None);
}

#[test]
fn inserts_are_filtered_by_key_bounds_not_insertion_time() {
    let mut fixture = Fixture::new();
    fixture.add_workspace("ws-a", entries(&["a", "z"]));
    let (_, cursor) = unpack(fixture.list(None, 1, None));
    fixture.edit(|index| {
        for id in ["0", "m", "zz"] {
            index.snapshots.insert(id.to_string(), meta());
        }
    });
    let (snapshots, next) = unpack(fixture.list(None, 10, cursor.as_deref()));
    assert_eq!(ids(&snapshots), ["m", "z"]);
    assert!(next.is_none());
    let (snapshots, _) = unpack(fixture.list(None, 10, None));
    assert_eq!(ids(&snapshots), ["0", "a", "m", "z", "zz"]);
}

#[test]
fn first_page_of_one_hundred_thousand_entries_retains_only_bounded_keys() {
    let mut fixture = Fixture::new();
    fixture.add_workspace("ws-a", (0..100_000).map(|id| (format!("{id:06}"), meta())).collect());
    let selected =
        fixture.state.select_candidates(None, None, None, DEFAULT_LIST_PAGE_LIMIT as usize + 1);
    assert_eq!(selected.keys.len(), 101);
    assert_eq!(selected.keys.first().unwrap().id, "000000");
    assert_eq!(selected.keys.last().unwrap().id, "000100");
    assert_eq!(selected.upper.as_ref().unwrap().id, "099999");
    assert!(selected.has_more);
    let response = fixture.state.collect_page(None, 100, None, selected);
    assert!(payload_size(&response) <= LIST_PAGE_TARGET_BYTES);
    let (snapshots, cursor) = unpack(response);
    assert_eq!(snapshots.len(), 100);
    assert_eq!(snapshots[0].id, "000000");
    assert_eq!(snapshots[99].id, "000099");
    let c = decoded(&cursor, None);
    assert_eq!(c.after.id, "000099");
    assert_eq!(c.upper.id, "099999");
}

#[test]
fn pages_of_a_traversal_list_every_snapshot_once() {
    let mut fixture = Fixture::new();
    for (ws, n) in [("ws-a", 7), ("ws-b", 4)] {
        let rows = (0..n)
            .map(|i| {
                let m = SnapshotMeta { created_at: at(SECS + (i * 5) % 7, 0), ..meta() };
                (format!("s{i}"), m)
            })
            .collect();
        fixture.add_workspace(ws, rows);
    }
    let mut listings = Vec::new();
    for limit in [1, 3, 11, 1000] {
        let mut cursor: Option<String> = None;
        let mut seen = Vec::new();
        loop {
            let (page, next) = unpack(fixture.list(None, limit, cursor.as_deref()));
            assert!(!page.is_empty());
            for s in &page {
                seen.push((s.meta.created_at, s.workspace.clone(), s.id.clone()));
            }
            if next.is_none() {
                break;
            }
            cursor = next;
        }
        assert_eq!(seen.len(), 11);
        let mut sorted = seen.clone();
        sorted.sort();
        sorted.dedup();
        assert_eq!(seen, sorted);
        listings.push(seen);
    }
    assert!(listings.iter().all(|seen| *seen == listings[0]));
}

#[test]
fn points_in_time_have_dates_within_the_calendar() {
    for (secs, nanos, dated) in [
        (FIRST_SECOND, 0, true),
        (FIRST_SECOND - 1, 0, false),
        (LAST_SECOND, 1_999_999_999, true),
        (LAST_SECOND + 1, 0, false),
        (i64::MIN, 0, false),
        (i64::MAX, 0, false),
        (0, 999_999_999, true),
        (0, 1_000_000_000, false),
        (59, 1_000_000_000, true),
        (59, 2_000_000_000, false),
        (-1, 1_500_000_000, true),
        (-2, 1_500_000_000, false),
    ] {
        assert_eq!(Timestamp::new(secs, nanos).is_some(), dated, "{secs} {nanos}");
        assert_eq!(chrono::DateTime::from_timestamp(secs, nanos).is_some(), dated);
    }
}

#[test]
fn cursors_are_the_encoding_of_their_fields() {
    let after = Key { created_at: at(0, 0), ws_id: "ws-1".to_string(), id: "a\"b".to_string() };
    let upper = Key { created_at: at(1, 500_000_000), ws_id: "ws-2".to_string(), id: "雪".to_string() };
    let text = encode_cursor(&Some("ws-1".to_string()), &after, &upper);
    let json = "{\"version\":1,\"scope\":\"ws-1\",\"after\":{\"created_at\":\"1970-01-01T00:00:00Z\",\"ws_id\":\"ws-1\",\"id\":\"a\\\"b\"},\"upper\":{\"created_at\":\"1970-01-01T00:00:01.500Z\",\"ws_id\":\"ws-2\",\"id\":\"雪\"}}";
    assert_eq!(text, hex::encode(json));
    assert_eq!(cursor_bytes(&text), Some(json.as_bytes().to_vec()));
    let lit = |s: &str| KeyLiterals {
        created_at: s.to_string(),
        ws_id: s.to_string(),
        id: s.to_string(),
    };
    assert_eq!(
        assemble_cursor(&None, &lit("1"), &lit("2")),
        hex::encode("{\"version\":1,\"scope\":null,\"after\":{\"created_at\":1,\"ws_id\":1,\"id\":1},\"upper\":{\"created_at\":2,\"ws_id\":2,\"id\":2}}")
    );
}
