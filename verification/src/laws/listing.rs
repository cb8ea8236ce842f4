//! Promises about lists of snapshots, page by page.

use crate::calendar::rfc3339;
use crate::json::json_literal;
use crate::listing::{
    are_first, eligible, key_views, leaves_some, listed, Candidates, Key, KeyView,
};
use crate::message::{ErrorCode, Response};
use crate::pages::{
    cursor_bytes, encode_cursor, entry_at, entry_views, filled, gives, is_current,
    metadata_to_send, paged, refilled, settled, starts, Cursor, CursorInput, Filled, PageAnswer,
    PageDraft, PageQuery,
};
use crate::registry::{WorkspaceState, WorkspaceView};
use crate::snapshot::{earlier, EntryView, SnapshotEntry, SnapshotSummary, TimeView};
use crate::state::{DaemonState, RegistrationFacts};
use crate::text_list::{opt_str, opt_text, texts};
use crate::traversal::{
    all_shown, follows, items, lemma_listing_shows_everything_once, next_cursor_of, reads_back,
    scope_of, shows_all, PageRequest,
};
use vstd::prelude::*;
use vstd::utf8::encode_utf8;

verus! {

/// Whether an entry is that of a snapshot of a workspace, with its record as it is, field by
/// field.
pub open spec fn shows_record(
    by_id: Map<Seq<char>, WorkspaceView>,
    id: Seq<char>,
    e: EntryView,
) -> bool {
    let index = by_id[id].index;
    let m = index.nodes[e.id];
    &&& by_id.contains_key(id)
    &&& index.nodes.contains_key(e.id)
    &&& e.workspace == index.workspace_path
    &&& e.meta.message == m.message
    &&& e.meta.metadata == m.metadata
    &&& e.meta.pinned == m.pinned
    &&& e.meta.missing == m.missing
    &&& e.meta.created_at == m.created_at
    &&& e.meta.parent_id == m.parent_id
    &&& e.meta.child_ids == m.child_ids
}

/// Whether an entry is that of some snapshot that is there.
pub open spec fn is_recorded(by_id: Map<Seq<char>, WorkspaceView>, e: EntryView) -> bool {
    exists|id: Seq<char>| #[trigger] shows_record(by_id, id, e)
}

/// What an entry says, read off its fields.
pub open spec fn entry_fields(e: SnapshotEntry) -> EntryView {
    EntryView {
        id: e.id@,
        workspace: e.workspace@,
        meta: crate::snapshot::MetaView {
            message: opt_text(e.meta.message),
            metadata: opt_text(e.meta.metadata),
            pinned: e.meta.pinned,
            created_at: e.meta.created_at@,
            missing: e.meta.missing,
            parent_id: opt_text(e.meta.parent_id),
            child_ids: texts(e.meta.child_ids@),
        },
    }
}

/// Whether a summary is that of some snapshot that is there: its name, its workspace, its flags
/// and its time are those of the record.
pub open spec fn is_summary(by_id: Map<Seq<char>, WorkspaceView>, s: SnapshotSummary) -> bool {
    exists|id: Seq<char>|
        {
            &&& #[trigger] by_id.contains_key(id)
            &&& by_id[id].index.nodes.contains_key(s.id@)
            &&& s.workspace@ == by_id[id].index.workspace_path
            &&& s.meta.pinned == by_id[id].index.nodes[s.id@].pinned
            &&& s.meta.missing == by_id[id].index.nodes[s.id@].missing
            &&& s.meta.created_at@ == by_id[id].index.nodes[s.id@].created_at
        }
}

/// Whether everything that a response lists is recorded so.
pub open spec fn lists_records(by_id: Map<Seq<char>, WorkspaceView>, r: Response) -> bool {
    &&& r matches Response::ListPageOk { snapshots, .. } ==> forall|i: int|
        0 <= i < snapshots@.len() ==> is_recorded(by_id, entry_fields(#[trigger] snapshots@[i]))
    &&& r matches Response::ListPageSummaryOk { snapshot, .. } ==> is_summary(by_id, snapshot)
}

spec fn all_recorded(by_id: Map<Seq<char>, WorkspaceView>, l: Seq<EntryView>) -> bool {
    forall|i: int| 0 <= i < l.len() ==> is_recorded(by_id, #[trigger] l[i])
}

spec fn answer_recorded(by_id: Map<Seq<char>, WorkspaceView>, a: PageAnswer) -> bool {
    match a {
        PageAnswer::Page { entries, .. } => all_recorded(by_id, entries),
        PageAnswer::Summary { entry, .. } => is_recorded(by_id, entry),
        PageAnswer::TooLarge(_) => true,
    }
}

proof fn lemma_filled_is_recorded(
    by_id: Map<Seq<char>, WorkspaceView>,
    q: PageQuery,
    keys: Seq<KeyView>,
    draft: PageDraft,
    invalidated: bool,
)
    requires
        all_recorded(by_id, draft.entries),
    ensures
        match filled(by_id, q, keys, draft, invalidated) {
            Filled::Answer(a) => answer_recorded(by_id, a),
            Filled::Exhausted { draft: d, .. } => all_recorded(by_id, d.entries),
        },
    decreases keys.len(),
{
    reveal(filled);
    if keys.len() > 0 {
        let k = keys[0];
        let rest = keys.drop_first();
        let e = entry_at(by_id, k);
        if !is_current(by_id, k) {
            lemma_filled_is_recorded(by_id, q, rest, draft, true);
        } else {
            assert(shows_record(by_id, k.ws_id, e));
            assert(is_recorded(by_id, e));
            let more = rest.len() > 0 || q.has_more || (invalidated && crate::listing::key_before(
                k,
                q.upper,
            ));
            let token = crate::pages::cursor_token(q.scope, k, q.upper);
            let cursor = if more {
                Some(token)
            } else {
                None
            };
            let next = PageDraft { entries: draft.entries.push(e), cursor };
            assert(all_recorded(by_id, next.entries)) by {
                assert forall|i: int| 0 <= i < next.entries.len() implies is_recorded(
                    by_id,
                    #[trigger] next.entries[i],
                ) by {
                    if i < draft.entries.len() {
                        assert(next.entries[i] == draft.entries[i]);
                    }
                }
            }
            lemma_filled_is_recorded(by_id, q, rest, next, invalidated);
        }
    }
}

proof fn lemma_given_is_recorded(by_id: Map<Seq<char>, WorkspaceView>, r: Response, a: PageAnswer)
    requires
        gives(r, a),
        answer_recorded(by_id, a),
    ensures
        lists_records(by_id, r),
{
    if let Response::ListPageOk { snapshots, .. } = r {
        let l = entry_views(snapshots@);
        assert forall|i: int| 0 <= i < snapshots@.len() implies is_recorded(
            by_id,
            entry_fields(#[trigger] snapshots@[i]),
        ) by {
            assert(l[i] == entry_fields(snapshots@[i]));
            assert(is_recorded(by_id, l[i]));
        }
    }
    if let PageAnswer::Summary { entry, .. } = a {
        let id = choose|id: Seq<char>| #[trigger] shows_record(by_id, id, entry);
        assert(by_id.contains_key(id));
    }
}

/// Every entry of a page carries the record of its snapshot unchanged: its message and metadata,
/// its flags, when it was created, and its place in the lineage. A summary carries the name, the
/// flags and the time unchanged.
pub proof fn lemma_pages_show_the_records(
    state: DaemonState,
    workspace: Option<&str>,
    canonical: Option<&str>,
    facts: RegistrationFacts,
    limit: u32,
    cursor: CursorInput,
    r: Response,
)
    requires
        call_ensures(
            DaemonState::list_page,
            (&state, workspace, canonical, &facts, limit, cursor),
            r,
        ),
    ensures
        lists_records(state.registry@.by_id, r),
        r matches Response::ListPageOk { snapshots, .. } ==> snapshots@.len() <= limit,
{
    let v = state.registry@;
    if r is ListPageOk || r is ListPageSummaryOk {
        let q = PageRequest {
            workspace: opt_str(workspace),
            canonical: opt_str(canonical),
            facts,
            limit,
        };
        let scope = scope_of(v, q);
        let (after, upper) = match cursor {
            CursorInput::Parsed(c) => (Some(c.after@), Some(c.upper@)),
            _ => (None, None),
        };
        let a = choose|a: PageAnswer| #[trigger]
            paged(v.by_id, scope, limit as nat, after, upper, a) && gives(r, a);
        let none = PageDraft { entries: Seq::empty(), cursor: None };
        let all = eligible(v.by_id, scope, after, upper);
        if upper is None && forall|k: KeyView| !listed(v.by_id, scope, k) {
        } else {
            let (keys, u) = choose|keys: Seq<KeyView>, u: KeyView| #[trigger]
                starts(v.by_id, scope, limit as nat, after, upper, keys, u) && a == settled(
                    filled(
                        v.by_id,
                        PageQuery {
                            scope,
                            limit: limit as nat,
                            upper: u,
                            has_more: leaves_some(keys, all),
                        },
                        keys,
                        none,
                        false,
                    ),
                );
            let pq = PageQuery {
                scope,
                limit: limit as nat,
                upper: u,
                has_more: leaves_some(keys, all),
            };
            lemma_filled_is_recorded(v.by_id, pq, keys, none, false);
            assert forall|i: int| 0 <= i < keys.len() implies is_current(
                v.by_id,
                #[trigger] keys[i],
            ) by {
                assert(all.contains(keys[i]));
            }
            crate::traversal::lemma_page_takes_next(v.by_id, pq, keys);
        }
        lemma_given_is_recorded(v.by_id, r, a);
    }
}

/// A page that is collected from selected keys lists records as they are, too, whatever has
/// become of the keys meanwhile.
pub proof fn lemma_collected_pages_show_the_records(
    state: DaemonState,
    scope: Option<String>,
    limit: usize,
    after: Option<Key>,
    candidates: Candidates,
    r: Response,
)
    requires
        call_ensures(DaemonState::collect_page, (&state, scope, limit, after, candidates), r),
    ensures
        lists_records(state.registry@.by_id, r),
{
    let by_id = state.registry@.by_id;
    let keys = key_views(candidates.keys@);
    let none = PageDraft { entries: Seq::empty(), cursor: None };
    if let Some(u) = candidates.upper {
        let q = PageQuery {
            scope: opt_text(scope),
            limit: limit as nat,
            upper: u@,
            has_more: candidates.has_more,
        };
        lemma_filled_is_recorded(by_id, q, keys, none, false);
        match filled(by_id, q, keys, none, false) {
            Filled::Answer(a) => {
                lemma_given_is_recorded(by_id, r, a);
            },
            Filled::Exhausted { draft, invalidated } => {
                let next = if keys.len() > 0 {
                    Some(keys.last())
                } else {
                    crate::listing::opt_key(after)
                };
                if !candidates.has_more && !invalidated {
                    lemma_given_is_recorded(
                        by_id,
                        r,
                        PageAnswer::Page { entries: draft.entries, cursor: None },
                    );
                } else {
                    let a = choose|a: PageAnswer| #[trigger]
                        refilled(by_id, opt_text(scope), limit as nat, next, u@, draft, a) && gives(
                            r,
                            a,
                        );
                    let all = eligible(by_id, opt_text(scope), next, Some(u@));
                    let more = choose|more: Seq<KeyView>| #[trigger]
                        are_first(
                            more,
                            all,
                            crate::pages::room(limit as nat, draft.entries.len()),
                        ) && a == settled(
                            filled(
                                by_id,
                                PageQuery {
                                    scope: opt_text(scope),
                                    limit: limit as nat,
                                    upper: u@,
                                    has_more: leaves_some(more, all),
                                },
                                more,
                                draft,
                                false,
                            ),
                        );
                    lemma_filled_is_recorded(
                        by_id,
                        PageQuery {
                            scope: opt_text(scope),
                            limit: limit as nat,
                            upper: u@,
                            has_more: leaves_some(more, all),
                        },
                        more,
                        draft,
                        false,
                    );
                    lemma_given_is_recorded(by_id, r, a);
                }
            },
        }
    } else {
        lemma_given_is_recorded(
            by_id,
            r,
            PageAnswer::Page { entries: Seq::empty(), cursor: None },
        );
    }
}

/// Whether an item is that of a snapshot of a workspace.
pub open spec fn is_item(
    by_id: Map<Seq<char>, WorkspaceView>,
    ws_id: Seq<char>,
    k: Seq<char>,
    item: (Seq<char>, Seq<char>, TimeView),
) -> bool {
    &&& by_id.contains_key(ws_id)
    &&& by_id[ws_id].index.nodes.contains_key(k)
    &&& item == (
        by_id[ws_id].index.workspace_path,
        k,
        by_id[ws_id].index.nodes[k].created_at,
    )
}

/// A listing that is followed to its end shows every snapshot that was asked for, and only those,
/// from the oldest to the newest.
pub proof fn lemma_listing_is_complete_and_in_order(
    state: DaemonState,
    workspace: Option<&str>,
    canonical: Option<&str>,
    facts: RegistrationFacts,
    limit: u32,
    cursors: Seq<CursorInput>,
    replies: Seq<Response>,
    found: Option<&WorkspaceState>,
    ws_id: Seq<char>,
    k: Seq<char>,
)
    requires
        cursors.len() == replies.len() > 0,
        cursors[0] is Absent,
        forall|i: int|
            0 <= i < replies.len() ==> !((#[trigger] replies[i]) is Error) && call_ensures(
                DaemonState::list_page,
                (&state, workspace, canonical, &facts, limit, cursors[i]),
                replies[i],
            ),
        forall|i: int|
            0 <= i < replies.len() - 1 ==> (next_cursor_of(#[trigger] replies[i]) matches Some(t)
                && reads_back(t, cursors[i + 1])),
        next_cursor_of(replies.last()) is None,
        workspace matches Some(w) ==> call_ensures(
            DaemonState::resolve_workspace,
            (&state, w, canonical),
            found,
        ),
    ensures
        ({
            let by_id = state.registry@.by_id;
            let shown = all_shown(replies);
            &&& by_id.contains_key(ws_id) && by_id[ws_id].ws_id == ws_id
                && by_id[ws_id].index.nodes.contains_key(k) && (workspace is None || (found
                matches Some(w) && w.ws_id@ == ws_id)) ==> shown.contains(
                (by_id[ws_id].index.workspace_path, k, by_id[ws_id].index.nodes[k].created_at),
            )
            &&& forall|i: int|
                0 <= i < shown.len() ==> exists|w: Seq<char>|
                    #![trigger by_id.contains_key(w)]
                    is_item(by_id, w, shown[i].1, #[trigger] shown[i]) && (workspace is Some ==> (
                    found matches Some(f) && f.ws_id@ == w))
            &&& forall|i: int, j: int|
                0 <= i < j < shown.len() ==> !earlier(
                    (#[trigger] shown[j]).2,
                    (#[trigger] shown[i]).2,
                )
        }),
{
    let v = state.registry@;
    let by_id = v.by_id;
    let shown = all_shown(replies);
    let q = PageRequest {
        workspace: opt_str(workspace),
        canonical: opt_str(canonical),
        facts,
        limit,
    };
    let scope = scope_of(v, q);
    assert(follows(v, q, cursors, replies));
    lemma_listing_shows_everything_once(v, q, cursors, replies);
    let set = eligible(by_id, scope, None, None);
    let all = choose|all: Seq<KeyView>| #[trigger] shows_all(by_id, set, all, replies);
    if by_id.contains_key(ws_id) && by_id[ws_id].ws_id == ws_id
        && by_id[ws_id].index.nodes.contains_key(k) && (workspace is None || (found matches Some(w)
        && w.ws_id@ == ws_id)) {
        let key = KeyView { created_at: by_id[ws_id].index.nodes[k].created_at, ws_id, id: k };
        assert(listed(by_id, scope, key));
        assert(set.contains(key));
        let i = choose|i: int| 0 <= i < all.len() && all[i] == key;
        assert(items(by_id, all)[i] == shown[i]);
    }
    assert forall|i: int| 0 <= i < shown.len() implies exists|w: Seq<char>|
        #![trigger by_id.contains_key(w)]
        is_item(by_id, w, shown[i].1, #[trigger] shown[i]) && (workspace is Some ==> (found
            matches Some(f) && f.ws_id@ == w)) by {
        assert(shown[i] == items(by_id, all)[i]);
        assert(all.contains(all[i]));
        assert(set.contains(all[i]));
        assert(by_id.contains_key(all[i].ws_id));
    }
    assert forall|i: int, j: int| 0 <= i < j < shown.len() implies !earlier(
        (#[trigger] shown[j]).2,
        (#[trigger] shown[i]).2,
    ) by {
        assert(shown[i] == items(by_id, all)[i] && shown[j] == items(by_id, all)[j]);
        assert(all.contains(all[i]) && all.contains(all[j]));
        assert(set.contains(all[i]) && set.contains(all[j]));
        assert(crate::listing::key_before(all[i], all[j]));
    }
}

/// A request for a page is refused exactly where its limit is out of range, its workspace is not
/// registered or leads elsewhere, or its cursor cannot continue this list; otherwise it is
/// answered with snapshots, or with the name of one that is too large.
pub proof fn lemma_page_requests_are_refused_for_cause(
    state: DaemonState,
    workspace: Option<&str>,
    canonical: Option<&str>,
    facts: RegistrationFacts,
    limit: u32,
    cursor: CursorInput,
    found: Option<&WorkspaceState>,
    r: Response,
)
    requires
        call_ensures(
            DaemonState::list_page,
            (&state, workspace, canonical, &facts, limit, cursor),
            r,
        ),
        workspace matches Some(w) ==> call_ensures(
            DaemonState::resolve_workspace,
            (&state, w, canonical),
            found,
        ),
    ensures
        limit < 1 || limit > 1000 <==> (r matches Response::Error { code, .. } && code
            == ErrorCode::InvalidListRequest),
        1 <= limit <= 1000 && workspace is Some && found is None <==> (r matches Response::Error {
            code,
            ..
        } && code == ErrorCode::WorkspaceNotFound),
        1 <= limit <= 1000 && workspace is Some && found is Some && !facts.live() <==> (r
            matches Response::Error { code, .. } && code == ErrorCode::InternalError),
        (r matches Response::Error { code, .. } && code == ErrorCode::InvalidListCursor)
            ==> !(cursor is Absent),
        cursor is Malformed ==> r is Error,
        cursor matches CursorInput::Parsed(c) ==> (r is ListPageOk || r is ListPageSummaryOk ==> {
            &&& c.version == 1
            &&& crate::listing::key_before(c.after@, c.upper@)
            &&& c.scope is Some <==> workspace is Some
            &&& workspace is Some ==> (found matches Some(w) && c.scope->0@ == w.ws_id@
                && c.after.ws_id@ == w.ws_id@ && c.upper.ws_id@ == w.ws_id@)
        }),
        !(r is Error) ==> r is ListPageOk || r is ListPageSummaryOk,
{
    let v = state.registry@;
    let q = PageRequest {
        workspace: opt_str(workspace),
        canonical: opt_str(canonical),
        facts,
        limit,
    };
    let scope = scope_of(v, q);
    let (after, upper) = match cursor {
        CursorInput::Parsed(c) => (Some(c.after@), Some(c.upper@)),
        _ => (None, None),
    };
    if crate::pages::gives_page(v.by_id, scope, limit as nat, after, upper, r) {
        let a = choose|a: PageAnswer| #[trigger]
            paged(v.by_id, scope, limit as nat, after, upper, a) && gives(r, a);
        assert(gives(r, a));
    }
}

/// What was created earlier is listed earlier, whatever it is called; at the same time, the
/// workspace decides, and then the snapshot. Nothing is before itself.
pub proof fn lemma_keys_go_by_time(a: KeyView, b: KeyView)
    ensures
        earlier(a.created_at, b.created_at) ==> crate::listing::key_before(a, b)
            && !crate::listing::key_before(b, a),
        a.created_at.0 < b.created_at.0 ==> crate::listing::key_before(a, b),
        a.created_at.0 == b.created_at.0 && a.created_at.1 < b.created_at.1
            ==> crate::listing::key_before(a, b),
        a.created_at == b.created_at && crate::text::text_before(a.ws_id, b.ws_id)
            ==> crate::listing::key_before(a, b),
        a.created_at == b.created_at && a.ws_id == b.ws_id && crate::text::text_before(a.id, b.id)
            ==> crate::listing::key_before(a, b),
        !crate::listing::key_before(a, a),
        crate::listing::key_before(a, b) ==> !crate::listing::key_before(b, a),
{
    crate::listing::lemma_key_order_total(a, b);
    crate::listing::lemma_key_order_total(a, a);
}

/// The keys that are selected are those of snapshots in scope, after the one and not after the
/// other bound, in order and no more than there is room for; without an upper bound, the newest
/// snapshot is it. What is left out comes later, and only where there is no room.
pub proof fn lemma_candidates_come_next(
    state: DaemonState,
    scope: Option<&str>,
    after: Option<&Key>,
    upper: Option<&Key>,
    capacity: usize,
    r: Candidates,
    ws_id: Seq<char>,
    k: Seq<char>,
)
    requires
        call_ensures(
            DaemonState::select_candidates,
            (&state, scope, after, upper, capacity),
            r,
        ),
    ensures
        ({
            let by_id = state.registry@.by_id;
            let keys = key_views(r.keys@);
            let key = KeyView { created_at: by_id[ws_id].index.nodes[k].created_at, ws_id, id: k };
            &&& r.keys@.len() <= capacity
            &&& forall|i: int|
                0 <= i < keys.len() ==> is_current(by_id, #[trigger] keys[i]) && (scope matches Some(
                    s,
                ) ==> keys[i].ws_id == s@) && (after matches Some(a) ==> crate::listing::key_before(
                    a@,
                    keys[i],
                )) && (upper matches Some(u) ==> !crate::listing::key_before(u@, keys[i]))
            &&& forall|i: int, j: int|
                0 <= i < j < keys.len() ==> !earlier(
                    (#[trigger] keys[j]).created_at,
                    (#[trigger] keys[i]).created_at,
                )
            &&& is_current(by_id, key) && (scope matches Some(s) ==> ws_id == s@) && (
            after matches Some(a) ==> crate::listing::key_before(a@, key)) && (upper matches Some(u)
                ==> !crate::listing::key_before(u@, key)) ==> keys.contains(key) || (r.keys@.len()
                == capacity && r.has_more)
            &&& is_current(by_id, key) && (scope matches Some(s) ==> ws_id == s@) && upper is None
                ==> (r.upper matches Some(u) && !crate::listing::key_before(u@, key))
            &&& upper matches Some(u) ==> (r.upper matches Some(x) && x@ == u@)
        }),
{
    let by_id = state.registry@.by_id;
    let keys = key_views(r.keys@);
    let all = eligible(by_id, opt_str(scope), crate::listing::opt_key_ref(after), crate::listing::opt_key_ref(upper));
    let key = KeyView { created_at: by_id[ws_id].index.nodes[k].created_at, ws_id, id: k };
    assert forall|i: int| 0 <= i < keys.len() implies is_current(by_id, #[trigger] keys[i]) && (
    scope matches Some(s) ==> keys[i].ws_id == s@) && (after matches Some(a)
        ==> crate::listing::key_before(a@, keys[i])) && (upper matches Some(u)
        ==> !crate::listing::key_before(u@, keys[i])) by {
        assert(all.contains(keys[i]));
    }
    if is_current(by_id, key) && (scope matches Some(s) ==> ws_id == s@) {
        assert(listed(by_id, opt_str(scope), key));
        if (after matches Some(a) ==> crate::listing::key_before(a@, key)) && (upper matches Some(u)
            ==> !crate::listing::key_before(u@, key)) {
            assert(all.contains(key));
        }
        if upper is None {
            crate::listing::lemma_key_order_total(r.upper->0@, key);
        }
    }
}

/// Whether an answer keeps to its budgets: a page fits in a frame of 16 MiB, one of several entries
/// in 1 MiB, a cursor in 8 KiB; and only an entry that does not fit in a frame is summarised.
spec fn in_budget(a: PageAnswer) -> bool {
    match a {
        PageAnswer::Page { entries, cursor } => {
            &&& entries.len() > 0 ==> crate::pages::entries_size(entries)
                + crate::pages::envelope_size(cursor) <= 16 * 1024 * 1024
            &&& entries.len() > 1 ==> crate::pages::entries_size(entries)
                + crate::pages::envelope_size(cursor) <= 1024 * 1024
            &&& cursor matches Some(t) ==> t.len() <= 8192
        },
        PageAnswer::Summary { entry, cursor } => {
            &&& crate::pages::entry_size(entry) + crate::pages::envelope_size(cursor) > 16 * 1024
                * 1024
            &&& crate::pages::summary_bytes(entry, cursor) <= 16 * 1024 * 1024
            &&& cursor matches Some(t) ==> t.len() <= 8192
        },
        PageAnswer::TooLarge(_) => true,
    }
}

proof fn lemma_filled_in_budget(
    by_id: Map<Seq<char>, WorkspaceView>,
    q: PageQuery,
    keys: Seq<KeyView>,
    draft: PageDraft,
    invalidated: bool,
)
    requires
        in_budget(PageAnswer::Page { entries: draft.entries, cursor: draft.cursor }),
        crate::pages::entries_size(draft.entries) + crate::pages::envelope_size(None) <= 16 * 1024
            * 1024,
    ensures
        in_budget(settled(filled(by_id, q, keys, draft, invalidated))),
    decreases keys.len(),
{
    reveal(filled);
    if keys.len() > 0 {
        let k = keys[0];
        let rest = keys.drop_first();
        let e = entry_at(by_id, k);
        if !is_current(by_id, k) {
            lemma_filled_in_budget(by_id, q, rest, draft, true);
        } else {
            let more = rest.len() > 0 || q.has_more || (invalidated && crate::listing::key_before(
                k,
                q.upper,
            ));
            let token = crate::pages::cursor_token(q.scope, k, q.upper);
            let cursor = if more {
                Some(token)
            } else {
                None
            };
            let next = PageDraft { entries: draft.entries.push(e), cursor };
            assert(next.entries.drop_last() =~= draft.entries);
            assert(crate::pages::entries_size(next.entries) == crate::pages::entries_size(
                draft.entries,
            ) + crate::pages::entry_size(e));
            if draft.entries.len() == 0 {
                assert(draft.entries =~= Seq::empty());
                assert(crate::pages::entries_size(draft.entries) == 0);
            }
            if in_budget(PageAnswer::Page { entries: next.entries, cursor }) {
                lemma_filled_in_budget(by_id, q, rest, next, invalidated);
            }
        }
    }
}

/// Every page fits in a frame of 16 MiB, and a page of more than one entry in 1 MiB. A cursor has at
/// most 8192 characters. A snapshot is summarised only where its entry does not fit in a frame.
pub proof fn lemma_pages_keep_to_their_budgets(
    state: DaemonState,
    workspace: Option<&str>,
    canonical: Option<&str>,
    facts: RegistrationFacts,
    limit: u32,
    cursor: CursorInput,
    r: Response,
)
    requires
        call_ensures(
            DaemonState::list_page,
            (&state, workspace, canonical, &facts, limit, cursor),
            r,
        ),
    ensures
        r matches Response::ListPageOk { snapshots, next_cursor } ==> {
            let bytes = crate::pages::entries_size(entry_views(snapshots@))
                + crate::pages::envelope_size(opt_text(next_cursor));
            &&& snapshots@.len() > 0 ==> bytes <= 16 * 1024 * 1024
            &&& snapshots@.len() > 1 ==> bytes <= 1024 * 1024
            &&& next_cursor matches Some(t) ==> t@.len() <= 8192
        },
        r matches Response::ListPageSummaryOk { snapshot, next_cursor } ==> {
            &&& next_cursor matches Some(t) ==> t@.len() <= 8192
            &&& exists|e: EntryView|
                {
                    &&& #[trigger] crate::pages::entry_size(e) + crate::pages::envelope_size(
                        opt_text(next_cursor),
                    ) > 16 * 1024 * 1024
                    &&& e.id == snapshot.id@
                    &&& e.workspace == snapshot.workspace@
                    &&& is_recorded(state.registry@.by_id, e)
                }
        },
{
    let v = state.registry@;
    if r is ListPageOk || r is ListPageSummaryOk {
        let q = PageRequest {
            workspace: opt_str(workspace),
            canonical: opt_str(canonical),
            facts,
            limit,
        };
        let scope = scope_of(v, q);
        let (after, upper) = match cursor {
            CursorInput::Parsed(c) => (Some(c.after@), Some(c.upper@)),
            _ => (None, None),
        };
        let a = choose|a: PageAnswer| #[trigger]
            paged(v.by_id, scope, limit as nat, after, upper, a) && gives(r, a);
        let none = PageDraft { entries: Seq::empty(), cursor: None };
        let all = eligible(v.by_id, scope, after, upper);
        if upper is None && forall|k: KeyView| !listed(v.by_id, scope, k) {
        } else {
            let (keys, u) = choose|keys: Seq<KeyView>, u: KeyView| #[trigger]
                starts(v.by_id, scope, limit as nat, after, upper, keys, u) && a == settled(
                    filled(
                        v.by_id,
                        PageQuery {
                            scope,
                            limit: limit as nat,
                            upper: u,
                            has_more: leaves_some(keys, all),
                        },
                        keys,
                        none,
                        false,
                    ),
                );
            let pq = PageQuery {
                scope,
                limit: limit as nat,
                upper: u,
                has_more: leaves_some(keys, all),
            };
            assert(crate::pages::entries_size(none.entries) == 0);
            lemma_filled_in_budget(v.by_id, pq, keys, none, false);
            lemma_filled_is_recorded(v.by_id, pq, keys, none, false);
        }
        if let PageAnswer::Summary { entry, cursor: c } = a {
            assert(crate::pages::entry_size(entry) + crate::pages::envelope_size(c) > 16 * 1024
                * 1024);
        }
        if let Response::ListPageOk { snapshots, .. } = r {
            assert(entry_views(snapshots@).len() == snapshots@.len());
        }
    }
}

/// A cursor continues a list exactly where it is of this version and of the list's scope, names
/// snapshots, in the scope's workspace where there is one, and is not at its end; it is taken as it
/// is.
pub proof fn lemma_cursors_continue_their_list(
    c: Cursor,
    scope: Option<&str>,
    before: bool,
    r: Option<Cursor>,
)
    requires
        call_ensures(Cursor::accept, (c, scope), r),
        call_ensures(Key::is_before, (&c.after, &c.upper), before),
    ensures
        r matches Some(x) ==> x == c,
        r is Some ==> c.version == 1 && before,
        r is Some ==> c.after.ws_id@.len() > 0 && c.after.id@.len() > 0 && c.upper.ws_id@.len() > 0
            && c.upper.id@.len() > 0,
        r is Some ==> opt_text(c.scope) == opt_str(scope),
        r is Some ==> (scope matches Some(w) ==> w@ == c.after.ws_id@ && w@ == c.upper.ws_id@),
        c.version == 1 && before && c.after.ws_id@.len() > 0 && c.after.id@.len() > 0
            && c.upper.ws_id@.len() > 0 && c.upper.id@.len() > 0 && c.scope is None && scope is None
            ==> r is Some,
{
}

/// The text of a cursor that is short enough reads back as the JSON of its scope, of where it goes on
/// and of where it ends, in that order. A longer text, or one that is not hexadecimal, is refused.
pub proof fn lemma_cursors_read_back(
    scope: Option<String>,
    after: Key,
    upper: Key,
    token: String,
    text: &str,
    bytes: Option<Vec<u8>>,
)
    requires
        call_ensures(encode_cursor, (&scope, &after, &upper), token),
        text@ == token@,
        call_ensures(cursor_bytes, (text,), bytes),
    ensures
        bytes is Some <==> encode_utf8(token@).len() <= 8192,
        bytes matches Some(b) ==> b@ == encode_utf8(
            "{\"version\":1,\"scope\":"@ + (match scope {
                Some(s) => json_literal(s@),
                None => "null"@,
            }) + ",\"after\":"@ + key_text(after@) + ",\"upper\":"@ + key_text(upper@) + "}"@,
        ),
{
    crate::pages::lemma_cursor_bytes(opt_text(scope), after@, upper@);
}

/// The JSON of a key: its time, its workspace and its snapshot.
pub open spec fn key_text(k: KeyView) -> Seq<char> {
    "{\"created_at\":"@ + json_literal(rfc3339(k.created_at.0, k.created_at.1)) + ",\"ws_id\":"@
        + json_literal(k.ws_id) + ",\"id\":"@ + json_literal(k.id) + "}"@
}

/// Metadata is sent as it is recorded, but for a null, which is left out.
pub proof fn lemma_metadata_is_sent(metadata: Option<String>, r: Option<String>)
    requires
        call_ensures(metadata_to_send, (&metadata,), r),
    ensures
        metadata is None ==> r is None,
        metadata matches Some(m) ==> (if m@ == seq!['n', 'u', 'l', 'l'] {
            r is None
        } else {
            r matches Some(t) && t@ == m@
        }),
{
    reveal_strlit("null");
    assert("null"@ =~= seq!['n', 'u', 'l', 'l']);
}

/// A page says that there is more only where there is: a snapshot that was asked for and comes after
/// the last one shown. A page without snapshots is the last.
pub proof fn lemma_cursors_promise_more(
    state: DaemonState,
    workspace: Option<&str>,
    canonical: Option<&str>,
    facts: RegistrationFacts,
    limit: u32,
    cursor: CursorInput,
    r: Response,
)
    requires
        call_ensures(
            DaemonState::list_page,
            (&state, workspace, canonical, &facts, limit, cursor),
            r,
        ),
    ensures
        r matches Response::ListPageOk { snapshots, next_cursor: Some(_) } ==> {
            &&& snapshots@.len() > 0
            &&& exists|a: KeyView, b: KeyView|
                #![trigger is_current(state.registry@.by_id, a), is_current(
                    state.registry@.by_id,
                    b,
                )]
                {
                    &&& is_current(state.registry@.by_id, a)
                    &&& is_current(state.registry@.by_id, b)
                    &&& a.id == snapshots@.last().id@
                    &&& a.created_at == snapshots@.last().meta.created_at@
                    &&& crate::listing::key_before(a, b)
                }
        },
{
    let v = state.registry@;
    if let Response::ListPageOk { snapshots, next_cursor: Some(t) } = r {
        let q = PageRequest {
            workspace: opt_str(workspace),
            canonical: opt_str(canonical),
            facts,
            limit,
        };
        let scope = scope_of(v, q);
        let (after, upper) = match cursor {
            CursorInput::Parsed(c) => (Some(c.after@), Some(c.upper@)),
            _ => (None, None),
        };
        let a = choose|a: PageAnswer| #[trigger]
            paged(v.by_id, scope, limit as nat, after, upper, a) && gives(r, a);
        let none = PageDraft { entries: Seq::empty(), cursor: None };
        let all = eligible(v.by_id, scope, after, upper);
        let (keys, u) = choose|keys: Seq<KeyView>, u: KeyView| #[trigger]
            starts(v.by_id, scope, limit as nat, after, upper, keys, u) && a == settled(
                filled(
                    v.by_id,
                    PageQuery {
                        scope,
                        limit: limit as nat,
                        upper: u,
                        has_more: leaves_some(keys, all),
                    },
                    keys,
                    none,
                    false,
                ),
            );
        let pq = PageQuery {
            scope,
            limit: limit as nat,
            upper: u,
            has_more: leaves_some(keys, all),
        };
        assert forall|i: int| 0 <= i < keys.len() implies is_current(
            v.by_id,
            #[trigger] keys[i],
        ) by {
            assert(all.contains(keys[i]));
        }
        crate::traversal::lemma_page_takes_next(v.by_id, pq, keys);
        let l = entry_views(snapshots@);
        let n = l.len() as int;
        assert(n == snapshots@.len());
        assert(n > 0);
        assert(l[n - 1] == entry_at(v.by_id, keys[n - 1]));
        assert(l[n - 1] == snapshots@[n - 1]@);
        assert(is_current(v.by_id, keys[n - 1]));
        if n < keys.len() {
            assert(crate::listing::key_before(keys[n - 1], keys[n]));
            assert(is_current(v.by_id, keys[n]));
        } else {
            let k = choose|k: KeyView| #[trigger] all.contains(k) && !keys.contains(k);
            assert(crate::listing::key_before(keys[n - 1], k));
            assert(is_current(v.by_id, k));
        }
    }
}

/// An entry with a message and a parent, and with one more child.
pub open spec fn with_more(e: EntryView, message: Seq<char>, parent: Seq<char>, c: Seq<char>) -> EntryView {
    EntryView {
        meta: crate::snapshot::MetaView {
            message: Some(message),
            parent_id: Some(parent),
            child_ids: e.meta.child_ids.push(c),
            ..e.meta
        },
        ..e
    }
}

/// The size of an entry counts each of its texts, with eight bytes for the length of each; so do
/// the sizes of a summary and of a page.
pub proof fn lemma_sizes_count_what_is_sent(
    e: EntryView,
    message: Seq<char>,
    parent: Seq<char>,
    c: Seq<char>,
)
    requires
        e.meta.message is None,
        e.meta.parent_id is None,
    ensures
        ({
            let fixed = encode_utf8(e.id).len() + encode_utf8(e.workspace).len() + encode_utf8(
                rfc3339(e.meta.created_at.0, e.meta.created_at.1),
            ).len();
            let size = crate::pages::entry_size(e);
            &&& e.meta.metadata is None && e.meta.child_ids.len() == 0 ==> size == 37 + fixed
            &&& crate::pages::entry_size(with_more(e, message, parent, c)) == size + 24
                + encode_utf8(message).len() + encode_utf8(parent).len() + encode_utf8(c).len()
            &&& crate::pages::summary_bytes(e, None) == 31 + fixed
            &&& crate::pages::summary_bytes(e, Some(c)) == 39 + fixed + encode_utf8(c).len()
            &&& crate::pages::envelope_size(None) == 13
            &&& crate::pages::envelope_size(Some(c)) == 21 + encode_utf8(c).len()
        }),
{
    assert(e.meta.child_ids.push(c).drop_last() =~= e.meta.child_ids);
}

} // verus!
