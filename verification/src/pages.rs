//! Pages of snapshots, bounded in entries and in bytes, and the cursors between them.

use crate::calendar::rfc3339;
use crate::digest::{hex_decode, hex_encode, hex_text, is_hex_text, unhex};
use crate::frame::MAX_FRAME_SIZE;
use crate::json::{json_literal, quote_json};
use crate::listing::{
    are_first, eligible, is_key_of, key_before, key_views, leaves_some, listed, opt_key, selects,
    Candidates, Key, KeyView, LIST_PAGE_TARGET_BYTES, MAX_LIST_CURSOR_BYTES, MAX_LIST_PAGE_LIMIT,
};
use crate::message::{error_resp, ErrorCode, Response};
use crate::registry::{RegistryView, WorkspaceView};
use crate::snapshot::{
    Duplicate, EntryView, SnapshotEntry, SnapshotMeta, SnapshotSummary, SnapshotSummaryMeta,
};
use crate::state::{
    detached_message, detached_registration_error, not_found_message, resolved_workspace,
    workspace_not_found_error, DaemonState, RegistrationFacts,
};
use crate::text::{chars_of, debug_quote, quoted_for_debugging, str_eq, text_of};
use crate::text_list::{opt_str, opt_text};
use crate::wire::{
    empty_page_size, entry_fields_size, opt_text_size, summary_size, text_size, texts_size,
};
use vstd::prelude::*;
use vstd::utf8::encode_utf8;

verus! {

/// The version of the cursor format.
pub const CURSOR_VERSION: u32 = 1;

/// The number of the page variant of the response enum.
pub const PAGE_VARIANT: u32 = 29;

/// The number of the summary variant of the response enum.
pub const SUMMARY_VARIANT: u32 = 30;

/// Where a traversal stands: what was returned last, and where it ends.
#[derive(Debug, PartialEq, Eq)]
pub struct Cursor {
    pub version: u32,
    pub scope: Option<String>,
    pub after: Key,
    pub upper: Key,
}

/// The JSON text of a key.
pub open spec fn key_json(k: KeyView) -> Seq<char> {
    "{\"created_at\":"@ + json_literal(rfc3339(k.created_at.0, k.created_at.1)) + ",\"ws_id\":"@
        + json_literal(k.ws_id) + ",\"id\":"@ + json_literal(k.id) + "}"@
}

/// The JSON text of a cursor.
pub open spec fn cursor_json(scope: Option<Seq<char>>, after: KeyView, upper: KeyView) -> Seq<char> {
    "{\"version\":1,\"scope\":"@ + match scope {
        Some(s) => json_literal(s),
        None => "null"@,
    } + ",\"after\":"@ + key_json(after) + ",\"upper\":"@ + key_json(upper) + "}"@
}

/// The opaque text of a cursor: its JSON text in hexadecimal.
pub open spec fn cursor_token(scope: Option<Seq<char>>, after: KeyView, upper: KeyView) -> Seq<char> {
    hex_text(encode_utf8(cursor_json(scope, after, upper)))
}

/// The JSON literals of the fields of a key.
pub struct KeyLiterals {
    pub created_at: String,
    pub ws_id: String,
    pub id: String,
}

/// The JSON text of a key whose fields have these literals.
pub open spec fn key_object(k: KeyLiterals) -> Seq<char> {
    "{\"created_at\":"@ + k.created_at@ + ",\"ws_id\":"@ + k.ws_id@ + ",\"id\":"@ + k.id@ + "}"@
}

fn append_key(text: &mut String, k: &KeyLiterals)
    ensures
        final(text)@ == old(text)@ + key_object(*k),
{
    text.append("{\"created_at\":");
    text.append(k.created_at.as_str());
    text.append(",\"ws_id\":");
    text.append(k.ws_id.as_str());
    text.append(",\"id\":");
    text.append(k.id.as_str());
    text.append("}");
    proof {
        assert(text@ =~= old(text)@ + key_object(*k));
    }
}

/// The opaque text of a cursor, from the JSON literals of its parts.
pub fn assemble_cursor(scope: &Option<String>, after: &KeyLiterals, upper: &KeyLiterals) -> (r:
    String)
    ensures
        r@ == hex_text(
            encode_utf8(
                "{\"version\":1,\"scope\":"@ + match opt_text(*scope) {
                    Some(s) => s,
                    None => "null"@,
                } + ",\"after\":"@ + key_object(*after) + ",\"upper\":"@ + key_object(*upper)
                    + "}"@,
            ),
        ),
{
    let mut text = "{\"version\":1,\"scope\":".to_owned();
    match scope {
        Some(s) => {
            text.append(s.as_str());
        },
        None => {
            text.append("null");
        },
    }
    text.append(",\"after\":");
    append_key(&mut text, after);
    text.append(",\"upper\":");
    append_key(&mut text, upper);
    text.append("}");
    hex_encode(text.as_str().as_bytes())
}

fn key_literals(k: &Key) -> (r: KeyLiterals)
    ensures
        key_object(r) == key_json(k@),
{
    KeyLiterals {
        created_at: quote_json(k.created_at.to_rfc3339().as_str()),
        ws_id: quote_json(k.ws_id.as_str()),
        id: quote_json(k.id.as_str()),
    }
}

/// The opaque text of the cursor that continues after a key.
pub fn encode_cursor(scope: &Option<String>, after: &Key, upper: &Key) -> (r: String)
    ensures
        r@ == cursor_token(opt_text(*scope), after@, upper@),
{
    let scope_literal = match scope {
        Some(s) => Some(quote_json(s.as_str())),
        None => None,
    };
    assemble_cursor(&scope_literal, &key_literals(after), &key_literals(upper))
}

/// The bytes inside the opaque text of a cursor, unless it is too long or no hexadecimal text.
pub fn cursor_bytes(value: &str) -> (r: Option<Vec<u8>>)
    ensures
        match r {
            Some(b) => encode_utf8(value@).len() <= MAX_LIST_CURSOR_BYTES && is_hex_text(value@)
                && b@ == unhex(value@),
            None => encode_utf8(value@).len() > MAX_LIST_CURSOR_BYTES || !is_hex_text(value@),
        },
{
    if value.as_bytes().len() > MAX_LIST_CURSOR_BYTES {
        return None;
    }
    match hex_decode(value) {
        Ok(b) => Some(b),
        Err(_) => None,
    }
}

/// What is inside the opaque text of a cursor is its JSON text.
pub proof fn lemma_cursor_bytes(scope: Option<Seq<char>>, after: KeyView, upper: KeyView)
    ensures
        is_hex_text(cursor_token(scope, after, upper)),
        unhex(cursor_token(scope, after, upper)) == encode_utf8(cursor_json(scope, after, upper)),
{
    crate::digest::lemma_hex_reads_back(encode_utf8(cursor_json(scope, after, upper)));
}

/// Whether a cursor can continue a list of that scope: it is of this version and this scope,
/// its keys name snapshots, in the scope's workspace where there is one, and it has not reached
/// its end.
pub open spec fn continues(c: Cursor, scope: Option<Seq<char>>) -> bool {
    &&& c.version == CURSOR_VERSION
    &&& opt_text(c.scope) == scope
    &&& c.after.ws_id@.len() > 0 && c.after.id@.len() > 0
    &&& c.upper.ws_id@.len() > 0 && c.upper.id@.len() > 0
    &&& key_before(c.after@, c.upper@)
    &&& scope matches Some(id) ==> id.len() > 0 && c.after.ws_id@ == id && c.upper.ws_id@ == id
}

impl Cursor {
    /// Accepts a cursor that was read from a request, if it can continue a list of that scope.
    pub fn accept(self, scope: Option<&str>) -> (r: Option<Cursor>)
        ensures
            match r {
                Some(c) => c == self && continues(self, opt_str(scope)),
                None => !continues(self, opt_str(scope)),
            },
    {
        let same_scope = match (&self.scope, scope) {
            (Some(a), Some(b)) => str_eq(a.as_str(), b),
            (None, None) => true,
            _ => false,
        };
        if self.version != CURSOR_VERSION || !same_scope || !self.after.valid() || !self.upper.valid()
            || !self.after.is_before(&self.upper) {
            return None;
        }
        if let Some(id) = scope {
            if id.is_empty() || !str_eq(self.after.ws_id.as_str(), id) || !str_eq(
                self.upper.ws_id.as_str(),
                id,
            ) {
                return None;
            }
        }
        Some(self)
    }
}

/// A recorded metadata text as it is sent: a null value is left out.
pub open spec fn sent_metadata(metadata: Option<Seq<char>>) -> Option<Seq<char>> {
    if metadata == Some("null"@) {
        None
    } else {
        metadata
    }
}

/// The encoded size of an entry.
pub open spec fn entry_size(e: EntryView) -> nat {
    text_size(e.id) + text_size(e.workspace) + opt_text_size(e.meta.message) + opt_text_size(
        sent_metadata(e.meta.metadata),
    ) + 1 + text_size(rfc3339(e.meta.created_at.0, e.meta.created_at.1)) + 1 + opt_text_size(
        e.meta.parent_id,
    ) + 8 + texts_size(e.meta.child_ids)
}

/// The encoded size of a page without entries.
pub open spec fn envelope_size(cursor: Option<Seq<char>>) -> nat {
    12 + opt_text_size(cursor)
}

/// The encoded size of the summary of an entry.
pub open spec fn summary_bytes(e: EntryView, cursor: Option<Seq<char>>) -> nat {
    22 + encode_utf8(e.id).len() + encode_utf8(e.workspace).len() + text_size(
        rfc3339(e.meta.created_at.0, e.meta.created_at.1),
    ) + opt_text_size(cursor)
}

/// The encoded size of entries, one after the other.
pub open spec fn entries_size(l: Seq<EntryView>) -> nat
    decreases l.len(),
{
    if l.len() == 0 {
        0
    } else {
        entries_size(l.drop_last()) + entry_size(l.last())
    }
}

/// A recorded metadata text as it is sent.
pub fn metadata_to_send(metadata: &Option<String>) -> (r: Option<String>)
    ensures
        opt_text(r) == sent_metadata(opt_text(*metadata)),
{
    match metadata {
        Some(m) => if str_eq(m.as_str(), "null") {
            None
        } else {
            Some(m.clone())
        },
        None => None,
    }
}

fn measure_entry(id: &str, workspace: &str, meta: &SnapshotMeta) -> (r: u64)
    ensures
        r == entry_size(EntryView { id: id@, workspace: workspace@, meta: meta@ }),
{
    let metadata = metadata_to_send(&meta.metadata);
    entry_fields_size(
        (id, workspace),
        (&meta.message, &metadata),
        (meta.pinned, meta.missing),
        meta.created_at.to_rfc3339().as_str(),
        &meta.parent_id,
        &meta.child_ids,
    )
}

/// What a page request is about.
pub struct PageQuery {
    pub scope: Option<Seq<char>>,
    pub limit: nat,
    pub upper: KeyView,
    /// Whether there are more keys than are at hand.
    pub has_more: bool,
}

/// A page in the making.
pub struct PageDraft {
    pub entries: Seq<EntryView>,
    /// The cursor that continues after the last entry.
    pub cursor: Option<Seq<char>>,
}

/// What a page request is answered.
pub enum PageAnswer {
    /// Entries, and the cursor to continue with.
    Page { entries: Seq<EntryView>, cursor: Option<Seq<char>> },
    /// One entry that is too large to be sent in full.
    Summary { entry: EntryView, cursor: Option<Seq<char>> },
    /// One entry that is too large even so.
    TooLarge(KeyView),
}

/// What became of the keys at hand.
pub enum Filled {
    Answer(PageAnswer),
    /// All of them are on the page or gone; `invalidated` says whether some were gone.
    Exhausted { draft: PageDraft, invalidated: bool },
}

/// Whether a key is that of a snapshot that is there.
pub open spec fn is_current(by_id: Map<Seq<char>, WorkspaceView>, k: KeyView) -> bool {
    by_id.contains_key(k.ws_id) && is_key_of(by_id[k.ws_id], k)
}

/// The entry of a key.
pub open spec fn entry_at(by_id: Map<Seq<char>, WorkspaceView>, k: KeyView) -> EntryView {
    EntryView {
        id: k.id,
        workspace: by_id[k.ws_id].index.workspace_path,
        meta: by_id[k.ws_id].index.nodes[k.id],
    }
}

/// Fills a page with the entries of keys, in order. Keys whose snapshots are gone are passed
/// over. The page ends when it is full, when the next entry would take it over the byte budget,
/// or when the cursor after it would be too long. An entry that alone is over the frame limit is
/// summarised.
#[verifier::opaque]
pub open spec fn filled(
    by_id: Map<Seq<char>, WorkspaceView>,
    q: PageQuery,
    keys: Seq<KeyView>,
    draft: PageDraft,
    invalidated: bool,
) -> Filled
    decreases keys.len(),
{
    if keys.len() == 0 {
        Filled::Exhausted { draft, invalidated }
    } else {
        let k = keys[0];
        let rest = keys.drop_first();
        let e = entry_at(by_id, k);
        let done = PageAnswer::Page { entries: draft.entries, cursor: draft.cursor };
        let more = rest.len() > 0 || q.has_more || (invalidated && key_before(k, q.upper));
        let token = cursor_token(q.scope, k, q.upper);
        let cursor = if more {
            Some(token)
        } else {
            None
        };
        let total = entries_size(draft.entries) + entry_size(e) + envelope_size(cursor);
        if !is_current(by_id, k) {
            filled(by_id, q, rest, draft, true)
        } else if draft.entries.len() == q.limit {
            Filled::Answer(done)
        } else if more && token.len() > MAX_LIST_CURSOR_BYTES {
            if draft.entries.len() > 0 {
                Filled::Answer(done)
            } else {
                Filled::Answer(PageAnswer::TooLarge(k))
            }
        } else if draft.entries.len() > 0 && total > LIST_PAGE_TARGET_BYTES {
            Filled::Answer(done)
        } else if total > MAX_FRAME_SIZE {
            if summary_bytes(e, cursor) > MAX_FRAME_SIZE {
                Filled::Answer(PageAnswer::TooLarge(k))
            } else {
                Filled::Answer(PageAnswer::Summary { entry: e, cursor })
            }
        } else {
            filled(
                by_id,
                q,
                rest,
                PageDraft { entries: draft.entries.push(e), cursor },
                invalidated,
            )
        }
    }
}

/// The views of entries.
pub open spec fn entry_views(v: Seq<SnapshotEntry>) -> Seq<EntryView> {
    v.map_values(|e: SnapshotEntry| e@)
}

/// The first 128 characters of a text, quoted.
pub open spec fn shown_prefix(s: Seq<char>) -> Seq<char> {
    quoted_for_debugging(
        if s.len() > 128 {
            s.take(128)
        } else {
            s
        },
    )
}

/// The message about an entry that is too large even in summary.
pub open spec fn too_large_message(k: KeyView) -> Seq<char> {
    "snapshot identity/basic fields or its required cursor exceed the list budgets even without metadata (snapshot ID prefix "@
        + shown_prefix(k.id) + ", workspace ID prefix "@ + shown_prefix(k.ws_id)
        + "); no entry was skipped"@
}

/// Whether a response gives an answer.
pub open spec fn gives(r: Response, a: PageAnswer) -> bool {
    match a {
        PageAnswer::Page { entries, cursor } => r matches Response::ListPageOk {
            snapshots,
            next_cursor,
        } && entry_views(snapshots@) == entries && opt_text(next_cursor) == cursor,
        PageAnswer::Summary { entry, cursor } => r matches Response::ListPageSummaryOk {
            snapshot,
            next_cursor,
        } && snapshot.id@ == entry.id && snapshot.workspace@ == entry.workspace
            && snapshot.meta.pinned == entry.meta.pinned && snapshot.meta.created_at@
            == entry.meta.created_at && snapshot.meta.missing == entry.meta.missing && opt_text(
            next_cursor,
        ) == cursor,
        PageAnswer::TooLarge(k) => r.is_error(ErrorCode::ListEntryTooLarge, too_large_message(k)),
    }
}

fn page(snapshots: Vec<SnapshotEntry>, next_cursor: Option<String>) -> (r: Response)
    ensures
        gives(
            r,
            PageAnswer::Page { entries: entry_views(snapshots@), cursor: opt_text(next_cursor) },
        ),
{
    Response::ListPageOk { snapshots, next_cursor }
}

fn prefix_shown(s: &str) -> (r: String)
    ensures
        r@ == shown_prefix(s@),
{
    let v = chars_of(s);
    let n: usize = if v.len() > 128 {
        128
    } else {
        v.len()
    };
    let t = text_of(&v, 0, n);
    proof {
        assert(t@ =~= if s@.len() > 128 {
            s@.take(128)
        } else {
            s@
        });
    }
    debug_quote(t.as_str())
}

/// The error about an entry that is too large even in summary, whose identifiers are shown
/// quoted and shortened.
pub fn too_large_error(id_shown: &str, ws_id_shown: &str) -> (r: Response)
    ensures
        r.is_error(
            ErrorCode::ListEntryTooLarge,
            "snapshot identity/basic fields or its required cursor exceed the list budgets even without metadata (snapshot ID prefix "@
                + id_shown@ + ", workspace ID prefix "@ + ws_id_shown@
                + "); no entry was skipped"@,
        ),
{
    let mut m =
        "snapshot identity/basic fields or its required cursor exceed the list budgets even without metadata (snapshot ID prefix ".to_owned();
    m.append(id_shown);
    m.append(", workspace ID prefix ");
    m.append(ws_id_shown);
    m.append("); no entry was skipped");
    error_resp(ErrorCode::ListEntryTooLarge, m.as_str())
}

fn entry_too_large(key: &Key) -> (r: Response)
    ensures
        gives(r, PageAnswer::TooLarge(key@)),
{
    too_large_error(
        prefix_shown(key.id.as_str()).as_str(),
        prefix_shown(key.ws_id.as_str()).as_str(),
    )
}

/// A page in the making, or the answer.
enum Fill {
    Answer(Response),
    Exhausted { snapshots: Vec<SnapshotEntry>, next_cursor: Option<String>, invalidated: bool },
}

spec fn fill_is(f: Fill, v: Filled) -> bool {
    match v {
        Filled::Answer(a) => f matches Fill::Answer(r) && gives(r, a),
        Filled::Exhausted { draft, invalidated } => f matches Fill::Exhausted {
            snapshots,
            next_cursor,
            invalidated: i,
        } && entry_views(snapshots@) == draft.entries && opt_text(next_cursor) == draft.cursor
            && i == invalidated,
    }
}

proof fn lemma_entries_size_step(l: Seq<EntryView>, e: EntryView)
    ensures
        entries_size(l.push(e)) == entries_size(l) + entry_size(e),
{
    assert(l.push(e).drop_last() =~= l);
}

impl DaemonState {
    /// Fills a page with the entries of the keys at hand.
    fn fill(
        &self,
        scope: &Option<String>,
        limit: usize,
        upper: &Key,
        has_more: bool,
        keys: &Vec<Key>,
        before: (Vec<SnapshotEntry>, Option<String>),
    ) -> (r: Fill)
        requires
            entries_size(entry_views(before.0@)) <= MAX_FRAME_SIZE,
            before.0@.len() <= limit,
        ensures
            fill_is(
                r,
                filled(
                    self.registry@.by_id,
                    PageQuery {
                        scope: opt_text(*scope),
                        limit: limit as nat,
                        upper: upper@,
                        has_more,
                    },
                    key_views(keys@),
                    PageDraft { entries: entry_views(before.0@), cursor: opt_text(before.1) },
                    false,
                ),
            ),
            r matches Fill::Exhausted { snapshots, .. } ==> entries_size(entry_views(snapshots@))
                <= MAX_FRAME_SIZE && before.0@.len() <= snapshots@.len() <= limit,
    {
        let ghost by_id = self.registry@.by_id;
        let ghost q = PageQuery {
            scope: opt_text(*scope),
            limit: limit as nat,
            upper: upper@,
            has_more,
        };
        let ghost all = key_views(keys@);
        let ghost first = PageDraft {
            entries: entry_views(before.0@),
            cursor: opt_text(before.1),
        };
        let ghost goal = filled(by_id, q, all, first, false);
        let ghost had = before.0@.len();
        let (snapshots0, cursor0) = before;
        let mut snapshots = snapshots0;
        let mut next_cursor = cursor0;
        let mut entries_bytes: u64 = 0;
        let mut n: usize = 0;
        proof {
            assert(entry_views(snapshots@).take(0) =~= Seq::<EntryView>::empty());
        }
        while n < snapshots.len()
            invariant
                n <= snapshots@.len(),
                entries_bytes == entries_size(entry_views(snapshots@).take(n as int)),
                entries_size(entry_views(snapshots@)) <= MAX_FRAME_SIZE,
            decreases snapshots@.len() - n,
        {
            let e = &snapshots[n];
            proof {
                let v = entry_views(snapshots@);
                assert(v.take(n + 1) =~= v.take(n as int).push(v[n as int]));
                lemma_entries_size_step(v.take(n as int), v[n as int]);
                lemma_entries_size_grows(v, n + 1);
            }
            entries_bytes = entries_bytes + measure_entry(
                e.id.as_str(),
                e.workspace.as_str(),
                &e.meta,
            );
            n = n + 1;
        }
        proof {
            assert(entry_views(snapshots@).take(snapshots@.len() as int) =~= entry_views(
                snapshots@,
            ));
            assert(all.skip(0) =~= all);
        }
        let mut invalidated = false;
        let mut i: usize = 0;
        while i < keys.len()
            invariant
                i <= keys@.len(),
                all == key_views(keys@),
                by_id == self.registry@.by_id,
                q == (PageQuery {
                    scope: opt_text(*scope),
                    limit: limit as nat,
                    upper: upper@,
                    has_more,
                }),
                first == (PageDraft {
                    entries: entry_views(before.0@),
                    cursor: opt_text(before.1),
                }),
                had == before.0@.len(),
                goal == filled(by_id, q, all, first, false),
                had <= snapshots@.len() <= limit,
                entries_bytes == entries_size(entry_views(snapshots@)),
                entries_bytes <= MAX_FRAME_SIZE,
                goal == filled(
                    by_id,
                    q,
                    all.skip(i as int),
                    PageDraft {
                        entries: entry_views(snapshots@),
                        cursor: opt_text(next_cursor),
                    },
                    invalidated,
                ),
            decreases keys@.len() - i,
        {
            let key = &keys[i];
            let ghost now = all.skip(i as int);
            let ghost k = key@;
            proof {
                assert(now[0] == k);
                assert(now.drop_first() =~= all.skip(i + 1));
                reveal(filled);
            }
            let found = match self.registry.get_by_wsid(key.ws_id.as_str()) {
                None => None,
                Some(w) => match w.index.snapshots.get(key.id.as_str()) {
                    None => None,
                    Some(meta) => if meta.created_at.same(&key.created_at) {
                        Some((w, meta))
                    } else {
                        None
                    },
                },
            };
            let (w, meta) = match found {
                None => {
                    proof {
                        assert(!is_current(by_id, k));
                    }
                    invalidated = true;
                    i = i + 1;
                    continue;
                },
                Some(f) => f,
            };
            proof {
                assert(is_current(by_id, k));
            }
            let ghost e = entry_at(by_id, k);
            if snapshots.len() == limit {
                return Fill::Answer(page(snapshots, next_cursor));
            }
            let more = i + 1 < keys.len() || has_more || (invalidated && key.is_before(upper));
            let candidate_cursor = if more {
                let token = encode_cursor(scope, key, upper);
                proof {
                    crate::digest::lemma_hex_reads_back(
                        encode_utf8(cursor_json(q.scope, k, q.upper)),
                    );
                    lemma_hex_is_ascii(token@);
                }
                if token.as_str().as_bytes().len() > MAX_LIST_CURSOR_BYTES {
                    if snapshots.len() > 0 {
                        return Fill::Answer(page(snapshots, next_cursor));
                    }
                    return Fill::Answer(entry_too_large(key));
                }
                Some(token)
            } else {
                None
            };
            let ghost cv = opt_text(candidate_cursor);
            let workspace = w.index.workspace_path.as_str();
            let entry_bytes: u64 = measure_entry(key.id.as_str(), workspace, meta);
            let envelope: u64 = empty_page_size(PAGE_VARIANT, &candidate_cursor);
            let ghost total = entries_size(entry_views(snapshots@)) + entry_size(e) + envelope_size(
                cv,
            );
            proof {
                assert(e == (EntryView { id: key.id@, workspace: workspace@, meta: meta@ }));
                assert(entry_bytes == entry_size(e));
                assert(envelope == envelope_size(cv));
            }
            let sum: Option<u64> = match entries_bytes.checked_add(entry_bytes) {
                Some(s) => s.checked_add(envelope),
                None => None,
            };
            let over_target = match sum {
                Some(s) => s > LIST_PAGE_TARGET_BYTES,
                None => true,
            };
            let over_frame = match sum {
                Some(s) => s > MAX_FRAME_SIZE as u64,
                None => true,
            };
            proof {
                assert(over_target == (total > LIST_PAGE_TARGET_BYTES));
                assert(over_frame == (total > MAX_FRAME_SIZE));
            }
            if snapshots.len() > 0 && over_target {
                return Fill::Answer(page(snapshots, next_cursor));
            }
            if over_frame {
                let summary: u64 = summary_size(
                    SUMMARY_VARIANT,
                    (key.id.as_str(), workspace),
                    (meta.pinned, meta.missing),
                    meta.created_at.to_rfc3339().as_str(),
                    &candidate_cursor,
                );
                proof {
                    assert(summary == summary_bytes(e, cv));
                }
                if summary > MAX_FRAME_SIZE as u64 {
                    return Fill::Answer(entry_too_large(key));
                }
                return Fill::Answer(
                    Response::ListPageSummaryOk {
                        snapshot: SnapshotSummary {
                            id: key.id.clone(),
                            workspace: workspace.to_owned(),
                            meta: SnapshotSummaryMeta {
                                pinned: meta.pinned,
                                created_at: meta.created_at,
                                missing: meta.missing,
                            },
                        },
                        next_cursor: candidate_cursor,
                    },
                );
            }
            let ghost views = entry_views(snapshots@);
            snapshots.push(
                SnapshotEntry {
                    id: key.id.clone(),
                    workspace: workspace.to_owned(),
                    meta: meta.duplicate(),
                },
            );
            proof {
                assert(entry_views(snapshots@) =~= views.push(e));
                lemma_entries_size_step(views, e);
            }
            entries_bytes = entries_bytes + entry_bytes;
            next_cursor = candidate_cursor;
            i = i + 1;
        }
        proof {
            assert(all.skip(all.len() as int) =~= Seq::<KeyView>::empty());
            reveal(filled);
        }
        Fill::Exhausted { snapshots, next_cursor, invalidated }
    }

    /// Collects a page from the keys selected for it. Keys whose snapshots have gone since are
    /// replaced by the ones that come next.
    pub fn collect_page(
        &self,
        scope: Option<String>,
        limit: usize,
        after: Option<Key>,
        candidates: Candidates,
    ) -> (r: Response)
        requires
            limit < usize::MAX,
        ensures
            collected(
                self.registry@.by_id,
                opt_text(scope),
                limit as nat,
                opt_key(after),
                candidates,
                r,
            ),
    {
        let ghost by_id = self.registry@.by_id;
        proof {
            assert(entry_views(Seq::<SnapshotEntry>::empty()) =~= Seq::<EntryView>::empty());
        }
        let upper = match candidates.upper {
            Some(u) => u,
            None => {
                return page(Vec::new(), None);
            },
        };
        let keys = candidates.keys;
        let (snapshots, next_cursor, invalidated) = match self.fill(
            &scope,
            limit,
            &upper,
            candidates.has_more,
            &keys,
            (Vec::new(), None),
        ) {
            Fill::Answer(r) => {
                return r;
            },
            Fill::Exhausted { snapshots, next_cursor, invalidated } => (
                snapshots,
                next_cursor,
                invalidated,
            ),
        };
        if !candidates.has_more && !invalidated {
            return page(snapshots, None);
        }
        let ghost draft = PageDraft {
            entries: entry_views(snapshots@),
            cursor: opt_text(next_cursor),
        };
        let after = if keys.len() > 0 {
            Some(keys[keys.len() - 1].copy())
        } else {
            after
        };
        proof {
            if keys@.len() > 0 {
                assert(key_views(keys@).last() == keys@[keys@.len() - 1]@);
            }
        }
        let scope_ref = match &scope {
            Some(s) => Some(s.as_str()),
            None => None,
        };
        let after_ref = match &after {
            Some(k) => Some(k),
            None => None,
        };
        let capacity: usize = limit - snapshots.len() + 1;
        let second = self.select_candidates(scope_ref, after_ref, Some(&upper), capacity);
        let ghost sv = opt_text(scope);
        let ghost av = opt_key(after);
        let ghost all = eligible(by_id, sv, av, Some(upper@));
        let ghost more = key_views(second.keys@);
        let ghost q = PageQuery {
            scope: sv,
            limit: limit as nat,
            upper: upper@,
            has_more: second.has_more,
        };
        proof {
            assert forall|i: int| 0 <= i < more.len() implies is_current(by_id, #[trigger] more[i]) by {
                assert(all.contains(more[i]));
            }
            lemma_fresh_fill(by_id, q, more, draft);
        }
        let r = match self.fill(
            &scope,
            limit,
            &upper,
            second.has_more,
            &second.keys,
            (snapshots, next_cursor),
        ) {
            Fill::Answer(r) => r,
            Fill::Exhausted { snapshots, .. } => page(snapshots, None),
        };
        proof {
            let a = settled(filled(by_id, q, more, draft, false));
            assert(refilled(by_id, sv, limit as nat, av, upper@, draft, a)) by {
                assert(are_first(more, all, room(limit as nat, draft.entries.len())));
            }
            assert(gives(r, a));
            assert(gives_refill(by_id, sv, limit as nat, av, upper@, draft, r));
        }
        r
    }

    /// Answers a request for a page. `canonical` is where the workspace text leads as a path,
    /// `facts` what the file system shows of the registration of the workspace asked for, and
    /// `cursor` what was read of the request's cursor.
    pub fn list_page(
        &self,
        workspace: Option<&str>,
        canonical: Option<&str>,
        facts: &RegistrationFacts,
        limit: u32,
        cursor: CursorInput,
    ) -> (r: Response)
        ensures
            page_answer(
                self.registry@,
                opt_str(workspace),
                opt_str(canonical),
                *facts,
                limit,
                cursor,
                r,
            ),
    {
        if limit == 0 || limit > MAX_LIST_PAGE_LIMIT {
            return error_resp(
                ErrorCode::InvalidListRequest,
                "list page limit must be between 1 and 1000",
            );
        }
        let scope = match workspace {
            Some(text) => {
                let w = match self.resolve_workspace(text, canonical) {
                    Some(w) => w,
                    None => {
                        return workspace_not_found_error(text);
                    },
                };
                if let Some(e) = detached_registration_error(w, facts) {
                    return e;
                }
                Some(w.ws_id.clone())
            },
            None => None,
        };
        let scope_ref = match &scope {
            Some(s) => Some(s.as_str()),
            None => None,
        };
        let accepted = match cursor {
            CursorInput::Absent => None,
            CursorInput::Malformed => {
                return error_resp(
                    ErrorCode::InvalidListCursor,
                    "invalid list cursor or workspace scope mismatch",
                );
            },
            CursorInput::Parsed(c) => match c.accept(scope_ref) {
                Some(c) => Some(c),
                None => {
                    return error_resp(
                        ErrorCode::InvalidListCursor,
                        "invalid list cursor or workspace scope mismatch",
                    );
                },
            },
        };
        let (after, upper) = match accepted {
            Some(c) => (Some(c.after), Some(c.upper)),
            None => (None, None),
        };
        let after_ref = match &after {
            Some(k) => Some(k),
            None => None,
        };
        let upper_ref = match &upper {
            Some(k) => Some(k),
            None => None,
        };
        let candidates = self.select_candidates(scope_ref, after_ref, upper_ref, limit as usize + 1);
        let ghost by_id = self.registry@.by_id;
        let ghost cg = candidates;
        proof {
            lemma_collected_fresh(
                by_id,
                opt_text(scope),
                limit as nat,
                opt_key(after),
                opt_key(upper),
                cg,
            );
        }
        self.collect_page(scope, limit as usize, after, candidates)
    }
}

/// What was read of a request's cursor.
pub enum CursorInput {
    /// The request has no cursor.
    Absent,
    /// The cursor cannot be read.
    Malformed,
    /// What the cursor says.
    Parsed(Cursor),
}

/// The answer that filling a page leads to, where there are no more keys.
pub open spec fn settled(f: Filled) -> PageAnswer {
    match f {
        Filled::Answer(a) => a,
        Filled::Exhausted { draft, .. } => PageAnswer::Page {
            entries: draft.entries,
            cursor: None,
        },
    }
}

/// How many keys to select for a page that holds `used` entries: one more than fit on it.
pub open spec fn room(limit: nat, used: nat) -> nat {
    (limit - used + 1) as nat
}

/// Whether `a` is the answer that filling a page up with the keys that come next leads to.
pub open spec fn refilled(
    by_id: Map<Seq<char>, WorkspaceView>,
    scope: Option<Seq<char>>,
    limit: nat,
    after: Option<KeyView>,
    upper: KeyView,
    draft: PageDraft,
    a: PageAnswer,
) -> bool {
    let all = eligible(by_id, scope, after, Some(upper));
    exists|keys: Seq<KeyView>| #[trigger]
        are_first(keys, all, room(limit, draft.entries.len())) && a == settled(
            filled(
                by_id,
                PageQuery { scope, limit, upper, has_more: leaves_some(keys, all) },
                keys,
                draft,
                false,
            ),
        )
}

/// Whether a response gives the page that was filled up.
pub open spec fn gives_refill(
    by_id: Map<Seq<char>, WorkspaceView>,
    scope: Option<Seq<char>>,
    limit: nat,
    after: Option<KeyView>,
    upper: KeyView,
    draft: PageDraft,
    r: Response,
) -> bool {
    exists|a: PageAnswer| #[trigger]
        refilled(by_id, scope, limit, after, upper, draft, a) && gives(r, a)
}

/// Whether a response gives a page of a state at rest.
pub open spec fn gives_page(
    by_id: Map<Seq<char>, WorkspaceView>,
    scope: Option<Seq<char>>,
    limit: nat,
    after: Option<KeyView>,
    upper: Option<KeyView>,
    r: Response,
) -> bool {
    exists|a: PageAnswer| #[trigger] paged(by_id, scope, limit, after, upper, a) && gives(r, a)
}

/// What collecting a page from selected keys gives. Where some of their snapshots have gone
/// since, or more was announced than is at hand, the page is filled up with the keys that come
/// next.
pub open spec fn collected(
    by_id: Map<Seq<char>, WorkspaceView>,
    scope: Option<Seq<char>>,
    limit: nat,
    after: Option<KeyView>,
    c: Candidates,
    r: Response,
) -> bool {
    let keys = key_views(c.keys@);
    let next = if keys.len() > 0 {
        Some(keys.last())
    } else {
        after
    };
    let nothing = PageDraft { entries: Seq::empty(), cursor: None };
    match c.upper {
        None => gives(r, PageAnswer::Page { entries: Seq::empty(), cursor: None }),
        Some(u) => match filled(
            by_id,
            PageQuery { scope, limit, upper: u@, has_more: c.has_more },
            keys,
            nothing,
            false,
        ) {
            Filled::Answer(a) => gives(r, a),
            Filled::Exhausted { draft, invalidated } => if !c.has_more && !invalidated {
                gives(r, PageAnswer::Page { entries: draft.entries, cursor: None })
            } else {
                gives_refill(by_id, scope, limit, next, u@, draft, r)
            },
        },
    }
}

/// What a page request is answered from a state at rest: the page is filled with the first
/// `limit` of the keys in scope that come after the cursor, up to the end of the traversal. On
/// the first page that end is the largest key there is.
pub open spec fn paged(
    by_id: Map<Seq<char>, WorkspaceView>,
    scope: Option<Seq<char>>,
    limit: nat,
    after: Option<KeyView>,
    upper: Option<KeyView>,
    a: PageAnswer,
) -> bool {
    let all = eligible(by_id, scope, after, upper);
    if upper is None && forall|k: KeyView| !listed(by_id, scope, k) {
        a == PageAnswer::Page { entries: Seq::empty(), cursor: None }
    } else {
        exists|keys: Seq<KeyView>, u: KeyView| #[trigger]
            starts(by_id, scope, limit, after, upper, keys, u) && a == settled(
                filled(
                    by_id,
                    PageQuery { scope, limit, upper: u, has_more: leaves_some(keys, all) },
                    keys,
                    PageDraft { entries: Seq::empty(), cursor: None },
                    false,
                ),
            )
    }
}

/// The keys that a page starts from, one more than fit on it, and the end of the traversal.
pub open spec fn starts(
    by_id: Map<Seq<char>, WorkspaceView>,
    scope: Option<Seq<char>>,
    limit: nat,
    after: Option<KeyView>,
    upper: Option<KeyView>,
    keys: Seq<KeyView>,
    u: KeyView,
) -> bool {
    &&& are_first(keys, eligible(by_id, scope, after, upper), limit + 1)
    &&& match upper {
        Some(x) => u == x,
        None => crate::listing::is_last_key(by_id, scope, u),
    }
}

/// What a page request is answered.
pub open spec fn page_answer(
    v: RegistryView,
    workspace: Option<Seq<char>>,
    canonical: Option<Seq<char>>,
    facts: RegistrationFacts,
    limit: u32,
    cursor: CursorInput,
    r: Response,
) -> bool {
    let target = resolved_workspace(v, workspace->0, canonical);
    let scope = match workspace {
        Some(_) => Some(target->0.ws_id),
        None => None,
    };
    let refused = match cursor {
        CursorInput::Absent => false,
        CursorInput::Malformed => true,
        CursorInput::Parsed(c) => !continues(c, scope),
    };
    let (after, upper) = match cursor {
        CursorInput::Parsed(c) => (Some(c.after@), Some(c.upper@)),
        _ => (None, None),
    };
    if limit == 0 || limit > MAX_LIST_PAGE_LIMIT {
        r.is_error(
            ErrorCode::InvalidListRequest,
            "list page limit must be between 1 and 1000"@,
        )
    } else if workspace is Some && target is None {
        r.is_error(ErrorCode::WorkspaceNotFound, not_found_message(workspace->0))
    } else if workspace is Some && !facts.live() {
        r.is_error(
            ErrorCode::InternalError,
            detached_message(target->0.ws_id, target->0.path, facts.kind),
        )
    } else if refused {
        r.is_error(
            ErrorCode::InvalidListCursor,
            "invalid list cursor or workspace scope mismatch"@,
        )
    } else {
        gives_page(v.by_id, scope, limit as nat, after, upper, r)
    }
}

/// Where all snapshots are there, a page that leaves no key over has room for all of them, and
/// none counts as gone.
pub proof fn lemma_fresh_fill(
    by_id: Map<Seq<char>, WorkspaceView>,
    q: PageQuery,
    keys: Seq<KeyView>,
    draft: PageDraft,
)
    requires
        forall|i: int| 0 <= i < keys.len() ==> is_current(by_id, #[trigger] keys[i]),
        draft.entries.len() <= q.limit,
    ensures
        filled(by_id, q, keys, draft, false) matches Filled::Exhausted { draft: d, invalidated }
            ==> !invalidated && d.entries.len() == draft.entries.len() + keys.len()
            && d.entries.len() <= q.limit,
    decreases keys.len(),
{
    reveal(filled);
    if keys.len() > 0 && draft.entries.len() < q.limit {
        let k = keys[0];
        let rest = keys.drop_first();
        let e = entry_at(by_id, k);
        assert(is_current(by_id, keys[0]));
        assert forall|i: int| 0 <= i < rest.len() implies is_current(by_id, #[trigger] rest[i]) by {
            assert(rest[i] == keys[i + 1]);
        }
        let more = rest.len() > 0 || q.has_more;
        let cursor = if more {
            Some(cursor_token(q.scope, k, q.upper))
        } else {
            None
        };
        lemma_fresh_fill(by_id, q, rest, PageDraft { entries: draft.entries.push(e), cursor });
    } else if keys.len() > 0 {
        assert(is_current(by_id, keys[0]));
    }
}

proof fn lemma_collected_fresh(
    by_id: Map<Seq<char>, WorkspaceView>,
    scope: Option<Seq<char>>,
    limit: nat,
    after: Option<KeyView>,
    upper: Option<KeyView>,
    c: Candidates,
)
    requires
        selects(by_id, scope, after, upper, limit + 1, c),
    ensures
        forall|r: Response| #[trigger]
            collected(by_id, scope, limit, after, c, r) ==> gives_page(
                by_id,
                scope,
                limit,
                after,
                upper,
                r,
            ),
{
    let all = eligible(by_id, scope, after, upper);
    let keys = key_views(c.keys@);
    assert forall|r: Response| #[trigger]
        collected(by_id, scope, limit, after, c, r) implies gives_page(
        by_id,
        scope,
        limit,
        after,
        upper,
        r,
    ) by {
        match c.upper {
            None => {
                assert(paged(
                    by_id,
                    scope,
                    limit,
                    after,
                    upper,
                    PageAnswer::Page { entries: Seq::empty(), cursor: None },
                ));
            },
            Some(u) => {
                let q = PageQuery { scope, limit, upper: u@, has_more: c.has_more };
                let nothing = PageDraft { entries: Seq::empty(), cursor: None };
                let f = filled(by_id, q, keys, nothing, false);
                assert forall|i: int| 0 <= i < keys.len() implies is_current(
                    by_id,
                    #[trigger] keys[i],
                ) by {
                    assert(all.contains(keys[i]));
                }
                lemma_fresh_fill(by_id, q, keys, nothing);
                if f is Exhausted && c.has_more {
                    assert(leaves_some(keys, all));
                    let k = choose|k: KeyView| #[trigger] all.contains(k) && !keys.contains(k);
                    assert(keys.len() == limit + 1);
                }
                assert(starts(by_id, scope, limit, after, upper, keys, u@));
                assert(!(upper is None && forall|k: KeyView| !listed(by_id, scope, k))) by {
                    if upper is None {
                        assert(listed(by_id, scope, u@));
                    }
                }
                assert(paged(by_id, scope, limit, after, upper, settled(f)));
            },
        }
    }
}

proof fn lemma_entries_size_grows(l: Seq<EntryView>, n: int)
    requires
        0 <= n <= l.len(),
    ensures
        entries_size(l.take(n)) <= entries_size(l),
    decreases l.len() - n,
{
    if n == l.len() {
        assert(l.take(n) =~= l);
    } else {
        assert(l.take(n + 1).drop_last() =~= l.take(n));
        lemma_entries_size_grows(l, n + 1);
    }
}

proof fn lemma_hex_is_ascii(t: Seq<char>)
    requires
        forall|i: int| 0 <= i < t.len() ==> crate::digest::is_lower_hex_digit(#[trigger] t[i]),
    ensures
        encode_utf8(t).len() == t.len(),
{
    assert(vstd::utf8::is_ascii_chars(t)) by {
        assert forall|i: int| 0 <= i < t.len() implies (t[i] as u32) < 128 by {
            assert(crate::digest::is_lower_hex_digit(t[i]));
        }
    }
    vstd::utf8::is_ascii_chars_encode_utf8(t);
}

} // verus!
