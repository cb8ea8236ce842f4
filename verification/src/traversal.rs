//! What following the cursors of pages gives: every snapshot once, in order.

use crate::frame::MAX_FRAME_SIZE;
use crate::listing::{
    are_first, ascending_keys, comes_after, eligible, is_last_key, key_before,
    lemma_key_order_total, lemma_key_order_transitive, leaves_some, listed, KeyView,
    LIST_PAGE_TARGET_BYTES,
};
use crate::message::Response;
use crate::pages::{
    cursor_token, entries_size, entry_at, entry_size, entry_views, envelope_size, filled, gives,
    is_current, page_answer, paged, settled, starts, CursorInput, PageAnswer, PageDraft, PageQuery,
};
use crate::registry::{RegistryView, WorkspaceView};
use crate::snapshot::{EntryView, TimeView};
use crate::state::{resolved_workspace, RegistrationFacts};
use crate::text_list::opt_text;
use vstd::prelude::*;

verus! {

/// The cursor that continues after the `n`-th of the keys at hand; none where nothing is left.
pub open spec fn cursor_after(q: PageQuery, keys: Seq<KeyView>, n: int) -> Option<Seq<char>> {
    if n < keys.len() || q.has_more {
        Some(cursor_token(q.scope, keys[n - 1], q.upper))
    } else {
        None
    }
}

/// The entries of the first `n` keys.
pub open spec fn first_entries(
    by_id: Map<Seq<char>, WorkspaceView>,
    keys: Seq<KeyView>,
    n: int,
) -> Seq<EntryView> {
    Seq::new(n as nat, |i: int| entry_at(by_id, keys[i]))
}

/// Whether an answer takes the next keys, without a gap: a page holds the entries of the first
/// keys and says with its cursor whether and where to go on; a summary, or a refusal, is about
/// the very first.
pub open spec fn takes_next(
    by_id: Map<Seq<char>, WorkspaceView>,
    q: PageQuery,
    keys: Seq<KeyView>,
    a: PageAnswer,
) -> bool {
    match a {
        PageAnswer::Page { entries, cursor } => {
            let n = entries.len() as int;
            &&& n <= q.limit
            &&& n <= keys.len()
            &&& entries == first_entries(by_id, keys, n)
            &&& keys.len() > 0 ==> n > 0 && cursor == cursor_after(q, keys, n)
            &&& keys.len() == 0 ==> cursor is None
            &&& n > 0 ==> entries_size(entries) + envelope_size(cursor) <= MAX_FRAME_SIZE
            &&& n > 1 ==> entries_size(entries) + envelope_size(cursor) <= LIST_PAGE_TARGET_BYTES
        },
        PageAnswer::Summary { entry, cursor } => keys.len() > 0 && entry == entry_at(by_id, keys[0])
            && cursor == cursor_after(q, keys, 1),
        PageAnswer::TooLarge(k) => keys.len() > 0 && k == keys[0],
    }
}

/// A page that is filled from a state at rest takes the next keys without a gap, and keeps to
/// its budgets: more than one entry only within the target, and one entry only within a frame.
pub proof fn lemma_page_takes_next(
    by_id: Map<Seq<char>, WorkspaceView>,
    q: PageQuery,
    keys: Seq<KeyView>,
)
    requires
        forall|i: int| 0 <= i < keys.len() ==> is_current(by_id, #[trigger] keys[i]),
        q.limit >= 1,
        q.has_more ==> keys.len() > q.limit,
    ensures
        takes_next(
            by_id,
            q,
            keys,
            settled(
                filled(
                    by_id,
                    q,
                    keys,
                    PageDraft { entries: Seq::empty(), cursor: None },
                    false,
                ),
            ),
        ),
{
    assert(first_entries(by_id, keys, 0) =~= Seq::<EntryView>::empty());
    assert(keys.skip(0) =~= keys);
    lemma_fill_from(by_id, q, keys, 0, PageDraft { entries: Seq::empty(), cursor: None });
}

proof fn lemma_fill_from(
    by_id: Map<Seq<char>, WorkspaceView>,
    q: PageQuery,
    keys: Seq<KeyView>,
    n: int,
    draft: PageDraft,
)
    requires
        forall|i: int| 0 <= i < keys.len() ==> is_current(by_id, #[trigger] keys[i]),
        q.limit >= 1,
        q.has_more ==> keys.len() > q.limit,
        0 <= n <= keys.len(),
        n <= q.limit,
        draft.entries == first_entries(by_id, keys, n),
        n > 0 ==> draft.cursor == cursor_after(q, keys, n),
        n == 0 ==> draft.cursor is None,
        n > 0 ==> entries_size(draft.entries) + envelope_size(draft.cursor) <= MAX_FRAME_SIZE,
        n > 1 ==> entries_size(draft.entries) + envelope_size(draft.cursor)
            <= LIST_PAGE_TARGET_BYTES,
    ensures
        takes_next(by_id, q, keys, settled(filled(by_id, q, keys.skip(n), draft, false))),
    decreases keys.len() - n,
{
    reveal(filled);
    let rest = keys.skip(n);
    if n < keys.len() {
        let k = keys[n];
        assert(rest[0] == k);
        assert(is_current(by_id, keys[n]));
        assert(rest.drop_first() =~= keys.skip(n + 1));
        if n < q.limit {
            let e = entry_at(by_id, k);
            let more = rest.drop_first().len() > 0 || q.has_more;
            let cursor = if more {
                Some(cursor_token(q.scope, k, q.upper))
            } else {
                None
            };
            assert(cursor == cursor_after(q, keys, n + 1));
            let next = PageDraft { entries: draft.entries.push(e), cursor };
            assert(next.entries =~= first_entries(by_id, keys, n + 1));
            assert(next.entries.drop_last() =~= draft.entries);
            let total = entries_size(draft.entries) + entry_size(e) + envelope_size(cursor);
            if !(n > 0 && total > LIST_PAGE_TARGET_BYTES) && total <= MAX_FRAME_SIZE {
                lemma_fill_from(by_id, q, keys, n + 1, next);
            }
        }
    }
}

/// After a page that took the first `n` of the eligible keys, what its cursor leads to is the
/// eligible keys without them: nothing is skipped and nothing comes twice.
pub proof fn lemma_continuation_is_the_rest(
    by_id: Map<Seq<char>, WorkspaceView>,
    scope: Option<Seq<char>>,
    after: Option<KeyView>,
    upper: KeyView,
    capacity: nat,
    keys: Seq<KeyView>,
    n: int,
)
    requires
        are_first(keys, eligible(by_id, scope, after, Some(upper)), capacity),
        0 < n <= keys.len(),
    ensures
        forall|k: KeyView| #[trigger]
            eligible(by_id, scope, Some(keys[n - 1]), Some(upper)).contains(k) <==> eligible(
                by_id,
                scope,
                after,
                Some(upper),
            ).contains(k) && !keys.take(n).contains(k),
{
    let before = eligible(by_id, scope, after, Some(upper));
    let rest = eligible(by_id, scope, Some(keys[n - 1]), Some(upper));
    let last = keys[n - 1];
    assert(before.contains(last));
    assert forall|k: KeyView| #[trigger] rest.contains(k) <==> before.contains(k) && !keys.take(
        n,
    ).contains(k) by {
        if rest.contains(k) {
            if after is Some {
                lemma_key_order_transitive(after->0, last, k);
            }
            if keys.take(n).contains(k) {
                let i = keys.take(n).index_of(k);
                assert(keys[i] == k);
                lemma_key_order_total(last, k);
                if i < n - 1 {
                    assert(key_before(keys[i], keys[n - 1]));
                }
            }
        }
        if before.contains(k) && !keys.take(n).contains(k) {
            if keys.contains(k) {
                let i = keys.index_of(k);
                if i < n {
                    assert(keys.take(n)[i] == k);
                } else {
                    assert(key_before(keys[n - 1], keys[i]));
                }
            } else {
                assert(comes_after(keys, k));
            }
        }
    }
}

/// The end that a first page fixes for the traversal leaves nothing out: everything there is to
/// list lies before it or is it.
pub proof fn lemma_first_page_sees_all(
    by_id: Map<Seq<char>, WorkspaceView>,
    scope: Option<Seq<char>>,
    upper: KeyView,
)
    requires
        is_last_key(by_id, scope, upper),
    ensures
        forall|k: KeyView| #[trigger]
            listed(by_id, scope, k) ==> eligible(by_id, scope, None, Some(upper)).contains(k),
        eligible(by_id, scope, None, Some(upper)) == eligible(by_id, scope, None, None),
{
    let a = eligible(by_id, scope, None, Some(upper));
    let b = eligible(by_id, scope, None, None);
    assert forall|k: KeyView| #[trigger] listed(by_id, scope, k) implies a.contains(k) by {
        lemma_key_order_total(k, upper);
    }
    assert(a =~= b);
}

/// Whether `all` are the keys of a set, in the order of pages.
pub open spec fn in_order(all: Seq<KeyView>, set: Set<KeyView>) -> bool {
    &&& ascending_keys(all)
    &&& forall|k: KeyView| #[trigger] set.contains(k) <==> all.contains(k)
}

/// The keys that a page starts from that comes after the first `p` of all keys: one more than
/// fit on it.
pub open spec fn keys_from(all: Seq<KeyView>, limit: nat, p: int) -> Seq<KeyView> {
    if p + limit + 1 < all.len() {
        all.subrange(p, p + limit + 1)
    } else {
        all.skip(p)
    }
}

/// What is asked of a page that comes after the first `p` of all keys.
pub open spec fn query_from(
    scope: Option<Seq<char>>,
    limit: nat,
    upper: KeyView,
    all: Seq<KeyView>,
    p: int,
) -> PageQuery {
    PageQuery { scope, limit, upper, has_more: p + limit + 1 < all.len() }
}

/// The page that comes after the first `p` of all keys.
pub open spec fn page_from(
    by_id: Map<Seq<char>, WorkspaceView>,
    scope: Option<Seq<char>>,
    limit: nat,
    upper: KeyView,
    all: Seq<KeyView>,
    p: int,
) -> PageAnswer {
    settled(
        filled(
            by_id,
            query_from(scope, limit, upper, all, p),
            keys_from(all, limit, p),
            PageDraft { entries: Seq::empty(), cursor: None },
            false,
        ),
    )
}

proof fn lemma_position(all: Seq<KeyView>, i: int, j: int)
    requires
        ascending_keys(all),
        0 <= i < all.len(),
        0 <= j < all.len(),
    ensures
        key_before(all[i], all[j]) <==> i < j,
        all[i] == all[j] <==> i == j,
{
    lemma_key_order_total(all[i], all[j]);
    if i < j {
        assert(key_before(all[i], all[j]));
    } else if j < i {
        assert(key_before(all[j], all[i]));
    }
}

proof fn lemma_eligible_from(
    by_id: Map<Seq<char>, WorkspaceView>,
    scope: Option<Seq<char>>,
    upper: KeyView,
    all: Seq<KeyView>,
    p: int,
)
    requires
        in_order(all, eligible(by_id, scope, None, Some(upper))),
        0 < p <= all.len(),
    ensures
        in_order(all.skip(p), eligible(by_id, scope, Some(all[p - 1]), Some(upper))),
{
    let set = eligible(by_id, scope, None, Some(upper));
    let rest = eligible(by_id, scope, Some(all[p - 1]), Some(upper));
    let tail = all.skip(p);
    assert forall|k: KeyView| #[trigger] rest.contains(k) <==> tail.contains(k) by {
        if rest.contains(k) {
            assert(set.contains(k));
            let j = choose|j: int| 0 <= j < all.len() && all[j] == k;
            lemma_position(all, p - 1, j);
            assert(tail[j - p] == k);
        }
        if tail.contains(k) {
            let j = choose|j: int| 0 <= j < tail.len() && tail[j] == k;
            assert(all[p + j] == k);
            assert(set.contains(all[p + j]));
            lemma_position(all, p - 1, p + j);
        }
    }
    assert forall|i: int, j: int| 0 <= i < j < tail.len() implies key_before(
        #[trigger] tail[i],
        #[trigger] tail[j],
    ) by {
        assert(key_before(all[p + i], all[p + j]));
    }
}

proof fn lemma_first_keys_are_unique(
    keys: Seq<KeyView>,
    all: Seq<KeyView>,
    set: Set<KeyView>,
    capacity: nat,
)
    requires
        in_order(all, set),
        are_first(keys, set, capacity),
    ensures
        keys == if capacity < all.len() {
            all.take(capacity as int)
        } else {
            all
        },
        leaves_some(keys, set) == (capacity < all.len()),
{
    lemma_keys_agree(keys, all, set, capacity, keys.len() as int);
    let n = if capacity < all.len() {
        capacity
    } else {
        all.len()
    };
    if keys.len() < n {
        let k = all[keys.len() as int];
        assert(set.contains(k));
        assert(keys.contains(k));
        let m = choose|m: int| 0 <= m < keys.len() && keys[m] == k;
        lemma_position(all, m, keys.len() as int);
    }
    if all.len() < keys.len() {
        let k = keys[all.len() as int];
        assert(set.contains(k));
    }
    assert(keys =~= all.take(n as int));
    assert(all.take(all.len() as int) =~= all);
    if capacity < all.len() {
        let k = all[capacity as int];
        assert(set.contains(k));
        if keys.contains(k) {
            let m = choose|m: int| 0 <= m < keys.len() && keys[m] == k;
            lemma_position(all, m, capacity as int);
        }
        assert(leaves_some(keys, set));
    }
}

proof fn lemma_keys_agree(
    keys: Seq<KeyView>,
    all: Seq<KeyView>,
    set: Set<KeyView>,
    capacity: nat,
    n: int,
)
    requires
        in_order(all, set),
        are_first(keys, set, capacity),
        0 <= n <= keys.len(),
    ensures
        n <= all.len(),
        forall|i: int| 0 <= i < n ==> #[trigger] keys[i] == all[i],
    decreases n,
{
    if n > 0 {
        let i = n - 1;
        lemma_keys_agree(keys, all, set, capacity, i);
        assert(set.contains(keys[i]));
        let j = choose|j: int| 0 <= j < all.len() && all[j] == keys[i];
        if j < i {
            assert(keys[j] == all[j]);
            lemma_position(keys, j, i);
        }
        if i < j {
            assert(set.contains(all[i]));
            lemma_position(all, i, j);
            if keys.contains(all[i]) {
                let m = choose|m: int| 0 <= m < keys.len() && keys[m] == all[i];
                if m < i {
                    assert(keys[m] == all[m]);
                    lemma_position(all, m, i);
                } else {
                    lemma_position(keys, m, i);
                    lemma_key_order_total(keys[m], keys[i]);
                }
            } else {
                assert(key_before(keys[i], all[i]));
                lemma_key_order_total(keys[i], all[i]);
            }
        }
    }
}

/// Which page a request is answered is determined by where its cursor stands among the keys: the
/// request with the cursor after the first `p` of them, or without a cursor at the start, is
/// answered the page from there, which takes the next keys without a gap.
pub proof fn lemma_page_is_determined(
    by_id: Map<Seq<char>, WorkspaceView>,
    scope: Option<Seq<char>>,
    limit: nat,
    upper: KeyView,
    all: Seq<KeyView>,
    p: int,
    a: PageAnswer,
)
    requires
        in_order(all, eligible(by_id, scope, None, Some(upper))),
        limit >= 1,
        0 <= p <= all.len(),
        paged(
            by_id,
            scope,
            limit,
            if p == 0 {
                None
            } else {
                Some(all[p - 1])
            },
            Some(upper),
            a,
        ),
    ensures
        a == page_from(by_id, scope, limit, upper, all, p),
        takes_next(by_id, query_from(scope, limit, upper, all, p), keys_from(all, limit, p), a),
{
    let after = if p == 0 {
        None
    } else {
        Some(all[p - 1])
    };
    let set = eligible(by_id, scope, after, Some(upper));
    if p == 0 {
        assert(all.skip(0) =~= all);
    } else {
        lemma_eligible_from(by_id, scope, upper, all, p);
    }
    let tail = all.skip(p);
    let (keys, u) = choose|keys: Seq<KeyView>, u: KeyView| #[trigger]
        starts(by_id, scope, limit, after, Some(upper), keys, u) && a == settled(
            filled(
                by_id,
                PageQuery { scope, limit, upper: u, has_more: leaves_some(keys, set) },
                keys,
                PageDraft { entries: Seq::empty(), cursor: None },
                false,
            ),
        );
    lemma_first_keys_are_unique(keys, tail, set, limit + 1);
    assert(keys =~= keys_from(all, limit, p));
    lemma_page_from(by_id, scope, limit, upper, all, p);
}

/// The request that begins a traversal is answered the first page, and fixes the largest key as
/// the end of the traversal.
pub proof fn lemma_first_page_is_determined(
    by_id: Map<Seq<char>, WorkspaceView>,
    scope: Option<Seq<char>>,
    limit: nat,
    upper: KeyView,
    all: Seq<KeyView>,
    a: PageAnswer,
)
    requires
        is_last_key(by_id, scope, upper),
        in_order(all, eligible(by_id, scope, None, Some(upper))),
        limit >= 1,
        paged(by_id, scope, limit, None, None, a),
    ensures
        a == page_from(by_id, scope, limit, upper, all, 0),
        takes_next(by_id, query_from(scope, limit, upper, all, 0), keys_from(all, limit, 0), a),
{
    let set = eligible(by_id, scope, None, None);
    lemma_first_page_sees_all(by_id, scope, upper);
    assert(listed(by_id, scope, upper));
    let (keys, u) = choose|keys: Seq<KeyView>, u: KeyView| #[trigger]
        starts(by_id, scope, limit, None, None, keys, u) && a == settled(
            filled(
                by_id,
                PageQuery { scope, limit, upper: u, has_more: leaves_some(keys, set) },
                keys,
                PageDraft { entries: Seq::empty(), cursor: None },
                false,
            ),
        );
    lemma_key_order_total(u, upper);
    lemma_first_keys_are_unique(keys, all, set, limit + 1);
    assert(all.skip(0) =~= all);
    assert(keys =~= keys_from(all, limit, 0));
    lemma_page_from(by_id, scope, limit, upper, all, 0);
}

proof fn lemma_page_from(
    by_id: Map<Seq<char>, WorkspaceView>,
    scope: Option<Seq<char>>,
    limit: nat,
    upper: KeyView,
    all: Seq<KeyView>,
    p: int,
)
    requires
        in_order(all, eligible(by_id, scope, None, Some(upper))),
        limit >= 1,
        0 <= p <= all.len(),
    ensures
        takes_next(
            by_id,
            query_from(scope, limit, upper, all, p),
            keys_from(all, limit, p),
            page_from(by_id, scope, limit, upper, all, p),
        ),
{
    let keys = keys_from(all, limit, p);
    assert forall|i: int| 0 <= i < keys.len() implies is_current(by_id, #[trigger] keys[i]) by {
        assert(keys[i] == all[p + i]);
        assert(eligible(by_id, scope, None, Some(upper)).contains(all[p + i]));
    }
    lemma_page_takes_next(by_id, query_from(scope, limit, upper, all, p), keys);
}

/// What following the cursors gives, from the page after the first `p` of all keys to the last
/// page: the entries, or nothing where an entry is too large even for a summary.
pub open spec fn followed(
    by_id: Map<Seq<char>, WorkspaceView>,
    scope: Option<Seq<char>>,
    limit: nat,
    upper: KeyView,
    all: Seq<KeyView>,
    p: int,
) -> Option<Seq<EntryView>>
    decreases all.len() - p,
{
    let (entries, cursor) = match page_from(by_id, scope, limit, upper, all, p) {
        PageAnswer::Page { entries, cursor } => (entries, cursor),
        PageAnswer::Summary { entry, cursor } => (seq![entry], cursor),
        PageAnswer::TooLarge(_) => (Seq::empty(), Some(Seq::empty())),
    };
    if cursor is None {
        Some(entries)
    } else if entries.len() == 0 || p + entries.len() > all.len() {
        None
    } else {
        match followed(by_id, scope, limit, upper, all, p + entries.len()) {
            Some(rest) => Some(entries + rest),
            None => None,
        }
    }
}

/// Following the cursors from the first page to the last gives the entry of every key once, in
/// order, as long as no entry is too large even for a summary.
pub proof fn lemma_traversal_lists_everything_once(
    by_id: Map<Seq<char>, WorkspaceView>,
    scope: Option<Seq<char>>,
    limit: nat,
    upper: KeyView,
    all: Seq<KeyView>,
)
    requires
        in_order(all, eligible(by_id, scope, None, Some(upper))),
        limit >= 1,
        forall|p: int|
            0 <= p < all.len() ==> !(#[trigger] page_from(by_id, scope, limit, upper, all, p)
                is TooLarge),
    ensures
        followed(by_id, scope, limit, upper, all, 0) == Some(
            first_entries(by_id, all, all.len() as int),
        ),
{
    lemma_followed_from(by_id, scope, limit, upper, all, 0);
    assert(all.skip(0) =~= all);
}

proof fn lemma_followed_from(
    by_id: Map<Seq<char>, WorkspaceView>,
    scope: Option<Seq<char>>,
    limit: nat,
    upper: KeyView,
    all: Seq<KeyView>,
    p: int,
)
    requires
        in_order(all, eligible(by_id, scope, None, Some(upper))),
        limit >= 1,
        0 <= p <= all.len(),
        forall|p: int|
            0 <= p < all.len() ==> !(#[trigger] page_from(by_id, scope, limit, upper, all, p)
                is TooLarge),
    ensures
        followed(by_id, scope, limit, upper, all, p) == Some(
            first_entries(by_id, all.skip(p), all.len() - p),
        ),
    decreases all.len() - p,
{
    lemma_page_from(by_id, scope, limit, upper, all, p);
    let keys = keys_from(all, limit, p);
    let q = query_from(scope, limit, upper, all, p);
    let a = page_from(by_id, scope, limit, upper, all, p);
    let (entries, cursor) = match a {
        PageAnswer::Page { entries, cursor } => (entries, cursor),
        PageAnswer::Summary { entry, cursor } => (seq![entry], cursor),
        PageAnswer::TooLarge(_) => (Seq::empty(), Some(Seq::empty())),
    };
    let n = entries.len() as int;
    let goal = first_entries(by_id, all.skip(p), all.len() - p);
    assert(entries =~= first_entries(by_id, keys, n));
    assert forall|i: int| 0 <= i < n implies entries[i] == #[trigger] goal[i] by {
        assert(keys[i] == all[p + i]);
    }
    if cursor is None {
        assert(entries =~= goal);
    } else {
        lemma_followed_from(by_id, scope, limit, upper, all, p + n);
        let rest = first_entries(by_id, all.skip(p + n), all.len() - p - n);
        assert(entries + rest =~= goal);
    }
}

/// A request for pages, but for its cursor.
pub struct PageRequest {
    pub workspace: Option<Seq<char>>,
    pub canonical: Option<Seq<char>>,
    pub facts: RegistrationFacts,
    pub limit: u32,
}

/// The scope of the pages that are asked for.
pub open spec fn scope_of(v: RegistryView, q: PageRequest) -> Option<Seq<char>> {
    match q.workspace {
        Some(w) => Some(resolved_workspace(v, w, q.canonical)->0.ws_id),
        None => None,
    }
}

/// What every entry of a page shows of its snapshot, in full or in summary: the workspace, the
/// identifier, and when it was created.
pub open spec fn item(e: EntryView) -> (Seq<char>, Seq<char>, TimeView) {
    (e.workspace, e.id, e.meta.created_at)
}

/// What a reply shows.
pub open spec fn shown_by(r: Response) -> Seq<(Seq<char>, Seq<char>, TimeView)> {
    match r {
        Response::ListPageOk { snapshots, .. } => entry_views(snapshots@).map_values(
            |e: EntryView| item(e),
        ),
        Response::ListPageSummaryOk { snapshot, .. } => seq![
            (snapshot.workspace@, snapshot.id@, snapshot.meta.created_at@),
        ],
        _ => seq![],
    }
}

/// What replies show, one after the other.
pub open spec fn all_shown(replies: Seq<Response>) -> Seq<(Seq<char>, Seq<char>, TimeView)>
    decreases replies.len(),
{
    if replies.len() == 0 {
        Seq::empty()
    } else {
        shown_by(replies[0]) + all_shown(replies.drop_first())
    }
}

/// The cursor that a reply gives to go on with.
pub open spec fn next_cursor_of(r: Response) -> Option<Seq<char>> {
    match r {
        Response::ListPageOk { next_cursor, .. } => opt_text(next_cursor),
        Response::ListPageSummaryOk { next_cursor, .. } => opt_text(next_cursor),
        _ => None,
    }
}

/// Whether what was read of the text of a cursor is what was written into it.
pub open spec fn reads_back(text: Seq<char>, c: CursorInput) -> bool {
    forall|scope: Option<Seq<char>>, after: KeyView, upper: KeyView|
        text == #[trigger] cursor_token(scope, after, upper) ==> (c matches CursorInput::Parsed(x)
            && opt_text(x.scope) == scope && x.after@ == after && x.upper@ == upper)
}

/// Whether replies are those to requests that differ in their cursors only, none of them an
/// error: each request but the first has the cursor that the reply before it gave, and the last
/// reply gives none.
pub open spec fn follows(
    v: RegistryView,
    q: PageRequest,
    cursors: Seq<CursorInput>,
    replies: Seq<Response>,
) -> bool {
    &&& replies.len() > 0
    &&& cursors.len() == replies.len()
    &&& forall|i: int|
        0 <= i < replies.len() ==> !((#[trigger] replies[i]) is Error) && page_answer(
            v,
            q.workspace,
            q.canonical,
            q.facts,
            q.limit,
            cursors[i],
            replies[i],
        )
    &&& forall|i: int|
        0 <= i < replies.len() - 1 ==> (next_cursor_of(#[trigger] replies[i]) matches Some(t)
            && reads_back(t, cursors[i + 1]))
    &&& next_cursor_of(replies.last()) is None
}

/// The items of keys.
pub open spec fn items(by_id: Map<Seq<char>, WorkspaceView>, keys: Seq<KeyView>) -> Seq<
    (Seq<char>, Seq<char>, TimeView),
> {
    keys.map_values(|k: KeyView| item(entry_at(by_id, k)))
}

/// Whether replies show the snapshots of a set of keys, each once and in order, and none of them
/// is empty unless the set is.
pub open spec fn shows_all(
    by_id: Map<Seq<char>, WorkspaceView>,
    set: Set<KeyView>,
    all: Seq<KeyView>,
    replies: Seq<Response>,
) -> bool {
    &&& in_order(all, set)
    &&& all_shown(replies) == items(by_id, all)
    &&& all.len() > 0 ==> forall|i: int|
        0 <= i < replies.len() ==> shown_by(#[trigger] replies[i]).len() > 0
}

/// Asking for a page without a cursor, and then with the cursor of the last reply until there is
/// none, shows every snapshot in scope once, by creation time, workspace and identifier. No page
/// is empty unless there is nothing to show.
pub proof fn lemma_listing_shows_everything_once(
    v: RegistryView,
    q: PageRequest,
    cursors: Seq<CursorInput>,
    replies: Seq<Response>,
)
    requires
        follows(v, q, cursors, replies),
        cursors[0] is Absent,
    ensures
        exists|all: Seq<KeyView>| #[trigger]
            shows_all(v.by_id, eligible(v.by_id, scope_of(v, q), None, None), all, replies),
{
    let by_id = v.by_id;
    let scope = scope_of(v, q);
    let limit = q.limit as nat;
    let set = eligible(by_id, scope, None, None);
    assert(!(replies[0] is Error));
    let a = choose|a: PageAnswer| #[trigger] paged(by_id, scope, limit, None, None, a) && gives(
        replies[0],
        a,
    );
    if forall|k: KeyView| !listed(by_id, scope, k) {
        assert(a == PageAnswer::Page { entries: Seq::<EntryView>::empty(), cursor: None });
        assert(next_cursor_of(replies[0]) is None);
        assert(replies.len() == 1);
        assert(replies.drop_first() =~= Seq::empty());
        assert(all_shown(replies.drop_first()).len() == 0);
        let all = Seq::<KeyView>::empty();
        assert(all_shown(replies) =~= items(by_id, all));
        assert(shows_all(by_id, set, all, replies));
    } else {
        let (keys, u) = choose|keys: Seq<KeyView>, u: KeyView| #[trigger]
            starts(by_id, scope, limit, None, None, keys, u) && a == settled(
                filled(
                    by_id,
                    PageQuery { scope, limit, upper: u, has_more: leaves_some(keys, set) },
                    keys,
                    PageDraft { entries: Seq::empty(), cursor: None },
                    false,
                ),
            );
        lemma_first_page_sees_all(by_id, scope, u);
        assert(starts(by_id, scope, limit, None, Some(u), keys, u));
        assert(paged(by_id, scope, limit, None, Some(u), a));
        lemma_pages_show_the_rest(v, q, cursors, replies, None, u, a);
    }
}

/// The replies from a page on show what is eligible there.
proof fn lemma_pages_show_the_rest(
    v: RegistryView,
    q: PageRequest,
    cursors: Seq<CursorInput>,
    replies: Seq<Response>,
    after: Option<KeyView>,
    upper: KeyView,
    a: PageAnswer,
)
    requires
        follows(v, q, cursors, replies),
        q.limit >= 1,
        paged(v.by_id, scope_of(v, q), q.limit as nat, after, Some(upper), a),
        gives(replies[0], a),
    ensures
        exists|all: Seq<KeyView>| #[trigger]
            shows_all(
                v.by_id,
                eligible(v.by_id, scope_of(v, q), after, Some(upper)),
                all,
                replies,
            ),
    decreases replies.len(),
{
    let by_id = v.by_id;
    let scope = scope_of(v, q);
    let limit = q.limit as nat;
    let set = eligible(by_id, scope, after, Some(upper));
    let (keys, u) = choose|keys: Seq<KeyView>, u: KeyView| #[trigger]
        starts(by_id, scope, limit, after, Some(upper), keys, u) && a == settled(
            filled(
                by_id,
                PageQuery { scope, limit, upper: u, has_more: leaves_some(keys, set) },
                keys,
                PageDraft { entries: Seq::empty(), cursor: None },
                false,
            ),
        );
    let pq = PageQuery { scope, limit, upper, has_more: leaves_some(keys, set) };
    assert forall|i: int| 0 <= i < keys.len() implies is_current(by_id, #[trigger] keys[i]) by {
        assert(set.contains(keys[i]));
    }
    lemma_page_takes_next(by_id, pq, keys);
    let first = replies[0];
    let rest = replies.drop_first();
    assert(!(first is Error));
    let n = match a {
        PageAnswer::Page { entries, .. } => entries.len() as int,
        _ => 1,
    };
    assert(shown_by(first) =~= items(by_id, keys.take(n)));
    if next_cursor_of(first) is None {
        assert(replies.len() == 1);
        assert(rest =~= Seq::empty());
        assert(all_shown(rest).len() == 0);
        assert(keys.take(n) =~= keys);
        assert(in_order(keys, set)) by {
            assert forall|k: KeyView| #[trigger] set.contains(k) <==> keys.contains(k) by {
                if set.contains(k) && !keys.contains(k) {
                    assert(leaves_some(keys, set));
                }
            }
        }
        assert(all_shown(replies) =~= items(by_id, keys));
        assert(shows_all(by_id, set, keys, replies));
    } else {
        let last = keys[n - 1];
        let t = next_cursor_of(first)->0;
        assert(replies.len() > 1);
        assert(t == cursor_token(scope, last, upper));
        let c2 = cursors.drop_first();
        assert(reads_back(t, cursors[1]));
        assert(rest[0] == replies[1] && c2[0] == cursors[1]);
        assert forall|i: int| 0 <= i < rest.len() implies !((#[trigger] rest[i]) is Error)
            && page_answer(v, q.workspace, q.canonical, q.facts, q.limit, c2[i], rest[i]) by {
            assert(rest[i] == replies[i + 1]);
        }
        assert forall|i: int| 0 <= i < rest.len() - 1 implies (next_cursor_of(#[trigger] rest[i])
            matches Some(t) && reads_back(t, c2[i + 1])) by {
            assert(rest[i] == replies[i + 1]);
        }
        assert(follows(v, q, c2, rest));
        assert(page_answer(v, q.workspace, q.canonical, q.facts, q.limit, cursors[1], replies[1]));
        let b = choose|b: PageAnswer| #[trigger]
            paged(by_id, scope, limit, Some(last), Some(upper), b) && gives(rest[0], b);
        lemma_pages_show_the_rest(v, q, c2, rest, Some(last), upper, b);
        let left = eligible(by_id, scope, Some(last), Some(upper));
        let tail = choose|tail: Seq<KeyView>| #[trigger] shows_all(by_id, left, tail, rest);
        let all = keys.take(n) + tail;
        lemma_continuation_is_the_rest(by_id, scope, after, upper, limit + 1, keys, n);
        lemma_joined_in_order(keys.take(n), tail, set, left);
        assert(all_shown(replies) =~= items(by_id, all));
        assert(tail.len() > 0) by {
            let k = if n < keys.len() {
                keys[n]
            } else {
                choose|k: KeyView| #[trigger] set.contains(k) && !keys.contains(k)
            };
            assert(set.contains(k));
            assert(!keys.take(n).contains(k)) by {
                if keys.take(n).contains(k) {
                    let j = choose|j: int| 0 <= j < n && keys.take(n)[j] == k;
                    assert(keys[j] == k);
                    if n < keys.len() {
                        lemma_position(keys, j, n);
                    }
                }
            }
            assert(left.contains(k));
            assert(tail.contains(k));
        }
        assert forall|i: int| 0 <= i < replies.len() implies shown_by(#[trigger] replies[i]).len()
            > 0 by {
            if i > 0 {
                assert(rest[i - 1] == replies[i]);
            }
        }
        assert(shows_all(by_id, set, all, replies));
    }
}

/// What comes first and what is left, one after the other, are all in order.
proof fn lemma_joined_in_order(
    front: Seq<KeyView>,
    tail: Seq<KeyView>,
    set: Set<KeyView>,
    left: Set<KeyView>,
)
    requires
        front.len() > 0,
        ascending_keys(front),
        forall|i: int| 0 <= i < front.len() ==> set.contains(#[trigger] front[i]),
        in_order(tail, left),
        forall|k: KeyView| #[trigger]
            left.contains(k) <==> set.contains(k) && !front.contains(k),
        forall|k: KeyView| #[trigger] left.contains(k) ==> key_before(front.last(), k),
    ensures
        in_order(front + tail, set),
{
    let all = front + tail;
    assert forall|i: int, j: int| 0 <= i < j < all.len() implies key_before(
        #[trigger] all[i],
        #[trigger] all[j],
    ) by {
        if j < front.len() {
            assert(key_before(front[i], front[j]));
        } else {
            let b = tail[j - front.len()];
            assert(all[j] == b && tail.contains(b));
            assert(left.contains(b));
            if i >= front.len() {
                assert(all[i] == tail[i - front.len()]);
            } else if i < front.len() - 1 {
                assert(key_before(front[i], front[front.len() - 1]));
                lemma_key_order_transitive(front[i], front.last(), b);
            }
        }
    }
    assert forall|k: KeyView| #[trigger] set.contains(k) <==> all.contains(k) by {
        if set.contains(k) {
            if front.contains(k) {
                let i = choose|i: int| 0 <= i < front.len() && front[i] == k;
                assert(all[i] == k);
            } else {
                assert(left.contains(k));
                let i = choose|i: int| 0 <= i < tail.len() && tail[i] == k;
                assert(all[front.len() + i] == k);
            }
        }
        if all.contains(k) {
            let i = choose|i: int| 0 <= i < all.len() && all[i] == k;
            if i < front.len() {
                assert(front[i] == k);
            } else {
                assert(tail[i - front.len()] == k);
                assert(tail.contains(k));
                assert(left.contains(k));
            }
        }
    }
}

/// What a listing shows does not depend on the size of its pages, nor on how its workspace was
/// addressed.
pub proof fn lemma_listing_does_not_depend_on_the_limit(
    v: RegistryView,
    q1: PageRequest,
    cursors1: Seq<CursorInput>,
    replies1: Seq<Response>,
    q2: PageRequest,
    cursors2: Seq<CursorInput>,
    replies2: Seq<Response>,
)
    requires
        follows(v, q1, cursors1, replies1),
        cursors1[0] is Absent,
        follows(v, q2, cursors2, replies2),
        cursors2[0] is Absent,
        scope_of(v, q1) == scope_of(v, q2),
    ensures
        all_shown(replies1) == all_shown(replies2),
{
    let set = eligible(v.by_id, scope_of(v, q1), None, None);
    lemma_listing_shows_everything_once(v, q1, cursors1, replies1);
    lemma_listing_shows_everything_once(v, q2, cursors2, replies2);
    let a = choose|a: Seq<KeyView>| #[trigger] shows_all(v.by_id, set, a, replies1);
    let b = choose|b: Seq<KeyView>| #[trigger] shows_all(v.by_id, set, b, replies2);
    assert(are_first(b, set, b.len()));
    lemma_first_keys_are_unique(b, a, set, b.len());
    assert(are_first(a, set, a.len()));
    lemma_first_keys_are_unique(a, b, set, a.len());
    if b.len() < a.len() {
        assert(leaves_some(b, set));
    }
    assert(a == b);
}

} // verus!
