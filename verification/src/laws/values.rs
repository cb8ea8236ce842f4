//! Promises about texts, numbers, times and the other small values.

use crate::cli::{script_missing, unknown_format_message};
use crate::config::{default_backend_type, FileConfig, Percent, WsCkptError};
use crate::dispatch::DispatchContext;
use crate::index::SnapshotIndex;
use crate::laws::display::{ends_with, holds, lemma_stands};
use crate::laws::workspaces::info_of;
use crate::listing::Key;
use crate::lookup::AncestorError;
use crate::message::{error_resp, ErrorCode, Response, WorkspaceInfo};
use crate::policy::PolicyFieldOp;
use crate::registry::{Registry, WorkspaceState};
use crate::settings::join_texts;
use crate::snapshot::{same_bytes, Timestamp, WorkspaceGenerationTokenV2};
use crate::state::{workspace_not_found_error, DaemonState};
use crate::text::{
    contains_char, decimal, decimal_text, lemma_decimal_reads_back, parse_number, starts_with,
    str_before, str_eq, trim,
};
use crate::text_list::{contains_text, include_text, opt_eq, texts, without_text};
use vstd::prelude::*;
use vstd::utf8::encode_utf8;

verus! {

/// Whether a character is white space.
pub open spec fn is_blank(c: char) -> bool {
    let n = c as int;
    ||| 9 <= n <= 13
    ||| n == 32
    ||| n == 0x85
    ||| n == 0xa0
    ||| n == 0x1680
    ||| 0x2000 <= n <= 0x200a
    ||| n == 0x2028
    ||| n == 0x2029
    ||| n == 0x202f
    ||| n == 0x205f
    ||| n == 0x3000
}

proof fn lemma_trim_start_parts(s: Seq<char>)
    ensures
        ({
            let t = crate::text::trim_start(s);
            &&& t.len() <= s.len()
            &&& s.skip(s.len() - t.len()) == t
            &&& forall|i: int| 0 <= i < s.len() - t.len() ==> is_blank(#[trigger] s[i])
            &&& t.len() > 0 ==> !is_blank(t[0])
        }),
    decreases s.len(),
{
    let t = crate::text::trim_start(s);
    if s.len() > 0 && crate::text::is_white_space(s[0]) {
        let d = s.drop_first();
        lemma_trim_start_parts(d);
        assert(s.skip(s.len() - t.len()) =~= d.skip(d.len() - t.len()));
        assert forall|i: int| 0 <= i < s.len() - t.len() implies is_blank(#[trigger] s[i]) by {
            if i > 0 {
                assert(d[i - 1] == s[i]);
            }
        }
    } else {
        assert(s.skip(0) =~= s);
    }
}

proof fn lemma_trim_end_parts(s: Seq<char>)
    ensures
        ({
            let t = crate::text::trim_end(s);
            &&& t.len() <= s.len()
            &&& s.take(t.len() as int) == t
            &&& forall|i: int| t.len() <= i < s.len() ==> is_blank(#[trigger] s[i])
            &&& t.len() > 0 ==> !is_blank(t.last())
        }),
    decreases s.len(),
{
    let t = crate::text::trim_end(s);
    if s.len() > 0 && crate::text::is_white_space(s.last()) {
        let d = s.drop_last();
        lemma_trim_end_parts(d);
        assert(s.take(t.len() as int) =~= d.take(t.len() as int));
        assert forall|i: int| t.len() <= i < s.len() implies is_blank(#[trigger] s[i]) by {
            if i < d.len() {
                assert(d[i] == s[i]);
            }
        }
    } else {
        assert(s.take(s.len() as int) =~= s);
    }
}

/// A text loses the white space at its ends and nothing else.
pub proof fn lemma_trimming(s: &str, r: String)
    requires
        call_ensures(trim, (s,), r),
    ensures
        exists|i: int|
            {
                &&& 0 <= i <= i + r@.len() <= s@.len()
                &&& r@ == #[trigger] s@.subrange(i, i + r@.len())
                &&& forall|j: int| 0 <= j < i ==> is_blank(#[trigger] s@[j])
                &&& forall|j: int| i + r@.len() <= j < s@.len() ==> is_blank(#[trigger] s@[j])
            },
        r@.len() > 0 ==> !is_blank(r@[0]) && !is_blank(r@.last()),
{
    let a = crate::text::trim_start(s@);
    let b = crate::text::trim_end(a);
    lemma_trim_start_parts(s@);
    lemma_trim_end_parts(a);
    let i = s@.len() - a.len();
    assert(b =~= s@.subrange(i, i + b.len()));
    assert forall|j: int| i + b.len() <= j < s@.len() implies is_blank(#[trigger] s@[j]) by {
        assert(a[j - i] == s@[j]);
    }
    if b.len() > 0 {
        assert(b[0] == a[0]);
    }
}

/// A number that is written is read back, as far as it is allowed.
pub proof fn lemma_numbers_read_back(n: u64, max: u64, s: String, text: &str, r: Option<u64>)
    requires
        call_ensures(decimal_text, (n,), s),
        text@ == s@,
        call_ensures(parse_number, (text, max), r),
    ensures
        r is Some <==> n <= max,
        r matches Some(k) ==> k == n,
        s@.len() > 0,
        forall|i: int| 0 <= i < s@.len() ==> '0' <= #[trigger] s@[i] <= '9',
        n < 10 ==> s@.len() == 1 && s@[0] as u32 == '0' as u32 + n,
{
    lemma_decimal_reads_back(n as nat);
    let d = decimal(n as nat);
    assert(crate::text::unsigned_digits(d) =~= d);
    assert forall|i: int| 0 <= i < d.len() implies '0' <= #[trigger] d[i] <= '9' by {
        assert(crate::text::is_digit(d[i]));
    }
}

/// Only digits, perhaps behind a plus sign, are a number.
pub proof fn lemma_only_digits_are_numbers(text: &str, max: u64, r: Option<u64>, i: int)
    requires
        call_ensures(parse_number, (text, max), r),
        r is Some,
        0 <= i < text@.len(),
    ensures
        '0' <= text@[i] <= '9' || (i == 0 && text@[0] == '+'),
        r->0 <= max,
{
    let d = crate::text::unsigned_digits(text@);
    let off = text@.len() - d.len();
    if i >= off {
        assert(d[i - off] == text@[i]);
        assert(crate::text::is_digit(d[i - off]));
    }
}

/// Comparing texts is comparing their characters, and their order is a strict one.
pub proof fn lemma_comparing_texts(
    a: &str,
    b: &str,
    c: char,
    same: bool,
    begins: bool,
    found: bool,
    ab: bool,
    ba: bool,
)
    requires
        call_ensures(str_eq, (a, b), same),
        call_ensures(starts_with, (a, b), begins),
        call_ensures(contains_char, (a, c), found),
        call_ensures(str_before, (a, b), ab),
        call_ensures(str_before, (b, a), ba),
    ensures
        same <==> a@ == b@,
        begins <==> b@.len() <= a@.len() && a@.take(b@.len() as int) == b@,
        found <==> exists|i: int| 0 <= i < a@.len() && #[trigger] a@[i] == c,
        !(ab && ba),
        same ==> !ab && !ba,
        !same ==> ab || ba,
{
    if b@.len() <= a@.len() {
        assert(a@.take(b@.len() as int) =~= a@.subrange(0, b@.len() as int));
    }
    crate::text::lemma_text_order_total(a@, b@);
    crate::text::lemma_text_order_strict(a@, b@);
    crate::text::lemma_text_order_strict(b@, a@);
}

/// A list holds a text or does not, is without it once it is taken out, and holds it once it is put
/// in; the others stay.
pub proof fn lemma_lists_of_texts(
    v: Vec<String>,
    t: &str,
    found: bool,
    rest: Vec<String>,
    list: &mut Vec<String>,
)
    requires
        call_ensures(contains_text, (&v, t), found),
        call_ensures(without_text, (&v, t), rest),
        *old(list) == v,
        call_ensures(include_text, (list, t), ()),
    ensures
        found <==> exists|i: int| 0 <= i < v@.len() && (#[trigger] v@[i])@ == t@,
        forall|i: int| 0 <= i < rest@.len() ==> (#[trigger] rest@[i])@ != t@,
        forall|x: Seq<char>| #[trigger]
            texts(v@).contains(x) && x != t@ <==> texts(rest@).contains(x),
        found ==> texts(final(list)@) == texts(v@),
        !found ==> texts(final(list)@) == texts(v@).push(t@),
{
    let l = texts(v@);
    let w = texts(rest@);
    assert(l.len() == v@.len() && w.len() == rest@.len());
    crate::lineage::lemma_without(l, t@);
    if found {
        let i = choose|i: int| 0 <= i < l.len() && l[i] == t@;
        assert(v@[i]@ == t@);
    }
    if exists|i: int| 0 <= i < v@.len() && (#[trigger] v@[i])@ == t@ {
        let i = choose|i: int| 0 <= i < v@.len() && (#[trigger] v@[i])@ == t@;
        assert(l[i] == t@);
    }
    assert forall|i: int| 0 <= i < rest@.len() implies (#[trigger] rest@[i])@ != t@ by {
        assert(w[i] == rest@[i]@);
        assert(w.contains(w[i]));
    }
}

/// A time is its seconds and nanoseconds, and times are ordered by the seconds first.
pub proof fn lemma_times_are_ordered(
    secs: i64,
    nanos: u32,
    a: Timestamp,
    b: Timestamp,
    made: Option<Timestamp>,
    s: i64,
    n: u32,
    ab: bool,
    same: bool,
)
    requires
        call_ensures(Timestamp::new, (secs, nanos), made),
        made == Some(a),
        call_ensures(Timestamp::secs, (&a,), s),
        call_ensures(Timestamp::nanos, (&a,), n),
        call_ensures(Timestamp::is_earlier, (&a, &b), ab),
        call_ensures(Timestamp::same, (&a, &b), same),
    ensures
        s == secs,
        n == nanos,
        ab <==> secs < b@.0 || (secs == b@.0 && nanos < b@.1),
        same <==> secs == b@.0 && nanos == b@.1,
{
}

/// A token is its bytes, and two tokens are the same where these are; it is never shown.
pub proof fn lemma_tokens_are_their_bytes(
    x: [u8; 32],
    y: [u8; 32],
    a: WorkspaceGenerationTokenV2,
    b: WorkspaceGenerationTokenV2,
    out: [u8; 32],
    borrowed: &[u8; 32],
    same: bool,
    bytes: bool,
    shown: String,
    other: String,
)
    requires
        call_ensures(WorkspaceGenerationTokenV2::from_bytes, (x,), a),
        call_ensures(WorkspaceGenerationTokenV2::from_bytes, (y,), b),
        call_ensures(WorkspaceGenerationTokenV2::into_bytes, (a,), out),
        call_ensures(WorkspaceGenerationTokenV2::as_bytes, (&a,), borrowed),
        call_ensures(WorkspaceGenerationTokenV2::same, (&a, &b), same),
        call_ensures(same_bytes, (&x, &y), bytes),
        call_ensures(WorkspaceGenerationTokenV2::debug_text, (&a,), shown),
        call_ensures(WorkspaceGenerationTokenV2::debug_text, (&b,), other),
    ensures
        out@ == x@,
        borrowed@ == x@,
        same <==> x@ == y@,
        bytes <==> x@ == y@,
        shown@ == other@,
{
}

/// A key names a snapshot where it names it and its workspace, and its copy is it.
pub proof fn lemma_keys_name_snapshots(k: Key, valid: bool, copy: Key)
    requires
        call_ensures(Key::valid, (&k,), valid),
        call_ensures(Key::copy, (&k,), copy),
    ensures
        valid <==> k.ws_id@.len() > 0 && k.id@.len() > 0,
        copy.created_at@ == k.created_at@,
        copy.ws_id@ == k.ws_id@,
        copy.id@ == k.id@,
{
    assert(copy@.created_at == k@.created_at && copy@.ws_id == k@.ws_id && copy@.id == k@.id);
}

/// An ancestor that was not reached is told by where the lineage broke.
pub proof fn lemma_broken_lineages_are_told(e: AncestorError, r: String)
    requires
        call_ensures(AncestorError::to_text, (&e,), r),
    ensures
        e matches AncestorError::BrokenChain { depth } ==> holds(r@, decimal(depth as nat)),
        e matches AncestorError::NotFound { at_id } ==> holds(r@, at_id@),
        e is InvalidAncestors ==> r@ == "num-ancestors must be >= 1"@,
        e is NoHead ==> r@
            == "no head set \u{2014} no lineage available, use --snapshot instead"@,
{
    match e {
        AncestorError::BrokenChain { depth } => {
            lemma_stands(
                r@,
                "lineage chain broken at depth "@,
                decimal(depth as nat),
                " (parent_id is None)"@,
            );
        },
        AncestorError::NotFound { at_id } => {
            lemma_stands(r@, "parent snapshot '"@, at_id@, "' not found in index"@);
        },
        _ => {},
    }
}

/// An error has its code and its message, and one about a workspace names it.
pub proof fn lemma_errors_have_codes(
    code: ErrorCode,
    message: &str,
    a: Response,
    b: Response,
)
    requires
        call_ensures(error_resp, (code, message), a),
        call_ensures(workspace_not_found_error, (message,), b),
    ensures
        a matches Response::Error { code: c, message: m } && c == code && m@ == message@,
        b matches Response::Error { code: c, message: m } && c == ErrorCode::WorkspaceNotFound
            && ends_with(m@, message@),
{
    let p = "workspace not found: "@;
    assert((p + message@).skip(p.len() as int) =~= message@);
}

/// The text of an error ends with its reason, or has its sizes.
pub proof fn lemma_errors_have_reasons(e: WsCkptError, r: String)
    requires
        call_ensures(WsCkptError::to_text, (&e,), r),
    ensures
        e matches WsCkptError::Bincode(m) ==> ends_with(r@, m@) && r@[0] == 'b',
        e matches WsCkptError::Io(m) ==> ends_with(r@, m@) && r@[0] == 'i',
        e matches WsCkptError::Json(m) ==> ends_with(r@, m@) && r@[0] == 'j',
        e matches WsCkptError::Config(m) ==> ends_with(r@, m@) && r@[0] == 'c',
        e matches WsCkptError::FrameTooLarge { size, max } ==> holds(r@, decimal(size as nat))
            && holds(r@, decimal(max as nat)),
{
    reveal_strlit("bincode error: ");
    reveal_strlit("io error: ");
    reveal_strlit("json error: ");
    reveal_strlit("config error: ");
    match e {
        WsCkptError::Bincode(m) => {
            assert(r@.skip("bincode error: "@.len() as int) =~= m@);
        },
        WsCkptError::Io(m) => {
            assert(r@.skip("io error: "@.len() as int) =~= m@);
        },
        WsCkptError::Json(m) => {
            assert(r@.skip("json error: "@.len() as int) =~= m@);
        },
        WsCkptError::Config(m) => {
            assert(r@.skip("config error: "@.len() as int) =~= m@);
        },
        WsCkptError::FrameTooLarge { size, max } => {
            let a = "frame too large: "@;
            let b = " bytes (max "@;
            let s = decimal(size as nat);
            let m = decimal(max as nat);
            lemma_stands(r@, a, s, b + m + ")"@);
            lemma_stands(r@, a + s + b, m, ")"@);
        },
    }
}

/// An index without snapshots has none, no head and no evidence, and is of its workspace.
pub proof fn lemma_new_indexes_are_empty(path: String, r: SnapshotIndex)
    requires
        call_ensures(SnapshotIndex::new, (path,), r),
    ensures
        r@.workspace_path == path@,
        r@.nodes.dom() == Set::<Seq<char>>::empty(),
        r@.evidence.dom() == Set::<Seq<char>>::empty(),
        r@.rollbacks.dom() == Set::<Seq<char>>::empty(),
        r@.head is None,
{
}

/// A new registry has no workspaces and no paths.
pub proof fn lemma_new_registries_are_empty(r: Registry)
    requires
        call_ensures(Registry::new, (), r),
    ensures
        r@.by_id.dom() == Set::<Seq<char>>::empty(),
        r@.paths.dom() == Set::<Seq<char>>::empty(),
        r@.spellings.dom() == Set::<Seq<char>>::empty(),
        r@.numbers.dom() == Set::<Seq<char>>::empty(),
{
}

/// The daemon finds workspaces as its registry does, and tells of each what it is.
pub proof fn lemma_daemons_find_workspaces(
    state: DaemonState,
    ws_id: &str,
    path: &str,
    a: Option<&WorkspaceState>,
    b: Option<&WorkspaceState>,
    c: Option<&WorkspaceState>,
    d: Option<&WorkspaceState>,
    infos: Vec<WorkspaceInfo>,
    k: Seq<char>,
)
    requires
        call_ensures(DaemonState::get_by_wsid, (&state, ws_id), a),
        call_ensures(Registry::get_by_wsid, (&state.registry, ws_id), b),
        call_ensures(DaemonState::get_by_path, (&state, path), c),
        call_ensures(Registry::get_by_path, (&state.registry, path), d),
        call_ensures(DaemonState::get_all_workspace_info, (&state,), infos),
    ensures
        a is Some <==> b is Some,
        a matches Some(w) ==> w@ == b->0@,
        c is Some <==> d is Some,
        c matches Some(w) ==> w@ == d->0@,
        forall|i: int|
            0 <= i < infos@.len() ==> state.registry@.by_id.contains_key(
                (#[trigger] infos@[i]).ws_id@,
            ) && info_of(infos@[i], state.registry@.by_id[infos@[i].ws_id@]),
        forall|i: int, j: int|
            0 <= i < j < infos@.len() ==> (#[trigger] infos@[i]).ws_id@ != (
            #[trigger] infos@[j]).ws_id@,
        state.registry@.by_id.contains_key(k) ==> exists|i: int|
            0 <= i < infos@.len() && (#[trigger] infos@[i]).ws_id@ == k,
{
}

/// A field is as it was, or is what it is set to.
pub proof fn lemma_fields_are_patched(
    op: PolicyFieldOp<bool>,
    current: Option<bool>,
    r: Option<bool>,
)
    requires
        call_ensures(PolicyFieldOp::<bool>::apply, (op, current), r),
    ensures
        op is Unchanged ==> r == current,
        op matches PolicyFieldOp::SetTo(b) ==> r == Some(b),
{
}

/// A connection has the user that it was made with.
pub proof fn lemma_connections_have_users(
    uid: Option<u32>,
    c: DispatchContext,
    r: Option<u32>,
)
    requires
        call_ensures(DispatchContext::new, (uid,), c),
        call_ensures(DispatchContext::peer_uid, (c,), r),
    ensures
        r == uid,
{
}

/// Messages name what they are about, and the backend is detected unless it is named.
pub proof fn lemma_messages_name_their_subject(
    text: &str,
    a: String,
    b: String,
    backend: String,
)
    requires
        call_ensures(unknown_format_message, (text,), a),
        call_ensures(script_missing, (text,), b),
        call_ensures(default_backend_type, (), backend),
    ensures
        holds(a@, text@),
        holds(b@, text@),
        backend@ == seq!['a', 'u', 't', 'o'],
{
    reveal_strlit("auto");
    assert("auto"@ =~= seq!['a', 'u', 't', 'o']);
    lemma_stands(a@, "unknown --format value: "@, text@, " (expected `text` or `json`)"@);
    lemma_stands(b@, "cannot find "@, text@, "; is ws-ckpt installed?"@);
}

/// Two optional texts are the same where both are missing, or are there and alike.
pub proof fn lemma_optional_texts(a: Option<String>, b: Option<String>, r: bool)
    requires
        call_ensures(opt_eq, (&a, &b), r),
    ensures
        r <==> match (a, b) {
            (Some(x), Some(y)) => x@ == y@,
            (None, None) => true,
            _ => false,
        },
{
}

/// Texts are ordered by their UTF-8 bytes: what goes on comes after what it goes on from, and
/// otherwise the first byte that differs decides.
pub proof fn lemma_texts_go_by_their_bytes(a: &str, b: &str, r: bool, n: int)
    requires
        call_ensures(str_before, (a, b), r),
        0 <= n <= encode_utf8(a@).len(),
        n <= encode_utf8(b@).len(),
        forall|i: int| 0 <= i < n ==> encode_utf8(a@)[i] == #[trigger] encode_utf8(b@)[i],
    ensures
        n == encode_utf8(a@).len() && n < encode_utf8(b@).len() ==> r,
        n == encode_utf8(b@).len() ==> !r,
        n < encode_utf8(a@).len() && n < encode_utf8(b@).len() ==> {
            &&& encode_utf8(a@)[n] < encode_utf8(b@)[n] ==> r
            &&& encode_utf8(a@)[n] > encode_utf8(b@)[n] ==> !r
        },
{
    let x = encode_utf8(a@);
    let y = encode_utf8(b@);
    assert(x.take(n) =~= y.take(n));
    if n < y.len() && (n == x.len() || x[n] < y[n]) {
        assert(crate::text::diverges_before(x, y, n));
    }
    if r && (n == y.len() || (n < x.len() && x[n] > y[n])) {
        let m = choose|m: int| #[trigger] crate::text::diverges_before(x, y, m);
        if m > n {
            assert(x.take(m)[n] == y.take(m)[n]);
        } else if m < n {
            assert(x[m] == y[m]);
        }
    }
}

/// A list of texts is joined from its front: a further text follows behind the separator, and
/// the separator stands nowhere else.
pub proof fn lemma_texts_are_joined(
    parts: Vec<String>,
    more: Vec<String>,
    sep: &str,
    r: String,
    longer: String,
)
    requires
        more@.len() == parts@.len() + 1,
        forall|i: int| 0 <= i < parts@.len() ==> (#[trigger] more@[i])@ == parts@[i]@,
        call_ensures(join_texts, (&parts, sep), r),
        call_ensures(join_texts, (&more, sep), longer),
    ensures
        parts@.len() == 0 ==> r@.len() == 0 && longer@ == more@[0]@,
        parts@.len() > 0 ==> longer@ == r@ + sep@ + more@.last()@,
{
    assert(texts(more@).drop_last() =~= texts(parts@));
}

/// Percentages are the same number where their patterns are the same and are numbers, and where
/// both are zeros; a pattern that is no number is not even the same as itself.
pub proof fn lemma_percents_are_compared_as_numbers(a: Percent, b: Percent)
    ensures
        ({
            let x = a.bits as int % 0x8000_0000_0000_0000;
            let y = b.bits as int % 0x8000_0000_0000_0000;
            &&& a.same_number(b) == b.same_number(a)
            &&& a.bits == b.bits && x <= 0x7ff0_0000_0000_0000 ==> a.same_number(b)
            &&& x == 0 && y == 0 ==> a.same_number(b)
            &&& x > 0x7ff0_0000_0000_0000 ==> !a.same_number(b)
            &&& a.bits != b.bits && (x != 0 || y != 0) ==> !a.same_number(b)
        }),
{
}

/// What a configuration file sets for the image is what its section on images holds.
pub proof fn lemma_image_settings_are_read(
    file: FileConfig,
    size: Option<u64>,
    percent: Option<Percent>,
)
    requires
        call_ensures(FileConfig::configured_img_size, (&file,), size),
        call_ensures(FileConfig::configured_img_max_percent, (&file,), percent),
    ensures
        file.backend.btrfs_loop is None ==> size is None && percent is None,
        file.backend.btrfs_loop matches Some(b) ==> size == b.img_size && percent
            == b.img_max_percent,
{
}

/// A time is written out by its seconds and nanoseconds, in one way for reading and in another
/// for names.
pub proof fn lemma_times_are_written(t: Timestamp, secs: i64, nanos: u32, a: String, b: String)
    requires
        call_ensures(Timestamp::secs, (&t,), secs),
        call_ensures(Timestamp::nanos, (&t,), nanos),
        call_ensures(Timestamp::to_rfc3339, (&t,), a),
        call_ensures(Timestamp::to_stamp, (&t,), b),
    ensures
        a@ == crate::calendar::rfc3339(secs, nanos),
        b@ == crate::calendar::compact_stamp(secs, nanos),
{
}

/// A number is written digit by digit: its last digit behind the rest of it, and a digit as the
/// character for it.
pub proof fn lemma_numbers_are_written_digit_by_digit(n: u64, r: String, rest: String, last: String)
    requires
        call_ensures(decimal_text, (n,), r),
        call_ensures(decimal_text, ((n / 10) as u64,), rest),
        call_ensures(decimal_text, ((n % 10) as u64,), last),
    ensures
        last@.len() == 1,
        last@[0] as u32 == 48 + n % 10,
        n < 10 ==> r@ == last@,
        n >= 10 ==> r@ == rest@ + last@,
{
    let d = n as nat % 10;
    assert(d < 10);
    assert((n % 10) as nat == d);
    assert((n / 10) as nat == n as nat / 10);
}

} // verus!
