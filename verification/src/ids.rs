//! Identifiers of workspaces and checkpoints.

use crate::digest::{
    hex_encode, hex_text, is_lower_hex_digit, lemma_hex_reads_back, sha256, sha256_digest,
};
use crate::text::{
    all_digits, chars_of, decimal, decimal_text, lemma_canonical_numeral, lemma_decimal_reads_back,
    number, parse_number, str_eq, text_of,
};
use vstd::prelude::*;
use vstd::utf8::encode_utf8;

verus! {

/// Maximum UTF-8 byte length accepted for a guarded checkpoint identifier.
pub const GUARDED_CHECKPOINT_ID_MAX_BYTES_V2: usize = 128;

/// Sentinel in the head snapshot's `child_ids` marking the writable subvolume.
pub const LIVE_CHILD: &'static str = "__live__";

/// The characters of `s` before the first `c`, or all of them where `c` does not occur.
pub open spec fn until(s: Seq<char>, c: char) -> Seq<char>
    decreases s.len(),
{
    if s.len() == 0 || s[0] == c {
        Seq::empty()
    } else {
        seq![s[0]] + until(s.drop_first(), c)
    }
}

/// What comes before the first `c` is what comes before the place where `c` is first met.
pub proof fn lemma_until(s: Seq<char>, c: char, i: int)
    requires
        0 <= i <= s.len(),
        forall|j: int| 0 <= j < i ==> s[j] != c,
        i < s.len() ==> s[i] == c,
    ensures
        until(s, c) == s.take(i),
    decreases i,
{
    if i == 0 {
        assert(s.take(0) =~= Seq::<char>::empty());
    } else {
        lemma_until(s.drop_first(), c, i - 1);
        assert(s.take(i) =~= seq![s[0]] + s.drop_first().take(i - 1));
    }
}

/// A workspace hash: six lower-case hexadecimal digits.
pub open spec fn is_workspace_hash(s: Seq<char>) -> bool {
    s.len() == 6 && forall|i: int| 0 <= i < s.len() ==> is_lower_hex_digit(#[trigger] s[i])
}

/// A collision suffix: a number from 2 that fits in 64 bits, without leading zeros.
pub open spec fn is_collision_suffix(s: Seq<char>) -> bool {
    s.len() > 0 && all_digits(s) && s[0] != '0' && 2 <= number(s) <= u64::MAX
}

/// Why a text is not a workspace identifier, or `None` where it is one.
pub open spec fn workspace_id_fault(id: Seq<char>) -> Option<Seq<char>> {
    let rest = id.skip(3);
    let base = until(rest, '-');
    if !"ws-"@.is_prefix_of(id) {
        Some("workspace id must start with 'ws-'"@)
    } else if !is_workspace_hash(base) {
        Some("workspace id hash must be exactly six lowercase hexadecimal characters"@)
    } else if base.len() < rest.len() && !is_collision_suffix(rest.skip(base.len() as int + 1)) {
        Some("workspace id collision suffix must be a canonical integer of at least 2"@)
    } else {
        None
    }
}

/// Whether `c` may stand in a checkpoint identifier.
pub open spec fn is_checkpoint_id_char(c: char) -> bool {
    'a' <= c <= 'z' || 'A' <= c <= 'Z' || '0' <= c <= '9' || c == '-' || c == '_' || c == '.'
}

/// Why a text is not a checkpoint identifier, or `None` where it is one.
pub open spec fn checkpoint_id_fault(id: Seq<char>) -> Option<Seq<char>> {
    if id.len() == 0 {
        Some("checkpoint id must not be empty"@)
    } else if id == LIVE_CHILD@ {
        Some("checkpoint id is reserved for the live workspace marker"@)
    } else if encode_utf8(id).len() > GUARDED_CHECKPOINT_ID_MAX_BYTES_V2 {
        Some("checkpoint id exceeds 128 bytes"@)
    } else if id == "."@ || id == ".."@ {
        Some("checkpoint id must not be '.' or '..'"@)
    } else if exists|i: int| 0 <= i < id.len() && !is_checkpoint_id_char(#[trigger] id[i]) {
        Some("checkpoint id may contain only ASCII letters, digits, '-', '_', and '.'"@)
    } else {
        None
    }
}

/// A validation result says what `fault` says.
pub open spec fn reports(r: Result<(), String>, fault: Option<Seq<char>>) -> bool {
    match r {
        Ok(_) => fault is None,
        Err(e) => fault == Some(e@),
    }
}

/// Validates the canonical `ws-xxxxxx` identifier and optional `-N` collision suffix.
pub fn validate_workspace_id_v2(ws_id: &str) -> (r: Result<(), String>)
    ensures
        reports(r, workspace_id_fault(ws_id@)),
{
    proof {
        reveal_strlit("ws-");
    }
    let v = chars_of(ws_id);
    if v.len() < 3 || v[0] != 'w' || v[1] != 's' || v[2] != '-' {
        proof {
            if "ws-"@.is_prefix_of(ws_id@) {
                let head = ws_id@.subrange(0, 3);
                assert(head[0] == 'w' && head[1] == 's' && head[2] == '-');
            }
        }
        return Err("workspace id must start with 'ws-'".to_owned());
    }
    let ghost rest = ws_id@.skip(3);
    let mut i: usize = 3;
    while i < v.len() && v[i] != '-'
        invariant
            v@ == ws_id@,
            3 <= i <= v@.len(),
            forall|j: int| 3 <= j < i ==> v@[j] != '-',
        decreases v@.len() - i,
    {
        i = i + 1;
    }
    proof {
        lemma_until(rest, '-', i - 3);
    }
    let ghost base = until(rest, '-');
    if i != 9 {
        return Err(
            "workspace id hash must be exactly six lowercase hexadecimal characters".to_owned(),
        );
    }
    let mut k: usize = 3;
    while k < i
        invariant
            v@ == ws_id@,
            rest == ws_id@.skip(3),
            base == rest.take(6),
            base == until(rest, '-'),
            "ws-"@.is_prefix_of(ws_id@),
            3 <= k <= i,
            i == 9,
            i <= v@.len(),
            forall|j: int| 3 <= j < k ==> is_lower_hex_digit(v@[j]),
        decreases i - k,
    {
        let c = v[k];
        if !(('0' <= c && c <= '9') || ('a' <= c && c <= 'f')) {
            proof {
                assert(base[k - 3] == c);
            }
            return Err(
                "workspace id hash must be exactly six lowercase hexadecimal characters".to_owned(),
            );
        }
        k = k + 1;
    }
    proof {
        assert(is_workspace_hash(base));
    }
    if i < v.len() {
        let suffix = text_of(&v, 10, v.len());
        proof {
            assert(suffix@ =~= rest.skip(base.len() as int + 1));
        }
        let bad = v.len() == 10 || v[10] == '0' || v[10] == '+' || match parse_number(
            suffix.as_str(),
            u64::MAX,
        ) {
            Some(n) => n < 2,
            None => true,
        };
        proof {
            if v@.len() > 10 {
                assert(suffix@[0] == v@[10]);
            }
        }
        if bad {
            return Err(
                "workspace id collision suffix must be a canonical integer of at least 2".to_owned(),
            );
        }
    }
    Ok(())
}

/// Validates a bounded, non-reserved checkpoint identifier safe as one path component.
pub fn validate_checkpoint_id_v2(checkpoint_id: &str) -> (r: Result<(), String>)
    ensures
        reports(r, checkpoint_id_fault(checkpoint_id@)),
{
    if checkpoint_id.is_empty() {
        return Err("checkpoint id must not be empty".to_owned());
    }
    if str_eq(checkpoint_id, LIVE_CHILD) {
        return Err("checkpoint id is reserved for the live workspace marker".to_owned());
    }
    if checkpoint_id.as_bytes().len() > GUARDED_CHECKPOINT_ID_MAX_BYTES_V2 {
        return Err("checkpoint id exceeds 128 bytes".to_owned());
    }
    if str_eq(checkpoint_id, ".") || str_eq(checkpoint_id, "..") {
        return Err("checkpoint id must not be '.' or '..'".to_owned());
    }
    let v = chars_of(checkpoint_id);
    let mut i: usize = 0;
    while i < v.len()
        invariant
            v@ == checkpoint_id@,
            checkpoint_id@.len() > 0,
            checkpoint_id@ != LIVE_CHILD@,
            encode_utf8(checkpoint_id@).len() <= GUARDED_CHECKPOINT_ID_MAX_BYTES_V2,
            checkpoint_id@ != "."@,
            checkpoint_id@ != ".."@,
            i <= v@.len(),
            forall|j: int| 0 <= j < i ==> is_checkpoint_id_char(#[trigger] v@[j]),
        decreases v@.len() - i,
    {
        let c = v[i];
        if !(('a' <= c && c <= 'z') || ('A' <= c && c <= 'Z') || ('0' <= c && c <= '9') || c == '-'
            || c == '_' || c == '.') {
            proof {
                assert(!is_checkpoint_id_char(checkpoint_id@[i as int]));
            }
            return Err(
                "checkpoint id may contain only ASCII letters, digits, '-', '_', and '.'".to_owned(),
            );
        }
        i = i + 1;
    }
    Ok(())
}

/// The workspace identifier of a path: `ws-` and the first three bytes of the SHA-256 digest
/// of the path, in hexadecimal.
pub open spec fn ws_id_base(path: Seq<char>) -> Seq<char> {
    "ws-"@ + hex_text(sha256_digest(encode_utf8(path)).take(3))
}

/// Derives a workspace identifier, without collision suffix, from a workspace path.
pub fn generate_ws_id_base(path: &str) -> (r: String)
    ensures
        r@ == ws_id_base(path@),
        workspace_id_fault(r@) is None,
{
    ws_id_from_digest(&sha256(path.as_bytes()))
}

/// Derives a workspace identifier, without collision suffix, from the digest of a path.
pub fn ws_id_from_digest(digest: &Vec<u8>) -> (r: String)
    requires
        digest@.len() >= 3,
    ensures
        r@ == "ws-"@ + hex_text(digest@.take(3)),
        workspace_id_fault(r@) is None,
{
    let hash3 = vstd::slice::slice_subrange(digest.as_slice(), 0, 3);
    let mut r = "ws-".to_owned();
    r.append(hex_encode(hash3).as_str());
    proof {
        assert(hash3@ =~= digest@.take(3));
        lemma_candidate_is_valid(hash3@, 1);
    }
    r
}

/// The identifier tried at the `n`-th attempt for a path whose identifier is `base`: the base
/// itself first, and from the second attempt the base with the attempt's number as suffix.
pub open spec fn ws_id_candidate(base: Seq<char>, n: nat) -> Seq<char> {
    if n < 2 {
        base
    } else {
        base + "-"@ + decimal(n)
    }
}

/// Builds the identifier tried at the `n`-th attempt.
pub fn ws_id_with_suffix(base: &str, n: u64) -> (r: String)
    ensures
        r@ == ws_id_candidate(base@, n as nat),
{
    let mut r = base.to_owned();
    if n >= 2 {
        r.append("-");
        r.append(decimal_text(n).as_str());
    }
    r
}

/// Every identifier that is derived from a digest, with any collision suffix, is a valid
/// workspace identifier.
pub proof fn lemma_candidate_is_valid(hash3: Seq<u8>, n: u64)
    requires
        hash3.len() == 3,
    ensures
        workspace_id_fault(ws_id_candidate("ws-"@ + hex_text(hash3), n as nat)) is None,
{
    reveal_strlit("ws-");
    reveal_strlit("-");
    let hash = hex_text(hash3);
    let id = ws_id_candidate("ws-"@ + hash, n as nat);
    let rest = id.skip(3);
    lemma_hex_reads_back(hash3);
    assert forall|j: int| 0 <= j < 6 implies rest[j] == hash[j] by {}
    assert forall|j: int| 0 <= j < 6 implies rest[j] != '-' by {
        assert(is_lower_hex_digit(hash[j]));
    }
    lemma_until(rest, '-', 6);
    assert(until(rest, '-') =~= hash);
    if n >= 2 {
        lemma_decimal_reads_back(n as nat);
        assert(rest.skip(7) =~= decimal(n as nat));
    }
}

/// A text is a workspace identifier exactly where it is `ws-`, six lower-case hexadecimal
/// digits and, if anything follows, a dash and the numeral of a 64-bit number from 2.
pub proof fn lemma_workspace_id_shape(id: Seq<char>)
    ensures
        workspace_id_fault(id) is None <==> exists|hash: Seq<char>, n: u64|
            is_workspace_hash(hash) && id == #[trigger] ws_id_candidate("ws-"@ + hash, n as nat),
{
    reveal_strlit("ws-");
    reveal_strlit("-");
    let rest = id.skip(3);
    let base = until(rest, '-');
    if workspace_id_fault(id) is None {
        lemma_until_is_prefix(rest, '-');
        if base.len() < rest.len() {
            let suffix = rest.skip(base.len() as int + 1);
            let n = number(suffix);
            lemma_canonical_numeral(suffix);
            assert(id =~= ws_id_candidate("ws-"@ + base, n));
            assert(id == ws_id_candidate("ws-"@ + base, (n as u64) as nat));
        } else {
            assert(id =~= ws_id_candidate("ws-"@ + base, 0));
            assert(id == ws_id_candidate("ws-"@ + base, 0u64 as nat));
        }
    }
    if exists|hash: Seq<char>, n: u64|
        is_workspace_hash(hash) && id == #[trigger] ws_id_candidate("ws-"@ + hash, n as nat) {
        let (hash, n) = choose|hash: Seq<char>, n: u64|
            is_workspace_hash(hash) && id == #[trigger] ws_id_candidate("ws-"@ + hash, n as nat);
        assert forall|j: int| 0 <= j < 6 implies rest[j] != '-' by {
            assert(is_lower_hex_digit(hash[j]));
            assert(rest[j] == hash[j]);
        }
        lemma_until(rest, '-', 6);
        assert(until(rest, '-') =~= hash);
        if n >= 2 {
            lemma_decimal_reads_back(n as nat);
            assert(rest.skip(7) =~= decimal(n as nat));
        }
    }
}

/// What comes before the first `c` is how the text begins, and `c` follows if anything does.
pub proof fn lemma_until_is_prefix(s: Seq<char>, c: char)
    ensures
        until(s, c).is_prefix_of(s),
        until(s, c).len() < s.len() ==> s[until(s, c).len() as int] == c,
    decreases s.len(),
{
    if s.len() == 0 || s[0] == c {
    } else {
        lemma_until_is_prefix(s.drop_first(), c);
    }
}

/// `s` without its trailing slashes.
pub open spec fn without_trailing_slashes(s: Seq<char>) -> Seq<char>
    decreases s.len(),
{
    if s.len() > 0 && s.last() == '/' {
        without_trailing_slashes(s.drop_last())
    } else {
        s
    }
}

/// `s` without its trailing slashes, where a text of slashes alone stands for the root.
pub open spec fn stripped_path(s: Seq<char>) -> Seq<char> {
    if s.len() > 0 && without_trailing_slashes(s).len() == 0 {
        "/"@
    } else {
        without_trailing_slashes(s)
    }
}

/// Strips trailing slashes, preserving the root `/`. The empty text stays empty.
pub fn strip_trailing_slashes(s: &str) -> (r: String)
    ensures
        r@ == stripped_path(s@),
{
    let v = chars_of(s);
    let mut n: usize = v.len();
    proof {
        assert(v@.take(n as int) =~= v@);
    }
    while n > 0 && v[n - 1] == '/'
        invariant
            n <= v@.len(),
            without_trailing_slashes(v@) == without_trailing_slashes(v@.take(n as int)),
        decreases n,
    {
        proof {
            assert(v@.take(n as int).drop_last() =~= v@.take(n - 1));
        }
        n = n - 1;
    }
    if n == 0 && v.len() > 0 {
        return "/".to_owned();
    }
    text_of(&v, 0, n)
}

/// Stripping a stripped path changes nothing.
pub proof fn lemma_strip_is_idempotent(s: Seq<char>)
    ensures
        stripped_path(stripped_path(s)) == stripped_path(s),
{
    reveal_strlit("/");
    lemma_without_trailing_slashes(s);
    let t = without_trailing_slashes(s);
    if t.len() == 0 && s.len() > 0 {
        let root = "/"@;
        assert(root.drop_last() =~= Seq::<char>::empty());
        assert(without_trailing_slashes(root) == without_trailing_slashes(root.drop_last()));
    }
}

proof fn lemma_without_trailing_slashes(s: Seq<char>)
    ensures
        without_trailing_slashes(s).len() > 0 ==> without_trailing_slashes(s).last() != '/',
    decreases s.len(),
{
    if s.len() > 0 && s.last() == '/' {
        lemma_without_trailing_slashes(s.drop_last());
    }
}

} // verus!
