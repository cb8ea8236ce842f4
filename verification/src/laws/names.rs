//! Promises about identifiers and paths.

use crate::ids::{
    generate_ws_id_base, is_checkpoint_id_char, strip_trailing_slashes, validate_checkpoint_id_v2,
    validate_workspace_id_v2, ws_id_from_digest, ws_id_with_suffix,
};
use crate::paths::{
    file_name, is_step_name, join_path, lemma_joined_lies_in, lemma_normal_path_is_faithful,
    normalize_path, path_components, path_starts_with, same_path, single_component_below,
    starts_at_root, validate_registration_path,
};
use crate::text::decimal;
use crate::text_list::texts;
use vstd::prelude::*;
use vstd::utf8::encode_utf8;

verus! {

/// Whether a character is a digit.
pub open spec fn is_decimal(c: char) -> bool {
    '0' <= c <= '9'
}

/// A workspace identifier is `ws-`, six lower-case hexadecimal digits and, if anything follows, a
/// dash and a number without leading zeros.
pub proof fn lemma_workspace_identifiers(id: &str, r: Result<(), String>)
    requires
        call_ensures(validate_workspace_id_v2, (id,), r),
    ensures
        r is Ok ==> {
            let s = id@;
            &&& s.len() >= 9
            &&& s[0] == 'w' && s[1] == 's' && s[2] == '-'
            &&& forall|i: int|
                3 <= i < 9 ==> is_decimal(#[trigger] s[i]) || 'a' <= s[i] <= 'f'
            &&& s.len() > 9 ==> s.len() > 10 && s[9] == '-' && s[10] != '0'
            &&& forall|i: int| 10 <= i < s.len() ==> is_decimal(#[trigger] s[i])
        },
        ({
            let s = id@;
            &&& s.len() == 9
            &&& s[0] == 'w' && s[1] == 's' && s[2] == '-'
            &&& forall|i: int|
                3 <= i < 9 ==> is_decimal(#[trigger] s[i]) || 'a' <= s[i] <= 'f'
        }) ==> r is Ok,
{
    reveal_strlit("ws-");
    let s = id@;
    let p = "ws-"@;
    if p.is_prefix_of(s) {
        assert(s.subrange(0, 3)[0] == s[0] && s.subrange(0, 3)[1] == s[1] && s.subrange(0, 3)[2]
            == s[2]);
    }
    let rest = s.skip(3);
    let base = crate::ids::until(rest, '-');
    crate::ids::lemma_until_is_prefix(rest, '-');
    if r is Ok {
        assert forall|i: int| 3 <= i < 9 implies is_decimal(#[trigger] s[i]) || 'a' <= s[i]
            <= 'f' by {
            assert(base[i - 3] == rest[i - 3]);
            assert(rest[i - 3] == s[i]);
            assert(crate::digest::is_lower_hex_digit(base[i - 3]));
        }
        if s.len() > 9 {
            let tail = rest.skip(7);
            assert(rest[6] == s[9]);
            assert(tail.len() > 0);
            assert(tail[0] == s[10]);
            assert forall|i: int| 10 <= i < s.len() implies is_decimal(#[trigger] s[i]) by {
                assert(tail[i - 10] == s[i]);
            }
        }
    }
    if s.len() == 9 && s[0] == 'w' && s[1] == 's' && s[2] == '-' && (forall|i: int|
        3 <= i < 9 ==> is_decimal(#[trigger] s[i]) || 'a' <= s[i] <= 'f') {
        assert(s.subrange(0, 3) =~= p);
        assert forall|j: int| 0 <= j < 6 implies rest[j] != '-' by {
            assert(rest[j] == s[j + 3]);
        }
        crate::ids::lemma_until(rest, '-', 6);
        assert(rest.take(6) =~= rest);
        assert forall|j: int| 0 <= j < base.len() implies crate::digest::is_lower_hex_digit(
            #[trigger] base[j],
        ) by {
            assert(base[j] == s[j + 3]);
        }
    }
}

/// A checkpoint identifier is one plain name: not empty, of at most 128 bytes, of letters, digits,
/// dashes, underscores and dots, and neither the marker of the live workspace nor a dot or two.
pub proof fn lemma_checkpoint_identifiers(id: &str, r: Result<(), String>)
    requires
        call_ensures(validate_checkpoint_id_v2, (id,), r),
    ensures
        r is Ok <==> {
            let s = id@;
            &&& s.len() > 0
            &&& encode_utf8(s).len() <= 128
            &&& s != seq!['_', '_', 'l', 'i', 'v', 'e', '_', '_']
            &&& s != seq!['.']
            &&& s != seq!['.', '.']
            &&& forall|i: int|
                0 <= i < s.len() ==> {
                    let c = #[trigger] s[i];
                    is_decimal(c) || 'a' <= c <= 'z' || 'A' <= c <= 'Z' || c == '-' || c == '_' || c
                        == '.'
                }
        },
{
    reveal_strlit("__live__");
    reveal_strlit(".");
    reveal_strlit("..");
    assert("__live__"@ =~= seq!['_', '_', 'l', 'i', 'v', 'e', '_', '_']);
    assert("."@ =~= seq!['.']);
    assert(".."@ =~= seq!['.', '.']);
    let s = id@;
    if forall|i: int|
        0 <= i < s.len() ==> {
            let c = #[trigger] s[i];
            is_decimal(c) || 'a' <= c <= 'z' || 'A' <= c <= 'Z' || c == '-' || c == '_' || c == '.'
        } {
        assert forall|i: int| 0 <= i < s.len() implies is_checkpoint_id_char(#[trigger] s[i]) by {}
    } else {
        let i = choose|i: int|
            0 <= i < s.len() && !({
                let c = #[trigger] s[i];
                is_decimal(c) || 'a' <= c <= 'z' || 'A' <= c <= 'Z' || c == '-' || c == '_' || c
                    == '.'
            });
        assert(!is_checkpoint_id_char(s[i]));
    }
}

/// The identifier of a path is always the same, and is a valid one; so is each of its variants.
pub proof fn lemma_identifiers_of_paths(
    path: &str,
    a: String,
    b: String,
    n: u64,
    variant: String,
    id: &str,
    r: Result<(), String>,
)
    requires
        call_ensures(generate_ws_id_base, (path,), a),
        call_ensures(generate_ws_id_base, (path,), b),
        id@ == a@,
        call_ensures(validate_workspace_id_v2, (id,), r),
        call_ensures(ws_id_with_suffix, (id, n), variant),
    ensures
        a@ == b@,
        r is Ok,
        n < 2 ==> variant@ == a@,
        n >= 2 ==> variant@ == a@ + seq!['-'] + decimal(n as nat),
{
    reveal_strlit("-");
    assert("-"@ =~= seq!['-']);
}

/// The identifier made of a digest goes by its first three bytes alone.
pub proof fn lemma_identifiers_of_digests(x: Vec<u8>, y: Vec<u8>, a: String, b: String)
    requires
        x@.len() >= 3,
        y@.len() >= 3,
        x@[0] == y@[0] && x@[1] == y@[1] && x@[2] == y@[2],
        call_ensures(ws_id_from_digest, (&x,), a),
        call_ensures(ws_id_from_digest, (&y,), b),
    ensures
        a@ == b@,
{
    assert(x@.take(3) =~= y@.take(3));
}

proof fn lemma_slashes(s: Seq<char>)
    ensures
        ({
            let t = crate::ids::without_trailing_slashes(s);
            &&& t.len() <= s.len()
            &&& s.take(t.len() as int) == t
            &&& forall|i: int| t.len() <= i < s.len() ==> #[trigger] s[i] == '/'
            &&& t.len() > 0 ==> t.last() != '/'
        }),
    decreases s.len(),
{
    let t = crate::ids::without_trailing_slashes(s);
    if s.len() > 0 && s.last() == '/' {
        let d = s.drop_last();
        lemma_slashes(d);
        assert(s.take(t.len() as int) =~= d.take(t.len() as int));
        assert forall|i: int| t.len() <= i < s.len() implies #[trigger] s[i] == '/' by {
            if i < d.len() {
                assert(d[i] == s[i]);
            }
        }
    } else {
        assert(s.take(s.len() as int) =~= s);
    }
}

/// A path loses its trailing slashes and nothing else; the root stays the root, and what has no
/// trailing slash stays as it is.
pub proof fn lemma_trailing_slashes(s: &str, r: String)
    requires
        call_ensures(strip_trailing_slashes, (s,), r),
    ensures
        r@.len() <= s@.len(),
        s@.take(r@.len() as int) == r@,
        forall|i: int| r@.len() <= i < s@.len() ==> #[trigger] s@[i] == '/',
        s@.len() > 0 ==> r@.len() > 0,
        r@.len() > 1 ==> r@.last() != '/',
        s@.len() == 0 || s@.last() != '/' ==> r@ == s@,
{
    reveal_strlit("/");
    lemma_slashes(s@);
    let t = crate::ids::without_trailing_slashes(s@);
    if s@.len() > 0 && t.len() == 0 {
        assert(s@[0] == '/');
        assert(s@.take(1) =~= "/"@);
    }
    if s@.len() == 0 || s@.last() != '/' {
        assert(t == s@);
    }
}

/// Two paths are the same exactly where their normal spellings are; and a path lies in itself.
pub proof fn lemma_spellings(
    a: &str,
    b: &str,
    x: String,
    y: String,
    same: bool,
    inside: bool,
    rooted: bool,
)
    requires
        call_ensures(normalize_path, (a,), x),
        call_ensures(normalize_path, (b,), y),
        call_ensures(same_path, (a, b), same),
        call_ensures(path_starts_with, (a, b), inside),
        call_ensures(starts_at_root, (a,), rooted),
    ensures
        same <==> x@ == y@,
        same ==> inside,
        rooted <==> a@.len() > 0 && a@[0] == '/',
{
    lemma_normal_path_is_faithful(a@, b@);
    let c = crate::paths::components(a@);
    assert(c =~= c.subrange(0, c.len() as int));
}

/// A path lies in another exactly where it has all of its components first.
pub proof fn lemma_paths_lie_in_their_beginnings(
    a: &str,
    b: &str,
    x: Vec<String>,
    y: Vec<String>,
    inside: bool,
)
    requires
        call_ensures(path_components, (a,), x),
        call_ensures(path_components, (b,), y),
        call_ensures(path_starts_with, (a, b), inside),
    ensures
        inside <==> y@.len() <= x@.len() && (forall|i: int|
            0 <= i < y@.len() ==> (#[trigger] x@[i])@ == y@[i]@),
{
    let s = texts(x@);
    let t = texts(y@);
    assert(s.len() == x@.len() && t.len() == y@.len());
    if inside {
        assert forall|i: int| 0 <= i < y@.len() implies (#[trigger] x@[i])@ == y@[i]@ by {
            assert(s.subrange(0, t.len() as int)[i] == s[i]);
            assert(t[i] == y@[i]@);
            assert(s[i] == x@[i]@);
        }
    }
    if y@.len() <= x@.len() && (forall|i: int|
        0 <= i < y@.len() ==> (#[trigger] x@[i])@ == y@[i]@) {
        assert(t =~= s.subrange(0, t.len() as int)) by {
            assert forall|i: int| 0 <= i < t.len() implies t[i] == s.subrange(
                0,
                t.len() as int,
            )[i] by {
                assert(s[i] == x@[i]@);
            }
        }
    }
}

/// A name taken from a directory lies in the directory, one step below it, and is called by that
/// name; an absolute path is taken from nowhere.
pub proof fn lemma_joining(
    base: &str,
    name: &str,
    r: String,
    joined: &str,
    inside: bool,
    called: Option<String>,
    step: Option<String>,
)
    requires
        call_ensures(join_path, (base, name), r),
        joined@ == r@,
        call_ensures(path_starts_with, (joined, base), inside),
        call_ensures(file_name, (joined,), called),
        call_ensures(single_component_below, (joined, base), step),
    ensures
        name@.len() > 0 && name@[0] == '/' ==> r@ == name@,
        base@.len() > 0 && is_step_name(name@) && name@ != seq!['.', '.'] ==> {
            &&& inside
            &&& called matches Some(n) && n@ == name@
            &&& step matches Some(n) && n@ == name@
        },
{
    reveal_strlit("..");
    assert(".."@ =~= seq!['.', '.']);
    if base@.len() > 0 && is_step_name(name@) && name@ != ".."@ {
        lemma_joined_lies_in(base@, name@);
    }
}

/// A registration path is absolute, without NUL, and goes neither nowhere nor up.
pub proof fn lemma_registration_paths(
    value: &str,
    parts: Vec<String>,
    r: Result<(), String>,
)
    requires
        call_ensures(validate_registration_path, (value,), r),
        call_ensures(path_components, (value,), parts),
    ensures
        r is Ok <==> {
            &&& value@.len() > 0
            &&& value@[0] == '/'
            &&& !value@.contains('\0')
            &&& forall|i: int|
                0 <= i < parts@.len() ==> (#[trigger] parts@[i])@ != seq!['.'] && parts@[i]@ != seq![
                    '.',
                    '.',
                ]
        },
{
    reveal_strlit(".");
    reveal_strlit("..");
    assert("."@ =~= seq!['.']);
    assert(".."@ =~= seq!['.', '.']);
    let c = crate::paths::components(value@);
    assert(c.len() == parts@.len());
    assert forall|i: int| 0 <= i < parts@.len() implies c[i] == (#[trigger] parts@[i])@ by {}
    if !c.contains("."@) && !c.contains(".."@) {
        assert forall|i: int| 0 <= i < parts@.len() implies (#[trigger] parts@[i])@ != seq!['.']
            && parts@[i]@ != seq!['.', '.'] by {
            assert(c[i] == parts@[i]@);
            assert(c.contains(c[i]));
        }
    } else if c.contains("."@) {
        let i = choose|i: int| 0 <= i < c.len() && c[i] == "."@;
        assert(parts@[i]@ == c[i]);
    } else {
        let i = choose|i: int| 0 <= i < c.len() && c[i] == ".."@;
        assert(parts@[i]@ == c[i]);
    }
}

/// The name of a path is its last component, where that is a name: not the root, and no dots.
pub proof fn lemma_file_names(s: &str, parts: Vec<String>, r: Option<String>)
    requires
        call_ensures(path_components, (s,), parts),
        call_ensures(file_name, (s,), r),
    ensures
        r matches Some(n) ==> parts@.len() > 0 && n@ == parts@.last()@ && n@ != seq!['/'] && n@
            != seq!['.'] && n@ != seq!['.', '.'],
        r is None ==> parts@.len() == 0 || parts@.last()@ == seq!['/'] || parts@.last()@ == seq!['.']
            || parts@.last()@ == seq!['.', '.'],
{
    reveal_strlit("/");
    reveal_strlit(".");
    reveal_strlit("..");
    assert("/"@ =~= seq!['/']);
    assert("."@ =~= seq!['.']);
    assert(".."@ =~= seq!['.', '.']);
    let c = texts(parts@);
    assert(c.len() == parts@.len());
    if parts@.len() > 0 {
        assert(c.last() == parts@.last()@);
    }
}

/// A path has one component below another exactly where it lies in it and has one more; that is it.
pub proof fn lemma_single_components(
    s: &str,
    base: &str,
    parts: Vec<String>,
    above: Vec<String>,
    inside: bool,
    r: Option<String>,
)
    requires
        call_ensures(path_components, (s,), parts),
        call_ensures(path_components, (base,), above),
        call_ensures(path_starts_with, (s, base), inside),
        call_ensures(single_component_below, (s, base), r),
    ensures
        r is Some <==> inside && parts@.len() == above@.len() + 1,
        r matches Some(n) ==> n@ == parts@.last()@,
{
    let c = texts(parts@);
    assert(c.len() == parts@.len());
    assert(texts(above@).len() == above@.len());
    if parts@.len() > 0 {
        assert(c.last() == parts@.last()@);
    }
}

/// The normal spelling of a path is one of that path, and is spelled normally.
pub proof fn lemma_normal_spellings(
    s: &str,
    x: String,
    text: &str,
    y: String,
    same: bool,
)
    requires
        call_ensures(normalize_path, (s,), x),
        text@ == x@,
        call_ensures(normalize_path, (text,), y),
        call_ensures(same_path, (s, text), same),
    ensures
        same,
        y@ == x@,
{
    crate::paths::lemma_normal_path_components(s@);
    lemma_normal_path_is_faithful(s@, text@);
}

} // verus!
