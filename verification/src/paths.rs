//! File system paths, as texts and as sequences of components.

use crate::ids::{lemma_until, lemma_until_is_prefix, until};
use crate::text::{chars_of, contains_char, str_eq, text_of};
use crate::text_list::{join, texts};
use vstd::prelude::*;

verus! {

/// The named steps of a path: the texts between slashes, without empty ones and dots.
pub open spec fn steps(s: Seq<char>) -> Seq<Seq<char>>
    decreases s.len(),
{
    let seg = until(s, '/');
    let this = if seg.len() > 0 && seg != "."@ {
        seq![seg]
    } else {
        seq![]
    };
    if seg.len() >= s.len() {
        this
    } else {
        this + steps(s.skip(seg.len() as int + 1))
    }
}

/// Whether a path starts at the root.
pub open spec fn is_absolute(s: Seq<char>) -> bool {
    s.len() > 0 && s[0] == '/'
}

/// The components of a path: the root, if the path starts there, then its steps. Repeated and
/// trailing slashes do not count, nor do dots, but for one at the beginning of a relative path.
pub open spec fn components(s: Seq<char>) -> Seq<Seq<char>> {
    if is_absolute(s) {
        seq!["/"@] + steps(s)
    } else if until(s, '/') == "."@ {
        seq!["."@] + steps(s)
    } else {
        steps(s)
    }
}

/// The spelling of a path by its components, with single slashes.
pub open spec fn normal_path(s: Seq<char>) -> Seq<char> {
    let c = components(s);
    if is_absolute(s) {
        "/"@ + join(c.skip(1), "/"@)
    } else {
        join(c, "/"@)
    }
}

/// Whether path `s` lies at or below path `base`.
pub open spec fn lies_in(s: Seq<char>, base: Seq<char>) -> bool {
    components(base).is_prefix_of(components(s))
}

/// The last component of a path, where it names something.
pub open spec fn last_name(s: Seq<char>) -> Option<Seq<char>> {
    let c = components(s);
    if c.len() > 0 && c.last() != "/"@ && c.last() != ".."@ && c.last() != "."@ {
        Some(c.last())
    } else {
        None
    }
}

/// Path `child`, taken from directory `base` unless it is absolute.
pub open spec fn joined_path(base: Seq<char>, child: Seq<char>) -> Seq<char> {
    if is_absolute(child) || base.len() == 0 {
        child
    } else if base.last() == '/' {
        base + child
    } else {
        base + "/"@ + child
    }
}

/// The steps of the characters from `start` on.
fn collect_steps(v: &Vec<char>) -> (r: Vec<String>)
    ensures
        texts(r@) == steps(v@),
{
    let mut r: Vec<String> = Vec::new();
    let mut start: usize = 0;
    proof {
        reveal_strlit(".");
        assert(v@.skip(0) =~= v@);
        assert(texts(r@) + steps(v@) =~= steps(v@));
    }
    loop
        invariant
            start <= v@.len(),
            texts(r@) + steps(v@.skip(start as int)) == steps(v@),
            "."@ == seq!['.'],
        decreases v@.len() - start,
    {
        let mut end: usize = start;
        while end < v.len() && v[end] != '/'
            invariant
                start <= end <= v@.len(),
                forall|j: int| start <= j < end ==> v@[j] != '/',
            decreases v@.len() - end,
        {
            end = end + 1;
        }
        let ghost rest = v@.skip(start as int);
        let ghost seg = until(rest, '/');
        let ghost before = texts(r@);
        proof {
            lemma_until(rest, '/', end - start);
            assert(seg =~= v@.subrange(start as int, end as int));
        }
        if end > start && !(end - start == 1 && v[start] == '.') {
            let t = text_of(v, start, end);
            proof {
                if seg == "."@ {
                    assert(seg[0] == '.');
                }
            }
            r.push(t);
            proof {
                assert(texts(r@) =~= before.push(seg));
                assert(before.push(seg) =~= before + seq![seg]);
            }
        } else {
            proof {
                if end > start {
                    assert(seg =~= "."@);
                }
                assert(before =~= before + Seq::<Seq<char>>::empty());
            }
        }
        if end == v.len() {
            return r;
        }
        proof {
            assert(rest.skip(seg.len() as int + 1) =~= v@.skip(end + 1));
            let this = if seg.len() > 0 && seg != "."@ {
                seq![seg]
            } else {
                seq![]
            };
            assert(steps(rest) == this + steps(v@.skip(end + 1)));
            assert(before + (this + steps(v@.skip(end + 1))) =~= (before + this) + steps(
                v@.skip(end + 1),
            ));
        }
        start = end + 1;
    }
}

/// The components of a path.
pub fn path_components(s: &str) -> (r: Vec<String>)
    ensures
        texts(r@) == components(s@),
{
    let v = chars_of(s);
    let found = collect_steps(&v);
    let absolute = v.len() > 0 && v[0] == '/';
    let dotted = v.len() > 0 && v[0] == '.' && (v.len() == 1 || v[1] == '/');
    proof {
        reveal_strlit(".");
        if dotted {
            lemma_until(v@, '/', 1);
            assert(until(v@, '/') =~= "."@);
        } else if until(v@, '/') == "."@ {
            assert(until(v@, '/')[0] == '.');
            crate::ids::lemma_until_is_prefix(v@, '/');
            assert(v@.subrange(0, 1)[0] == '.');
            assert(v@[0] == '.');
        }
    }
    if !absolute && !dotted {
        return found;
    }
    let mut r: Vec<String> = Vec::new();
    if absolute {
        r.push("/".to_owned());
    } else {
        r.push(".".to_owned());
    }
    let ghost head = texts(r@);
    let mut i: usize = 0;
    while i < found.len()
        invariant
            i <= found@.len(),
            texts(r@) =~= head + texts(found@).take(i as int),
        decreases found@.len() - i,
    {
        let ghost before = texts(r@);
        r.push(found[i].clone());
        proof {
            assert(texts(r@) =~= before.push(texts(found@)[i as int]));
        }
        i = i + 1;
    }
    proof {
        assert(texts(found@).take(found@.len() as int) =~= texts(found@));
        assert(head =~= if absolute {
            seq!["/"@]
        } else {
            seq!["."@]
        });
    }
    r
}

/// The spelling of a path by its components, with single slashes.
pub fn normalize_path(s: &str) -> (r: String)
    ensures
        r@ == normal_path(s@),
{
    let c = path_components(s);
    let absolute = starts_at_root(s);
    let ghost cs = components(s@);
    let mut r = if absolute {
        "/".to_owned()
    } else {
        String::new()
    };
    let ghost head = r@;
    let first: usize = if absolute {
        1
    } else {
        0
    };
    let ghost list = cs.skip(first as int);
    proof {
        assert(cs.skip(0) =~= cs);
        assert(list.take(0) =~= Seq::<Seq<char>>::empty());
        assert(head + Seq::<char>::empty() =~= head);
    }
    let mut i: usize = first;
    while i < c.len()
        invariant
            first <= i <= c@.len(),
            first <= 1,
            cs == texts(c@),
            list == cs.skip(first as int),
            r@ == head + join(list.take(i - first), "/"@),
        decreases c@.len() - i,
    {
        let ghost done = list.take(i - first);
        let ghost more = list.take(i - first + 1);
        proof {
            assert(more.drop_last() =~= done);
            assert(more.last() == cs[i as int]);
        }
        if i > first {
            r.append("/");
        }
        r.append(c[i].as_str());
        proof {
            if i == first {
                assert(more.len() == 1);
                assert(r@ =~= head + more[0]);
            } else {
                assert(r@ =~= head + (join(done, "/"@) + "/"@ + more.last()));
            }
        }
        i = i + 1;
    }
    proof {
        assert(list.take(list.len() as int) =~= list);
        if !absolute {
            assert(head + join(list, "/"@) =~= join(list, "/"@));
        }
    }
    r
}

/// Whether a path starts at the root.
pub fn starts_at_root(s: &str) -> (r: bool)
    ensures
        r == is_absolute(s@),
{
    let v = chars_of(s);
    v.len() > 0 && v[0] == '/'
}

/// Whether the list `b` is a prefix of the list `a`.
fn is_prefix(a: &Vec<String>, b: &Vec<String>) -> (r: bool)
    ensures
        r == texts(b@).is_prefix_of(texts(a@)),
{
    if b.len() > a.len() {
        return false;
    }
    let mut i: usize = 0;
    while i < b.len()
        invariant
            i <= b@.len() <= a@.len(),
            forall|j: int| 0 <= j < i ==> texts(a@)[j] == texts(b@)[j],
        decreases b@.len() - i,
    {
        if !str_eq(a[i].as_str(), b[i].as_str()) {
            proof {
                assert(texts(a@).subrange(0, b@.len() as int)[i as int] != texts(b@)[i as int]);
            }
            return false;
        }
        i = i + 1;
    }
    proof {
        assert(texts(a@).subrange(0, b@.len() as int) =~= texts(b@));
    }
    true
}

/// Whether path `s` lies at or below path `base`.
pub fn path_starts_with(s: &str, base: &str) -> (r: bool)
    ensures
        r == lies_in(s@, base@),
{
    is_prefix(&path_components(s), &path_components(base))
}

/// Whether two paths have the same components.
pub fn same_path(a: &str, b: &str) -> (r: bool)
    ensures
        r == (components(a@) == components(b@)),
{
    let x = path_components(a);
    let y = path_components(b);
    proof {
        assert(texts(x@).len() == x@.len() && texts(y@).len() == y@.len());
    }
    if x.len() != y.len() {
        return false;
    }
    proof {
        assert(texts(x@).subrange(0, y@.len() as int) =~= texts(x@));
    }
    is_prefix(&x, &y)
}

/// The last component of a path, where it names something.
pub fn file_name(s: &str) -> (r: Option<String>)
    ensures
        crate::text_list::opt_text(r) == last_name(s@),
{
    let c = path_components(s);
    if c.len() == 0 {
        return None;
    }
    let last = &c[c.len() - 1];
    proof {
        assert(texts(c@).last() == last@);
    }
    if str_eq(last.as_str(), "/") || str_eq(last.as_str(), "..") || str_eq(last.as_str(), ".") {
        return None;
    }
    Some(last.clone())
}

/// The single component that path `s` has below `base`, where it has exactly one.
pub open spec fn only_step_below(s: Seq<char>, base: Seq<char>) -> Option<Seq<char>> {
    if lies_in(s, base) && components(s).len() == components(base).len() + 1 {
        Some(components(s).last())
    } else {
        None
    }
}

/// The single component that path `s` has below `base`, where it has exactly one.
pub fn single_component_below(s: &str, base: &str) -> (r: Option<String>)
    ensures
        crate::text_list::opt_text(r) == only_step_below(s@, base@),
{
    let c = path_components(s);
    let b = path_components(base);
    if is_prefix(&c, &b) && c.len() - b.len() == 1 {
        proof {
            assert(texts(c@).last() == c@[c@.len() - 1]@);
        }
        Some(c[c.len() - 1].clone())
    } else {
        None
    }
}

/// Path `child`, taken from directory `base` unless it is absolute.
pub fn join_path(base: &str, child: &str) -> (r: String)
    ensures
        r@ == joined_path(base@, child@),
{
    let b = chars_of(base);
    if starts_at_root(child) || b.len() == 0 {
        return child.to_owned();
    }
    let mut r = base.to_owned();
    if b[b.len() - 1] != '/' {
        r.append("/");
    }
    r.append(child);
    r
}

/// Why a path cannot be a registration path, or `None` where it can.
pub open spec fn registration_path_fault(path: Seq<char>) -> Option<Seq<char>> {
    if !is_absolute(path) || path.contains('\0') {
        Some("registration path must be a non-empty absolute path"@)
    } else if components(path).contains("."@) || components(path).contains(".."@) {
        Some("registration path must not contain '.' or '..' components"@)
    } else {
        None
    }
}

/// Validates a registration path: absolute, without NUL, and without steps to the same or the
/// parent directory.
pub fn validate_registration_path(value: &str) -> (r: Result<(), String>)
    ensures
        crate::ids::reports(r, registration_path_fault(value@)),
{
    if !starts_at_root(value) || contains_char(value, '\0') {
        return Err("registration path must be a non-empty absolute path".to_owned());
    }
    let c = path_components(value);
    if crate::text_list::contains_text(&c, ".") || crate::text_list::contains_text(&c, "..") {
        return Err("registration path must not contain '.' or '..' components".to_owned());
    }
    Ok(())
}

proof fn lemma_until_extends(s: Seq<char>, rest: Seq<char>)
    requires
        rest.len() > 0,
        rest[0] == '/',
    ensures
        until(s + rest, '/') == until(s, '/'),
{
    lemma_until_is_prefix(s, '/');
    let n = until(s, '/').len() as int;
    assert forall|j: int| 0 <= j < n implies (s + rest)[j] != '/' by {
        lemma_until_is_free(s, '/', j);
        assert(until(s, '/')[j] == s[j]);
    }
    lemma_until(s + rest, '/', n);
    assert((s + rest).take(n) =~= s.take(n));
    assert(s.take(n) =~= until(s, '/'));
}

proof fn lemma_until_is_free(s: Seq<char>, c: char, j: int)
    requires
        0 <= j < until(s, c).len(),
    ensures
        until(s, c)[j] != c,
    decreases s.len(),
{
    if j > 0 {
        lemma_until_is_free(s.drop_first(), c, j - 1);
    }
}

proof fn lemma_steps_of_name(name: Seq<char>)
    requires
        is_step_name(name),
    ensures
        steps(name) == seq![name],
{
    lemma_until(name, '/', name.len() as int);
    assert(name.take(name.len() as int) =~= name);
}

proof fn lemma_steps_append(s: Seq<char>, rest: Seq<char>)
    ensures
        steps(s + "/"@ + rest) == steps(s) + steps(rest),
    decreases s.len(),
{
    reveal_strlit("/");
    let whole = s + "/"@ + rest;
    let seg = until(s, '/');
    let n = seg.len() as int;
    assert(whole =~= s + ("/"@ + rest));
    lemma_until_extends(s, "/"@ + rest);
    lemma_until_is_prefix(s, '/');
    if n >= s.len() {
        assert(whole.skip(n + 1) =~= rest);
    } else {
        let tail = s.skip(n + 1);
        assert(whole.skip(n + 1) =~= tail + "/"@ + rest);
        lemma_steps_append(tail, rest);
        let this = if seg.len() > 0 && seg != "."@ {
            seq![seg]
        } else {
            seq![]
        };
        assert(this + (steps(tail) + steps(rest)) =~= (this + steps(tail)) + steps(rest));
    }
}

/// Whether a text can be one step of a path, neither empty nor a dot.
pub open spec fn is_step_name(name: Seq<char>) -> bool {
    name.len() > 0 && name != "."@ && forall|i: int| 0 <= i < name.len() ==> #[trigger] name[i] != '/'
}

/// A name taken from a directory adds itself to the directory's components.
pub proof fn lemma_joined_name(base: Seq<char>, name: Seq<char>)
    requires
        base.len() > 0,
        is_step_name(name),
    ensures
        components(joined_path(base, name)) == components(base).push(name),
{
    reveal_strlit("/");
    reveal_strlit(".");
    lemma_steps_of_name(name);
    let whole = joined_path(base, name);
    if base.last() == '/' {
        let b = base.drop_last();
        assert(base =~= b + "/"@ + Seq::<char>::empty());
        assert(whole =~= b + "/"@ + name);
        lemma_steps_append(b, Seq::empty());
        lemma_steps_append(b, name);
        assert(steps(Seq::<char>::empty()) =~= Seq::<Seq<char>>::empty());
        lemma_until_extends(b, "/"@ + name);
        lemma_until_extends(b, "/"@);
        assert(b + ("/"@ + name) =~= whole);
        assert(b + "/"@ =~= base);
    } else {
        lemma_steps_append(base, name);
        lemma_until_extends(base, "/"@ + name);
        assert(base + ("/"@ + name) =~= whole);
    }
    assert(components(whole) =~= components(base).push(name));
}

/// A path made of a directory and a name lies in the directory, one step below it, and has that
/// name.
pub proof fn lemma_joined_lies_in(base: Seq<char>, name: Seq<char>)
    requires
        base.len() > 0,
        is_step_name(name),
        name != ".."@,
    ensures
        lies_in(joined_path(base, name), base),
        only_step_below(joined_path(base, name), base) == Some(name),
        last_name(joined_path(base, name)) == Some(name),
{
    reveal_strlit("/");
    lemma_joined_name(base, name);
}

proof fn lemma_steps_are_names(s: Seq<char>)
    ensures
        forall|i: int| 0 <= i < steps(s).len() ==> is_step_name(#[trigger] steps(s)[i]),
    decreases s.len(),
{
    let seg = until(s, '/');
    assert forall|j: int| 0 <= j < seg.len() implies #[trigger] seg[j] != '/' by {
        lemma_until_is_free(s, '/', j);
    }
    let this = if seg.len() > 0 && seg != "."@ {
        seq![seg]
    } else {
        seq![]
    };
    if seg.len() < s.len() {
        let tail = s.skip(seg.len() as int + 1);
        lemma_steps_are_names(tail);
        assert forall|i: int| 0 <= i < steps(s).len() implies is_step_name(
            #[trigger] steps(s)[i],
        ) by {
            if i >= this.len() {
                assert(steps(s)[i] == steps(tail)[i - this.len()]);
            }
        }
    }
}

proof fn lemma_steps_of_join(names: Seq<Seq<char>>)
    requires
        forall|i: int| 0 <= i < names.len() ==> is_step_name(#[trigger] names[i]),
    ensures
        steps(join(names, "/"@)) == names,
    decreases names.len(),
{
    if names.len() == 0 {
        assert(names =~= Seq::empty());
    } else {
        lemma_steps_of_name(names.last());
        if names.len() == 1 {
            assert(names =~= seq![names[0]]);
        } else {
            let before = names.drop_last();
            lemma_steps_of_join(before);
            lemma_steps_append(join(before, "/"@), names.last());
            assert(names =~= before + seq![names.last()]);
        }
    }
}

proof fn lemma_join_from_dot(names: Seq<Seq<char>>)
    ensures
        join(seq!["."@] + names, "/"@) == if names.len() == 0 {
            "."@
        } else {
            "."@ + "/"@ + join(names, "/"@)
        },
    decreases names.len(),
{
    let all = seq!["."@] + names;
    if names.len() > 0 {
        let before = names.drop_last();
        assert(all.drop_last() =~= seq!["."@] + before);
        lemma_join_from_dot(before);
        if before.len() == 0 {
            assert(join(names, "/"@) == names[0]);
        } else {
            assert(join(all, "/"@) =~= "."@ + "/"@ + (join(before, "/"@) + "/"@ + names.last()));
        }
    }
}

proof fn lemma_join_starts(names: Seq<Seq<char>>)
    requires
        names.len() > 0,
        forall|i: int| 0 <= i < names.len() ==> is_step_name(#[trigger] names[i]),
    ensures
        until(join(names, "/"@), '/') == names[0],
        !is_absolute(join(names, "/"@)),
    decreases names.len(),
{
    reveal_strlit("/");
    let text = join(names, "/"@);
    if names.len() == 1 {
        lemma_until(text, '/', text.len() as int);
        assert(text.take(text.len() as int) =~= text);
        assert(names[0][0] != '/');
    } else {
        let before = names.drop_last();
        let rest = "/"@ + names.last();
        lemma_join_starts(before);
        lemma_until_extends(join(before, "/"@), rest);
        assert(text =~= join(before, "/"@) + rest);
        lemma_until_is_prefix(join(before, "/"@), '/');
    }
}

/// The normal spelling of a path has the components of the path.
pub proof fn lemma_normal_path_components(s: Seq<char>)
    ensures
        components(normal_path(s)) == components(s),
{
    reveal_strlit("/");
    reveal_strlit(".");
    lemma_steps_are_names(s);
    let names = steps(s);
    let text = join(names, "/"@);
    lemma_steps_of_join(names);
    if is_absolute(s) {
        assert(components(s).skip(1) =~= names);
        assert("/"@ + text =~= Seq::<char>::empty() + "/"@ + text);
        lemma_steps_append(Seq::empty(), text);
        assert(steps(Seq::<char>::empty()) =~= Seq::<Seq<char>>::empty());
        assert(steps("/"@ + text) =~= names);
    } else if until(s, '/') == "."@ {
        lemma_join_from_dot(names);
        lemma_until("."@, '/', 1);
        assert("."@.take(1) =~= "."@);
        assert(steps("."@) =~= Seq::<Seq<char>>::empty());
        if names.len() > 0 {
            lemma_steps_append("."@, text);
            lemma_until_extends("."@, "/"@ + text);
            assert("."@ + ("/"@ + text) =~= "."@ + "/"@ + text);
            assert(steps("."@ + "/"@ + text) =~= names);
        }
    } else if names.len() > 0 {
        lemma_join_starts(names);
    }
}

proof fn lemma_root_comes_first(s: Seq<char>)
    ensures
        is_absolute(s) <==> components(s).len() > 0 && components(s)[0] == "/"@,
{
    reveal_strlit("/");
    reveal_strlit(".");
    lemma_steps_are_names(s);
    if !is_absolute(s) && until(s, '/') != "."@ && steps(s).len() > 0 {
        assert(is_step_name(steps(s)[0]));
        assert("/"@[0] == '/');
    }
    if !is_absolute(s) && until(s, '/') == "."@ {
        assert("."@[0] != "/"@[0]);
    }
}

/// Two paths have the same normal spelling exactly where they have the same components: what is
/// kept by normal spelling is found by any spelling of the path, and by no other path.
pub proof fn lemma_normal_path_is_faithful(a: Seq<char>, b: Seq<char>)
    ensures
        normal_path(a) == normal_path(b) <==> components(a) == components(b),
{
    lemma_normal_path_components(a);
    lemma_normal_path_components(b);
    if components(a) == components(b) {
        lemma_root_comes_first(a);
        lemma_root_comes_first(b);
    }
}

} // verus!
