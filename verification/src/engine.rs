use vstd::prelude::*;
use crate::error::ReqError;
use crate::gen::dec_int_text;
use crate::gen::gen_timestamp_text;
use crate::gen::gen_uuid;
use crate::gen::uuid_shaped;
use crate::json::Json;
use crate::text::chars_to_string;
use crate::text::chars_to_string_range;
use crate::text::str_eq;
use crate::text::str_to_chars;

verus! {

impl DeepView for Json {
    type V = Json;

    open spec fn deep_view(&self) -> Json {
        *self
    }
}

/// The characters a placeholder identifier may contain.
pub open spec fn is_ident_char(c: char) -> bool {
    ('a' <= c && c <= 'z') || ('A' <= c && c <= 'Z') || ('0' <= c && c <= '9') || c == '_'
        || c == '-'
}

/// The length of the run of identifier characters starting at `i`.
pub open spec fn ident_run(s: Seq<char>, i: int) -> int
    decreases s.len() - i,
{
    if i < 0 || i >= s.len() || !is_ident_char(s[i]) {
        0
    } else {
        1 + ident_run(s, i + 1)
    }
}

/// The prefix that marks a generated placeholder: `gen:`.
pub open spec fn gen_prefix() -> Seq<char> {
    seq!['g', 'e', 'n', ':']
}

/// True when the closing braces `}}` stand at position `k`.
pub open spec fn closes_at(s: Seq<char>, k: int) -> bool {
    k + 2 <= s.len() && s[k] == '}' && s[k + 1] == '}'
}

/// The inner identifier of the placeholder that starts at `i`, if one does.
///
/// A placeholder is `{{ident}}`, or `{{gen:ident}}` when the grammar
/// admits generated placeholders; `ident` is a non-empty run of identifier
/// characters, taken as long as possible, exactly as the stores match it.
/// With the generated grammar the inner identifier keeps its `gen:` prefix.
pub open spec fn ph_at(s: Seq<char>, i: int, allow_gen: bool) -> Option<Seq<char>> {
    if 0 <= i && i + 4 <= s.len() && s[i] == '{' && s[i + 1] == '{' {
        if allow_gen && i + 6 <= s.len() && s.subrange(i + 2, i + 6) == gen_prefix()
            && ident_run(s, i + 6) > 0 && closes_at(s, i + 6 + ident_run(s, i + 6)) {
            Some(s.subrange(i + 2, i + 6 + ident_run(s, i + 6)))
        } else if ident_run(s, i + 2) > 0 && closes_at(s, i + 2 + ident_run(s, i + 2)) {
            Some(s.subrange(i + 2, i + 2 + ident_run(s, i + 2)))
        } else {
            None
        }
    } else {
        None
    }
}

/// A placeholder with inner identifier `id` spans `id.len() + 4`
/// characters of the text: braces on both sides around the identifier.
pub open spec fn ph_span(id: Seq<char>) -> int {
    id.len() as int + 4
}

/// The identifiers of all placeholders in `s` from position `i` on, in
/// order of appearance, duplicates included; matches do not overlap.
pub open spec fn scan_ids(s: Seq<char>, i: int, allow_gen: bool) -> Seq<Seq<char>>
    decreases s.len() - i,
    when i >= 0
{
    if i < 0 || i >= s.len() {
        Seq::empty()
    } else {
        match ph_at(s, i, allow_gen) {
            Some(id) => seq![id] + scan_ids(s, i + ph_span(id), allow_gen),
            None => scan_ids(s, i + 1, allow_gen),
        }
    }
}

/// The length of the run of identifier characters starting at `i`.
fn ident_run_exec(s: &Vec<char>, i: usize) -> (r: usize)
    requires
        i <= s@.len(),
    ensures
        r == ident_run(s@, i as int),
        i + r <= s@.len(),
{
    let mut k: usize = i;
    while k < s.len() && is_ident_char_exec(s[k])
        invariant
            i <= k <= s@.len(),
            ident_run(s@, i as int) == (k - i) + ident_run(s@, k as int),
        decreases s@.len() - k,
    {
        k = k + 1;
    }
    proof {
        assert(ident_run(s@, k as int) == 0);
    }
    k - i
}

/// Whether a character may stand in a placeholder identifier.
fn is_ident_char_exec(c: char) -> (r: bool)
    ensures
        r == is_ident_char(c),
{
    ('a' <= c && c <= 'z') || ('A' <= c && c <= 'Z') || ('0' <= c && c <= '9') || c == '_'
        || c == '-'
}

/// Finds the placeholder starting at `i`, returning the bounds of its
/// inner identifier.
fn ph_at_exec(s: &Vec<char>, i: usize, allow_gen: bool) -> (r: Option<(usize, usize)>)
    requires
        i < s@.len(),
    ensures
        match ph_at(s@, i as int, allow_gen) {
            Some(id) => {
                &&& r matches Some((a, b))
                &&& a == i + 2
                &&& i + 2 <= b as int && b + 2 <= s@.len()
                &&& id == s@.subrange(a as int, b as int)
            },
            None => r is None,
        },
{
    let n = s.len();
    if !(n - i >= 4 && s[i] == '{' && s[i + 1] == '{') {
        return None;
    }
    if allow_gen && n - i >= 6 && s[i + 2] == 'g' && s[i + 3] == 'e' && s[i + 4] == 'n'
        && s[i + 5] == ':' {
        proof {
            assert(s@.subrange(i + 2, i + 6 as int) =~= gen_prefix());
        }
        let run = ident_run_exec(s, i + 6);
        let rem = n - (i + 6);
        if run > 0 && rem - run >= 2 && s[i + 6 + run] == '}' && s[i + 6 + run + 1] == '}' {
            return Some((i + 2, i + 6 + run));
        }
    } else {
        proof {
            if allow_gen && i + 6 <= s@.len() {
                assert(n - i >= 6);
                assert(s@.subrange(i + 2, i + 6 as int) != gen_prefix()) by {
                    if s@.subrange(i + 2, i + 6 as int) == gen_prefix() {
                        assert(s@[i + 2] == 'g' && s@[i + 3] == 'e' && s@[i + 4] == 'n' && s@[i + 5]
                            == ':');
                    }
                }
            }
        }
    }
    let run = ident_run_exec(s, i + 2);
    let rem = n - (i + 2);
    if run > 0 && rem - run >= 2 && s[i + 2 + run] == '}' && s[i + 2 + run + 1] == '}' {
        return Some((i + 2, i + 2 + run));
    }
    None
}

/// The identifiers of all placeholders in `text`, in order of appearance,
/// duplicates included. With `allow_gen` the generated grammar applies and
/// `gen:` identifiers are kept with their prefix.
pub fn extract_placeholders(text: &str, allow_gen: bool) -> (r: Vec<String>)
    ensures
        r.deep_view() == scan_ids(text@, 0, allow_gen),
{
    let s = str_to_chars(text);
    let mut r: Vec<String> = Vec::new();
    let mut i: usize = 0;
    proof {
        assert(r.deep_view() + scan_ids(s@, 0, allow_gen) =~= scan_ids(s@, 0, allow_gen));
    }
    while i < s.len()
        invariant
            s@ == text@,
            0 <= i <= s@.len(),
            r.deep_view() + scan_ids(s@, i as int, allow_gen) == scan_ids(s@, 0, allow_gen),
        decreases s@.len() - i,
    {
        match ph_at_exec(&s, i, allow_gen) {
            Some((a, b)) => {
                let ghost prev = r.deep_view();
                let ghost sid = s@.subrange(a as int, b as int);
                let id = chars_to_string_range(&s, a, b);
                r.push(id);
                proof {
                    assert(r.deep_view() =~= prev.push(sid));
                    assert(scan_ids(s@, i as int, allow_gen) == seq![sid] + scan_ids(
                        s@,
                        i + ph_span(sid),
                        allow_gen,
                    ));
                    assert(b + 2 == i + ph_span(sid));
                    assert(r.deep_view() + scan_ids(s@, b + 2, allow_gen) =~= scan_ids(
                        s@,
                        0,
                        allow_gen,
                    ));
                }
                i = b + 2;
            },
            None => {
                i = i + 1;
            },
        }
    }
    proof {
        assert(scan_ids(s@, i as int, allow_gen) =~= Seq::<Seq<char>>::empty());
        assert(r.deep_view() =~= scan_ids(text@, 0, allow_gen));
    }
    r
}

/// The value bound to `id`, at its first occurrence among the bindings.
pub open spec fn lookup(b: Seq<(Seq<char>, Seq<char>)>, id: Seq<char>) -> Option<Seq<char>>
    decreases b.len(),
{
    if b.len() <= 0 {
        None
    } else if b[0].0 == id {
        Some(b[0].1)
    } else {
        lookup(b.drop_first(), id)
    }
}

/// The value of the variable entry named `id`, at its first occurrence.
pub open spec fn var_lookup(c: Seq<(Seq<char>, Json)>, id: Seq<char>) -> Option<Json>
    decreases c.len(),
{
    if c.len() <= 0 {
        None
    } else if c[0].0 == id {
        Some(c[0].1)
    } else {
        var_lookup(c.drop_first(), id)
    }
}

/// Binding one more pair at the end leaves every bound identifier bound
/// to the same value, and binds an unbound one exactly when it matches.
pub proof fn lemma_lookup_push(
    b: Seq<(Seq<char>, Seq<char>)>,
    p: (Seq<char>, Seq<char>),
    id: Seq<char>,
)
    ensures
        lookup(b, id) is Some ==> lookup(b.push(p), id) == lookup(b, id),
        lookup(b, id) is None ==> lookup(b.push(p), id) == (if p.0 == id {
            Some(p.1)
        } else {
            None
        }),
    decreases b.len(),
{
    if b.len() > 0 {
        assert(b.push(p)[0] == b[0]);
        assert(b.push(p).drop_first() =~= b.drop_first().push(p));
        lemma_lookup_push(b.drop_first(), p, id);
        if b[0].0 == id {
            assert(lookup(b, id) == Some(b[0].1));
            assert(lookup(b.push(p), id) == Some(b[0].1));
        } else {
            assert(lookup(b, id) == lookup(b.drop_first(), id));
            assert(lookup(b.push(p), id) == lookup(b.drop_first().push(p), id));
        }
    } else {
        assert(b.push(p)[0] == p);
        assert(b.push(p).drop_first() =~= Seq::<(Seq<char>, Seq<char>)>::empty());
        assert(lookup(b, id) is None);
        if p.0 == id {
            assert(lookup(b.push(p), id) == Some(p.1));
        } else {
            assert(lookup(b.push(p), id) == lookup(b.push(p).drop_first(), id));
        }
    }
}

/// Every placeholder of `s` has a binding.
pub open spec fn all_bound(s: Seq<char>, b: Seq<(Seq<char>, Seq<char>)>) -> bool {
    forall|k: int|
        0 <= k < scan_ids(s, 0, true).len() ==> lookup(
            b,
            #[trigger] scan_ids(s, 0, true)[k],
        ) is Some
}

/// The single-pass substitution of the text from position `i` on: each
/// placeholder whose identifier is bound becomes its bound value, and a
/// bound value is never rescanned for further placeholders.
pub open spec fn subst(s: Seq<char>, i: int, b: Seq<(Seq<char>, Seq<char>)>) -> Seq<char>
    decreases s.len() - i,
    when i >= 0
{
    if i >= s.len() {
        Seq::empty()
    } else {
        match ph_at(s, i, true) {
            Some(id) => match lookup(b, id) {
                Some(v) => v + subst(s, i + ph_span(id), b),
                None => seq![s[i]] + subst(s, i + 1, b),
            },
            None => seq![s[i]] + subst(s, i + 1, b),
        }
    }
}

/// Text without placeholders passes through substitution unchanged, from
/// position `i` on.
proof fn lemma_subst_skip_identity(s: Seq<char>, i: int, b: Seq<(Seq<char>, Seq<char>)>)
    requires
        0 <= i <= s.len(),
        scan_ids(s, i, true).len() == 0,
    ensures
        subst(s, i, b) == s.skip(i),
    decreases s.len() - i,
{
    if i < s.len() {
        if ph_at(s, i, true) matches Some(id) {
            assert(scan_ids(s, i, true).len() >= 1);
        }
        lemma_subst_skip_identity(s, i + 1, b);
        assert(s.skip(i) =~= seq![s[i]] + s.skip(i + 1));
    } else {
        assert(s.skip(i) =~= Seq::<char>::empty());
    }
}

/// Substitution is the identity on text that holds no placeholders,
/// whatever the bindings are.
pub proof fn lemma_substitute_identity(s: Seq<char>, b: Seq<(Seq<char>, Seq<char>)>)
    requires
        scan_ids(s, 0, true).len() == 0,
    ensures
        subst(s, 0, b) == s,
{
    lemma_subst_skip_identity(s, 0, b);
    assert(s.skip(0) =~= s);
}

/// Finds the first binding for `id`.
fn lookup_exec<'a>(b: &'a Vec<(String, String)>, id: &String) -> (r: Option<&'a String>)
    ensures
        match lookup(b.deep_view(), id@) {
            Some(v) => r matches Some(rv) && rv@ == v,
            None => r is None,
        },
{
    let mut j: usize = 0;
    proof {
        assert(b.deep_view().skip(0) =~= b.deep_view());
    }
    while j < b.len()
        invariant
            0 <= j <= b@.len(),
            lookup(b.deep_view(), id@) == lookup(b.deep_view().skip(j as int), id@),
        decreases b@.len() - j,
    {
        proof {
            assert(b.deep_view().skip(j as int)[0] == b.deep_view()[j as int]);
            assert(b.deep_view().skip(j as int).drop_first() =~= b.deep_view().skip(j as int + 1));
        }
        if b[j].0 == *id {
            return Some(&b[j].1);
        }
        j = j + 1;
    }
    proof {
        assert(b.deep_view().skip(j as int) =~= Seq::<(Seq<char>, Seq<char>)>::empty());
    }
    None
}

/// Finds the first variable entry named `id`.
pub(crate) fn var_lookup_exec<'a>(c: &'a Vec<(String, Json)>, id: &String) -> (r: Option<&'a Json>)
    ensures
        match var_lookup(c.deep_view(), id@) {
            Some(v) => r matches Some(rv) && *rv == v,
            None => r is None,
        },
{
    let mut j: usize = 0;
    proof {
        assert(c.deep_view().skip(0) =~= c.deep_view());
    }
    while j < c.len()
        invariant
            0 <= j <= c@.len(),
            var_lookup(c.deep_view(), id@) == var_lookup(c.deep_view().skip(j as int), id@),
        decreases c@.len() - j,
    {
        proof {
            assert(c.deep_view().skip(j as int)[0] == c.deep_view()[j as int]);
            assert(c.deep_view().skip(j as int).drop_first() =~= c.deep_view().skip(j as int + 1));
        }
        if c[j].0 == *id {
            return Some(&c[j].1);
        }
        j = j + 1;
    }
    proof {
        assert(c.deep_view().skip(j as int) =~= Seq::<(Seq<char>, Json)>::empty());
    }
    None
}

/// Finds the position of the first entry named `id`.
pub(crate) fn var_find(c: &Vec<(String, Json)>, id: &String) -> (r: Option<usize>)
    ensures
        match r {
            Some(ix) => {
                &&& ix < c@.len()
                &&& c.deep_view()[ix as int].0 == id@
                &&& forall|m: int| 0 <= m < ix ==> (#[trigger] c.deep_view()[m]).0 != id@
                &&& var_lookup(c.deep_view(), id@) == Some(c.deep_view()[ix as int].1)
            },
            None => var_lookup(c.deep_view(), id@) is None,
        },
{
    let mut j: usize = 0;
    proof {
        assert(c.deep_view().skip(0) =~= c.deep_view());
    }
    while j < c.len()
        invariant
            0 <= j <= c@.len(),
            var_lookup(c.deep_view(), id@) == var_lookup(c.deep_view().skip(j as int), id@),
            forall|m: int| 0 <= m < j ==> (#[trigger] c.deep_view()[m]).0 != id@,
        decreases c@.len() - j,
    {
        proof {
            assert(c.deep_view().skip(j as int)[0] == c.deep_view()[j as int]);
            assert(c.deep_view().skip(j as int).drop_first() =~= c.deep_view().skip(j as int + 1));
        }
        if c[j].0 == *id {
            return Some(j);
        }
        j = j + 1;
    }
    proof {
        assert(c.deep_view().skip(j as int) =~= Seq::<(Seq<char>, Json)>::empty());
    }
    None
}

/// The text form of a scalar value, as it is spliced into a template:
/// the bare string, the number literal, or `true` / `false`.
pub open spec fn scalar_text(j: Json) -> Seq<char> {
    match j {
        Json::Str(s) => s@,
        Json::Num(t) => t@,
        Json::Bool(b) => if b {
            seq!['t', 'r', 'u', 'e']
        } else {
            seq!['f', 'a', 'l', 's', 'e']
        },
        _ => Seq::empty(),
    }
}

/// Renders a scalar value as text; a null, object or array has none.
pub fn scalar_to_string(j: &Json) -> (r: Option<String>)
    ensures
        match r {
            Some(s) => j.is_scalar() && s@ == scalar_text(*j),
            None => !j.is_scalar(),
        },
{
    proof {
        reveal_strlit("true");
        reveal_strlit("false");
    }
    match j {
        Json::Str(s) => Some(s.clone()),
        Json::Num(t) => Some(t.clone()),
        Json::Bool(b) => {
            if *b {
                let s = "true".to_owned();
                proof {
                    assert(s@ =~= scalar_text(*j));
                }
                Some(s)
            } else {
                let s = "false".to_owned();
                proof {
                    assert(s@ =~= scalar_text(*j));
                }
                Some(s)
            }
        },
        _ => None,
    }
}

/// The identifier of the generated UUID placeholder, `gen:uuid`.
pub open spec fn uuid_id() -> Seq<char> {
    seq!['g', 'e', 'n', ':', 'u', 'u', 'i', 'd']
}

/// The identifier of the generated timestamp placeholder, `gen:timestamp`.
pub open spec fn timestamp_id() -> Seq<char> {
    seq!['g', 'e', 'n', ':', 't', 'i', 'm', 'e', 's', 't', 'a', 'm', 'p']
}

/// The first failure among the placeholder identifiers, resolved against
/// the variable entries `c`: a missing entry is an unresolved
/// placeholder, a non-scalar entry an invalid value; the generated
/// identifiers never fail.
pub open spec fn resolution_error(ids: Seq<Seq<char>>, c: Seq<(Seq<char>, Json)>) -> Option<
    ReqError,
>
    decreases ids.len(),
{
    if ids.len() <= 0 {
        None
    } else if ids[0] == uuid_id() || ids[0] == timestamp_id() {
        resolution_error(ids.drop_first(), c)
    } else {
        match var_lookup(c, ids[0]) {
            None => Some(ReqError::UnresolvedPlaceholder),
            Some(j) => if j.is_scalar() {
                resolution_error(ids.drop_first(), c)
            } else {
                Some(ReqError::InvalidVariableValue)
            },
        }
    }
}

/// What a binding may hold for a placeholder identifier: a UUID-shaped
/// string for `gen:uuid`, a decimal number for `gen:timestamp`, and the
/// text of the named scalar variable entry for everything else.
pub open spec fn gen_binding_ok(id: Seq<char>, v: Seq<char>, c: Seq<(Seq<char>, Json)>) -> bool {
    if id == uuid_id() {
        uuid_shaped(v)
    } else if id == timestamp_id() {
        exists|t: int| i64::MIN <= t <= i64::MAX && v == dec_int_text(t)
    } else {
        match var_lookup(c, id) {
            Some(j) => j.is_scalar() && v == scalar_text(j),
            None => false,
        }
    }
}

/// Every placeholder of `s` is bound, to a value that fits it.
pub open spec fn bindings_ok(
    s: Seq<char>,
    c: Seq<(Seq<char>, Json)>,
    b: Seq<(Seq<char>, Seq<char>)>,
) -> bool {
    forall|k: int|
        0 <= k < scan_ids(s, 0, true).len() ==> match lookup(
            b,
            #[trigger] scan_ids(s, 0, true)[k],
        ) {
            Some(v) => gen_binding_ok(scan_ids(s, 0, true)[k], v, c),
            None => false,
        }
}

/// Replaces every bound placeholder of `text` with its bound value, in a
/// single left-to-right pass; an inserted value is never rescanned.
pub fn substitute_with_bindings(text: &str, bindings: &Vec<(String, String)>) -> (r: Result<
    String,
    ReqError,
>)
    ensures
        match r {
            Ok(out) => all_bound(text@, bindings.deep_view()) && out@ == subst(
                text@,
                0,
                bindings.deep_view(),
            ),
            Err(e) => e == ReqError::UnresolvedPlaceholder && !all_bound(
                text@,
                bindings.deep_view(),
            ),
        },
        scan_ids(text@, 0, true).len() == 0 ==> (r matches Ok(out) && out@ == text@),
{
    let ghost bv = bindings.deep_view();
    let s = str_to_chars(text);
    let mut out: Vec<char> = Vec::new();
    let mut i: usize = 0;
    let ghost mut done: Seq<Seq<char>> = Seq::empty();
    proof {
        assert(done + scan_ids(s@, 0, true) =~= scan_ids(s@, 0, true));
    }
    while i < s.len()
        invariant
            s@ == text@,
            bv == bindings.deep_view(),
            0 <= i <= s@.len(),
            done + scan_ids(s@, i as int, true) == scan_ids(s@, 0, true),
            forall|k: int| 0 <= k < done.len() ==> lookup(bv, #[trigger] done[k]) is Some,
            subst(s@, 0, bv) == out@ + subst(s@, i as int, bv),
        decreases s@.len() - i,
    {
        match ph_at_exec(&s, i, true) {
            Some((a, b)) => {
                let ghost sid = s@.subrange(a as int, b as int);
                proof {
                    assert(scan_ids(s@, i as int, true) == seq![sid] + scan_ids(
                        s@,
                        i + ph_span(sid),
                        true,
                    ));
                }
                let id = chars_to_string_range(&s, a, b);
                match lookup_exec(bindings, &id) {
                    Some(val) => {
                        crate::text::push_str_chars(&mut out, val.as_str());
                        proof {
                            done = done.push(sid);
                            assert(done + scan_ids(s@, b + 2, true) =~= scan_ids(s@, 0, true));
                            assert(subst(s@, 0, bv) == out@ + subst(s@, b + 2, bv));
                        }
                        i = b + 2;
                    },
                    None => {
                        proof {
                            let ghost k = done.len() as int;
                            assert(scan_ids(s@, 0, true)[k] == sid);
                            assert(!all_bound(s@, bv));
                        }
                        return Err(ReqError::UnresolvedPlaceholder);
                    },
                }
            },
            None => {
                out.push(s[i]);
                proof {
                    assert(subst(s@, i as int, bv) == seq![s@[i as int]] + subst(
                        s@,
                        i + 1,
                        bv,
                    ));
                    assert(out@ + subst(s@, i + 1, bv) =~= subst(s@, 0, bv));
                }
                i = i + 1;
            },
        }
    }
    proof {
        assert(scan_ids(s@, i as int, true) =~= Seq::<Seq<char>>::empty());
        assert(done =~= scan_ids(s@, 0, true));
        assert(subst(s@, i as int, bv) =~= Seq::<char>::empty());
        assert(out@ =~= subst(s@, 0, bv));
        if scan_ids(text@, 0, true).len() == 0 {
            lemma_substitute_identity(text@, bv);
        }
    }
    Ok(chars_to_string(&out))
}

/// Pushes one freshly resolved binding, keeping every earlier one intact.
fn bind_push(
    bindings: &mut Vec<(String, String)>,
    id: &String,
    val: String,
    Ghost(cv): Ghost<Seq<(Seq<char>, Json)>>,
)
    requires
        gen_binding_ok(id@, val@, cv),
        forall|x: Seq<char>|
            (#[trigger] lookup(old(bindings).deep_view(), x)) matches Some(v)
                ==> gen_binding_ok(x, v, cv),
    ensures
        lookup(final(bindings).deep_view(), id@) is Some,
        forall|x: Seq<char>|
            (#[trigger] lookup(old(bindings).deep_view(), x)) is Some ==> lookup(
                final(bindings).deep_view(),
                x,
            ) == lookup(old(bindings).deep_view(), x),
        forall|x: Seq<char>|
            (#[trigger] lookup(final(bindings).deep_view(), x)) matches Some(v)
                ==> gen_binding_ok(x, v, cv),
{
    let ghost prev = bindings.deep_view();
    bindings.push((id.clone(), val));
    proof {
        assert(bindings.deep_view() =~= prev.push((id@, val@)));
        assert forall|x: Seq<char>|
            (#[trigger] lookup(prev, x)) is Some implies lookup(bindings.deep_view(), x) == lookup(
            prev,
            x,
        ) by {
            lemma_lookup_push(prev, (id@, val@), x);
        }
        assert forall|x: Seq<char>|
            ((#[trigger] lookup(bindings.deep_view(), x)) matches Some(v) ==> gen_binding_ok(
                x,
                v,
                cv,
            )) by {
            lemma_lookup_push(prev, (id@, val@), x);
        }
        lemma_lookup_push(prev, (id@, val@), id@);
    }
}

/// Resolves every placeholder of `text` against the variable entries and
/// replaces each with its value: a stored scalar for `{{name}}`, a fresh
/// UUID for `{{gen:uuid}}`, the current Unix time for `{{gen:timestamp}}`.
/// One value stands for all occurrences of the same identifier.
pub fn substitute(text: &str, contents: &Vec<(String, Json)>) -> (r: Result<String, ReqError>)
    ensures
        match r {
            Ok(out) => {
                &&& resolution_error(scan_ids(text@, 0, true), contents.deep_view()) is None
                &&& exists|b: Seq<(Seq<char>, Seq<char>)>|
                    #[trigger] bindings_ok(text@, contents.deep_view(), b) && out@ == subst(
                        text@,
                        0,
                        b,
                    )
            },
            Err(e) => resolution_error(scan_ids(text@, 0, true), contents.deep_view()) == Some(e),
        },
        scan_ids(text@, 0, true).len() == 0 ==> (r matches Ok(out) && out@ == text@),
{
    let ghost cv = contents.deep_view();
    let ids = extract_placeholders(text, true);
    let ghost idsv = ids.deep_view();
    let mut bindings: Vec<(String, String)> = Vec::new();
    let mut k: usize = 0;
    proof {
        assert(idsv.skip(0) =~= idsv);
    }
    while k < ids.len()
        invariant
            cv == contents.deep_view(),
            idsv == scan_ids(text@, 0, true),
            ids.deep_view() == idsv,
            ids@.len() == idsv.len(),
            0 <= k <= ids@.len(),
            resolution_error(idsv, cv) == resolution_error(idsv.skip(k as int), cv),
            forall|j: int|
                0 <= j < k ==> lookup(bindings.deep_view(), #[trigger] idsv[j]) is Some,
            forall|x: Seq<char>|
                (#[trigger] lookup(bindings.deep_view(), x)) matches Some(v) ==> gen_binding_ok(
                    x,
                    v,
                    cv,
                ),
        decreases ids@.len() - k,
    {
        let id = &ids[k];
        proof {
            assert(idsv[k as int] == id@);
            assert(idsv.skip(k as int)[0] == idsv[k as int]);
            assert(idsv.skip(k as int).drop_first() =~= idsv.skip(k as int + 1));
            reveal_strlit("gen:uuid");
            reveal_strlit("gen:timestamp");
            assert("gen:uuid"@ =~= uuid_id());
            assert("gen:timestamp"@ =~= timestamp_id());
        }
        let already = lookup_exec(&bindings, id).is_some();
        if already {
            proof {
                assert(lookup(bindings.deep_view(), id@) matches Some(v) && gen_binding_ok(
                    id@,
                    v,
                    cv,
                ));
            }
        } else if str_eq(id.as_str(), "gen:uuid") {
            let val = gen_uuid();
            bind_push(&mut bindings, id, val, Ghost(cv));
        } else if str_eq(id.as_str(), "gen:timestamp") {
            let val = gen_timestamp_text();
            bind_push(&mut bindings, id, val, Ghost(cv));
        } else {
            match var_lookup_exec(contents, id) {
                None => {
                    proof {
                        assert(resolution_error(idsv.skip(k as int), cv) == Some(
                            ReqError::UnresolvedPlaceholder,
                        ));
                    }
                    return Err(ReqError::UnresolvedPlaceholder);
                },
                Some(j) => {
                    match scalar_to_string(j) {
                        None => {
                            proof {
                                assert(resolution_error(idsv.skip(k as int), cv) == Some(
                                    ReqError::InvalidVariableValue,
                                ));
                            }
                            return Err(ReqError::InvalidVariableValue);
                        },
                        Some(val) => {
                            bind_push(&mut bindings, id, val, Ghost(cv));
                        },
                    }
                },
            }
        }
        proof {
            assert(lookup(bindings.deep_view(), idsv[k as int]) is Some);
            assert(resolution_error(idsv.skip(k as int), cv) == resolution_error(
                idsv.skip(k as int + 1),
                cv,
            ));
        }
        k = k + 1;
    }
    proof {
        assert(idsv.skip(k as int) =~= Seq::<Seq<char>>::empty());
        assert(resolution_error(idsv, cv) is None);
    }
    match substitute_with_bindings(text, &bindings) {
        Ok(out) => {
            proof {
                let ghost bv = bindings.deep_view();
                assert(bindings_ok(text@, cv, bv));
            }
            Ok(out)
        },
        Err(_) => {
            proof {
                assert(all_bound(text@, bindings.deep_view()));
                assert(false);
            }
            Err(ReqError::UnresolvedPlaceholder)
        },
    }
}

} // verus!
