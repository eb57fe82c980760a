use vstd::prelude::*;
use crate::engine::resolution_error;
use crate::engine::scan_ids;
use crate::engine::subst;
use crate::engine::bindings_ok;
use crate::engine::substitute;
use crate::engine::extract_placeholders;
use crate::engine::var_lookup;
use crate::engine::var_lookup_exec;
use crate::error::ReqError;
use crate::json::Json;
use crate::json::emit_json;
use crate::json::emit_string_token;
use crate::json::obj_fields_text;
use crate::parse::json_parse;
use crate::parse::parse_json;
use crate::text::chars_to_string;

verus! {

/// A named set of substitution values, scoped to one project: a mapping
/// from placeholder identifiers to scalar JSON values.
#[derive(Debug, PartialEq)]
pub struct Variable {
    pub name: String,
    pub contents: Vec<(String, Json)>,
}

/// The keys of the entries, in order.
pub open spec fn keys_of(c: Seq<(Seq<char>, Json)>) -> Seq<Seq<char>> {
    c.map_values(|p: (Seq<char>, Json)| p.0)
}

/// Every entry holds a scalar: never null, an object or an array.
pub open spec fn all_scalar(c: Seq<(Seq<char>, Json)>) -> bool {
    forall|m: int| 0 <= m < c.len() ==> (#[trigger] c[m]).1.is_scalar()
}

/// The identifiers of `ids` that are not yet among `keys`, first
/// occurrences only, in order.
pub open spec fn missing_ids(keys: Seq<Seq<char>>, ids: Seq<Seq<char>>) -> Seq<Seq<char>>
    decreases ids.len(),
{
    if ids.len() <= 0 {
        Seq::empty()
    } else if keys.contains(ids[0]) {
        missing_ids(keys, ids.drop_first())
    } else {
        seq![ids[0]] + missing_ids(keys.push(ids[0]), ids.drop_first())
    }
}

/// How registration changes a variable's entries: the old entries stay,
/// in place and with their values, and exactly the identifiers not yet
/// present are appended, in order of first appearance, each with the
/// empty string for its value.
pub open spec fn registered(
    oldc: Seq<(Seq<char>, Json)>,
    newc: Seq<(Seq<char>, Json)>,
    ids: Seq<Seq<char>>,
) -> bool {
    &&& newc.len() >= oldc.len()
    &&& newc.take(oldc.len() as int) == oldc
    &&& keys_of(newc) == keys_of(oldc) + missing_ids(keys_of(oldc), ids)
    &&& forall|m: int|
        oldc.len() <= m < newc.len() ==> ((#[trigger] newc[m]).1 matches Json::Str(s) && s@
            == Seq::<char>::empty())
}

/// The stored document of a variable: one JSON object of its entries.
pub open spec fn contents_text(c: Vec<(String, Json)>) -> Seq<char> {
    seq!['{'] + obj_fields_text(c, c.len() as int) + seq!['}']
}

/// An entry is found exactly when its key is among the keys.
pub proof fn lemma_var_lookup_keys(c: Seq<(Seq<char>, Json)>, id: Seq<char>)
    ensures
        var_lookup(c, id) is Some <==> keys_of(c).contains(id),
    decreases c.len(),
{
    if c.len() > 0 {
        lemma_var_lookup_keys(c.drop_first(), id);
        assert(keys_of(c.drop_first()) =~= keys_of(c).drop_first());
        if c[0].0 == id {
            assert(keys_of(c)[0] == id);
            assert(keys_of(c).contains(id));
        } else {
            if keys_of(c).contains(id) {
                let i = choose|i: int| 0 <= i < keys_of(c).len() && keys_of(c)[i] == id;
                assert(i != 0);
                assert(keys_of(c).drop_first()[i - 1] == id);
                assert(keys_of(c).drop_first().contains(id));
            }
            if keys_of(c).drop_first().contains(id) {
                let i = choose|i: int|
                    0 <= i < keys_of(c).drop_first().len() && keys_of(c).drop_first()[i] == id;
                assert(keys_of(c)[i + 1] == id);
                assert(keys_of(c).contains(id));
            }
        }
    }
}

/// A concatenation contains what either part contains.
pub proof fn lemma_contains_concat(a: Seq<Seq<char>>, b: Seq<Seq<char>>, x: Seq<char>)
    ensures
        (a + b).contains(x) <==> a.contains(x) || b.contains(x),
{
    if a.contains(x) {
        let i = choose|i: int| 0 <= i < a.len() && a[i] == x;
        assert((a + b)[i] == x);
    }
    if b.contains(x) {
        let i = choose|i: int| 0 <= i < b.len() && b[i] == x;
        assert((a + b)[a.len() + i] == x);
    }
    if (a + b).contains(x) {
        let i = choose|i: int| 0 <= i < (a + b).len() && (a + b)[i] == x;
        if i < a.len() {
            assert(a[i] == x);
        } else {
            assert(b[i - a.len()] == x);
        }
    }
}

/// Appending one identifier registers it exactly when it is neither
/// among the keys nor already registered.
pub proof fn lemma_missing_snoc(keys: Seq<Seq<char>>, ids: Seq<Seq<char>>, x: Seq<char>)
    ensures
        missing_ids(keys, ids.push(x)) == missing_ids(keys, ids) + (if (keys + missing_ids(
            keys,
            ids,
        )).contains(x) {
            Seq::<Seq<char>>::empty()
        } else {
            seq![x]
        }),
    decreases ids.len(),
{
    if ids.len() <= 0 {
        assert(ids.push(x)[0] == x);
        assert(ids.push(x).drop_first() =~= Seq::<Seq<char>>::empty());
        assert(missing_ids(keys, Seq::<Seq<char>>::empty()) == Seq::<Seq<char>>::empty());
        assert(missing_ids(keys.push(x), Seq::<Seq<char>>::empty()) == Seq::<Seq<char>>::empty());
        assert(keys + missing_ids(keys, ids) =~= keys);
        if keys.contains(x) {
            assert(missing_ids(keys, ids.push(x)) =~= missing_ids(keys, ids) + Seq::<
                Seq<char>,
            >::empty());
        } else {
            assert(missing_ids(keys, ids.push(x)) =~= missing_ids(keys, ids) + seq![x]);
        }
    } else {
        assert(ids.push(x)[0] == ids[0]);
        assert(ids.push(x).drop_first() =~= ids.drop_first().push(x));
        if keys.contains(ids[0]) {
            lemma_missing_snoc(keys, ids.drop_first(), x);
        } else {
            lemma_missing_snoc(keys.push(ids[0]), ids.drop_first(), x);
            assert(keys + missing_ids(keys, ids) =~= keys.push(ids[0]) + missing_ids(
                keys.push(ids[0]),
                ids.drop_first(),
            ));
            if (keys + missing_ids(keys, ids)).contains(x) {
                assert(missing_ids(keys, ids.push(x)) =~= missing_ids(keys, ids) + Seq::<
                    Seq<char>,
                >::empty());
            } else {
                assert(missing_ids(keys, ids.push(x)) =~= missing_ids(keys, ids) + seq![x]);
            }
        }
    }
}

/// Every identifier ends up covered: already a key, or registered.
pub proof fn lemma_missing_covers(keys: Seq<Seq<char>>, ids: Seq<Seq<char>>, k: int)
    requires
        0 <= k < ids.len(),
    ensures
        keys.contains(ids[k]) || missing_ids(keys, ids).contains(ids[k]),
    decreases ids.len(),
{
    if keys.contains(ids[0]) {
        if k == 0 {
        } else {
            lemma_missing_covers(keys, ids.drop_first(), k - 1);
            assert(ids.drop_first()[k - 1] == ids[k]);
        }
    } else {
        assert(missing_ids(keys, ids)[0] == ids[0]);
        if k == 0 {
            assert(missing_ids(keys, ids).contains(ids[0]));
        } else {
            lemma_missing_covers(keys.push(ids[0]), ids.drop_first(), k - 1);
            assert(ids.drop_first()[k - 1] == ids[k]);
            if keys.push(ids[0]).contains(ids[k]) {
                let i = choose|i: int|
                    0 <= i < keys.push(ids[0]).len() && keys.push(ids[0])[i] == ids[k];
                if i < keys.len() {
                    assert(keys.contains(ids[k]));
                } else {
                    assert(ids[k] == ids[0]);
                    assert(missing_ids(keys, ids).contains(ids[k]));
                }
            } else {
                let m = missing_ids(keys.push(ids[0]), ids.drop_first());
                assert(m.contains(ids[k]));
                let i = choose|i: int| 0 <= i < m.len() && m[i] == ids[k];
                assert(missing_ids(keys, ids)[i + 1] == ids[k]);
                assert(missing_ids(keys, ids).contains(ids[k]));
            }
        }
    }
}

/// Once every identifier is covered, nothing more is missing.
pub proof fn lemma_missing_none_when_covered(keys: Seq<Seq<char>>, ids: Seq<Seq<char>>)
    requires
        forall|k: int| 0 <= k < ids.len() ==> keys.contains(#[trigger] ids[k]),
    ensures
        missing_ids(keys, ids).len() == 0,
    decreases ids.len(),
{
    if ids.len() > 0 {
        assert(keys.contains(ids[0]));
        assert(forall|k: int|
            0 <= k < ids.drop_first().len() ==> ids[k + 1] == #[trigger] ids.drop_first()[k]);
        lemma_missing_none_when_covered(keys, ids.drop_first());
    }
}

/// Registering the same identifiers a second time adds nothing: the
/// first registration already covers them all.
pub proof fn lemma_registration_idempotent(keys: Seq<Seq<char>>, ids: Seq<Seq<char>>)
    ensures
        missing_ids(keys + missing_ids(keys, ids), ids).len() == 0,
{
    let keys2 = keys + missing_ids(keys, ids);
    assert forall|k: int| 0 <= k < ids.len() implies keys2.contains(#[trigger] ids[k]) by {
        lemma_missing_covers(keys, ids, k);
        lemma_contains_concat(keys, missing_ids(keys, ids), ids[k]);
    }
    lemma_missing_none_when_covered(keys2, ids);
}

/// Running one registration after another with the same identifiers
/// leaves the entries exactly as the first left them.
pub proof fn lemma_registered_twice_unchanged(
    c0: Seq<(Seq<char>, Json)>,
    c1: Seq<(Seq<char>, Json)>,
    c2: Seq<(Seq<char>, Json)>,
    ids: Seq<Seq<char>>,
)
    requires
        registered(c0, c1, ids),
        registered(c1, c2, ids),
    ensures
        c2 == c1,
{
    assert(keys_of(c1) =~= keys_of(c0) + missing_ids(keys_of(c0), ids));
    lemma_registration_idempotent(keys_of(c0), ids);
    assert(missing_ids(keys_of(c1), ids).len() == 0);
    assert(keys_of(c2).len() == keys_of(c1).len());
    assert(c2.len() == c1.len());
    assert(c2.take(c1.len() as int) =~= c2);
}

/// A found entry survives appending more entries; a missed one is then
/// looked up among the appended.
pub proof fn lemma_var_lookup_append(
    c: Seq<(Seq<char>, Json)>,
    ext: Seq<(Seq<char>, Json)>,
    id: Seq<char>,
)
    ensures
        var_lookup(c, id) is Some ==> var_lookup(c + ext, id) == var_lookup(c, id),
        var_lookup(c, id) is None ==> var_lookup(c + ext, id) == var_lookup(ext, id),
    decreases c.len(),
{
    if c.len() > 0 {
        assert((c + ext)[0] == c[0]);
        assert((c + ext).drop_first() =~= c.drop_first() + ext);
        lemma_var_lookup_append(c.drop_first(), ext, id);
    } else {
        assert(c + ext =~= ext);
    }
}

/// A found value stands in some entry under its key.
pub proof fn lemma_var_lookup_in(c: Seq<(Seq<char>, Json)>, id: Seq<char>)
    ensures
        var_lookup(c, id) matches Some(v) ==> exists|m: int|
            0 <= m < c.len() && (#[trigger] c[m]).0 == id && c[m].1 == v,
    decreases c.len(),
{
    if c.len() > 0 {
        if c[0].0 == id {
            assert(c[0].0 == id && c[0].1 == var_lookup(c, id)->Some_0);
        } else {
            lemma_var_lookup_in(c.drop_first(), id);
            if var_lookup(c.drop_first(), id) is Some {
                let v = var_lookup(c.drop_first(), id)->Some_0;
                let m = choose|m: int|
                    0 <= m < c.drop_first().len() && (#[trigger] c.drop_first()[m]).0 == id
                        && c.drop_first()[m].1 == v;
                assert(c[m + 1].0 == id && c[m + 1].1 == v);
            }
        }
    }
}

/// What registration means for one identifier: an old entry keeps its
/// value, a registered identifier is found, and a newly registered one
/// holds the empty string.
pub proof fn lemma_registered_lookup(
    c0: Seq<(Seq<char>, Json)>,
    c1: Seq<(Seq<char>, Json)>,
    ids: Seq<Seq<char>>,
    id: Seq<char>,
)
    requires
        registered(c0, c1, ids),
    ensures
        var_lookup(c0, id) is Some ==> var_lookup(c1, id) == var_lookup(c0, id),
        ids.contains(id) ==> var_lookup(c1, id) is Some,
        var_lookup(c0, id) is None && ids.contains(id) ==> (var_lookup(c1, id) matches Some(v)
            && v matches Json::Str(s) && s@ == Seq::<char>::empty()),
{
    let ext = c1.skip(c0.len() as int);
    assert(c1 =~= c0 + ext);
    lemma_var_lookup_append(c0, ext, id);
    if ids.contains(id) {
        let k = choose|k: int| 0 <= k < ids.len() && ids[k] == id;
        lemma_missing_covers(keys_of(c0), ids, k);
        lemma_var_lookup_keys(c0, id);
        lemma_var_lookup_keys(c1, id);
        assert(keys_of(c1) =~= keys_of(c0) + missing_ids(keys_of(c0), ids));
        lemma_contains_concat(keys_of(c0), missing_ids(keys_of(c0), ids), id);
        assert(keys_of(c1).contains(id));
        if var_lookup(c0, id) is None {
            assert(var_lookup(c1, id) == var_lookup(ext, id));
            lemma_var_lookup_in(ext, id);
            if var_lookup(ext, id) is Some {
                let v = var_lookup(ext, id)->Some_0;
                let m = choose|m: int|
                    0 <= m < ext.len() && (#[trigger] ext[m]).0 == id && ext[m].1 == v;
                assert(c1[c0.len() + m] == ext[m]);
                assert((c1[c0.len() + m]).1 matches Json::Str(s) && s@ == Seq::<char>::empty());
            }
        }
    }
}

/// Checks that every entry holds a scalar.
pub(crate) fn all_scalar_exec(c: &Vec<(String, Json)>) -> (r: bool)
    ensures
        r == all_scalar(c.deep_view()),
{
    let mut k: usize = 0;
    while k < c.len()
        invariant
            0 <= k <= c@.len(),
            c.deep_view().len() == c@.len(),
            forall|m: int| 0 <= m < k ==> (#[trigger] c.deep_view()[m]).1.is_scalar(),
        decreases c@.len() - k,
    {
        proof {
            assert(c.deep_view()[k as int] == (c@[k as int].0@, c@[k as int].1));
        }
        if !c[k].1.scalar() {
            return false;
        }
        k = k + 1;
    }
    true
}

impl Variable {
    /// Every value a variable holds is a scalar.
    pub open spec fn wf(&self) -> bool {
        all_scalar(self.contents.deep_view())
    }

    /// A fresh, empty variable.
    pub fn create(variable_name: &str) -> (v: Variable)
        ensures
            v.name@ == variable_name@,
            v.contents@.len() == 0,
            v.wf(),
    {
        let v = Variable { name: variable_name.to_owned(), contents: Vec::new() };
        proof {
            assert(v.contents.deep_view() =~= Seq::<(Seq<char>, Json)>::empty());
        }
        v
    }

    /// Reads a variable out of its stored JSON text: the document must
    /// be an object, and every value in it a scalar.
    pub fn load(variable_name: &str, text: &str) -> (r: Result<Variable, ReqError>)
        ensures
            match r {
                Ok(v) => {
                    &&& v.name@ == variable_name@
                    &&& v.wf()
                    &&& (json_parse(text@) matches Some(jj) && jj matches Json::Obj(ff)
                        && v.contents.deep_view() == ff.deep_view())
                },
                Err(e) => match json_parse(text@) {
                    None => e == ReqError::MalformedDocument,
                    Some(jj) => match jj {
                        Json::Obj(ff) => e == ReqError::InvalidVariableValue && !all_scalar(
                            ff.deep_view(),
                        ),
                        _ => e == ReqError::MalformedDocument,
                    },
                },
            },
    {
        let ff: Vec<(String, Json)> = match parse_json(text) {
            Some(Json::Obj(ff)) => ff,
            Some(_) => {
                return Err(ReqError::MalformedDocument);
            },
            None => {
                return Err(ReqError::MalformedDocument);
            },
        };
        if !all_scalar_exec(&ff) {
            return Err(ReqError::InvalidVariableValue);
        }
        Ok(Variable { name: variable_name.to_owned(), contents: ff })
    }

    /// Writes the variable out as its stored JSON document.
    pub fn save(&self) -> (r: String)
        ensures
            r@ == contents_text(self.contents),
    {
        let mut out: Vec<char> = Vec::new();
        out.push('{');
        let mut k: usize = 0;
        while k < self.contents.len()
            invariant
                0 <= k <= self.contents@.len(),
                out@ == seq!['{'] + obj_fields_text(self.contents, k as int),
            decreases self.contents@.len() - k,
        {
            if k > 0 {
                out.push(',');
            }
            emit_string_token(self.contents[k].0.as_str(), &mut out);
            out.push(':');
            emit_json(&self.contents[k].1, &mut out);
            proof {
                assert(out@ =~= seq!['{'] + obj_fields_text(self.contents, k + 1 as int));
            }
            k = k + 1;
        }
        out.push('}');
        proof {
            assert(out@ =~= contents_text(self.contents));
        }
        chars_to_string(&out)
    }

    /// Replaces the entries with the edited document, if it parses as an
    /// object of scalars; any failure leaves the variable unchanged.
    pub fn edit(&mut self, edited: &str) -> (r: Result<(), ReqError>)
        ensures
            final(self).name@ == old(self).name@,
            match r {
                Ok(()) => {
                    &&& final(self).wf()
                    &&& (json_parse(edited@) matches Some(jj) && jj matches Json::Obj(ff)
                        && final(self).contents.deep_view() == ff.deep_view())
                },
                Err(e) => {
                    &&& *final(self) == *old(self)
                    &&& match json_parse(edited@) {
                        None => e == ReqError::MalformedDocument,
                        Some(jj) => match jj {
                            Json::Obj(ff) => e == ReqError::InvalidVariableValue && !all_scalar(
                                ff.deep_view(),
                            ),
                            _ => e == ReqError::MalformedDocument,
                        },
                    }
                },
            },
    {
        let ff: Vec<(String, Json)> = match parse_json(edited) {
            Some(Json::Obj(ff)) => ff,
            Some(_) => {
                return Err(ReqError::MalformedDocument);
            },
            None => {
                return Err(ReqError::MalformedDocument);
            },
        };
        if !all_scalar_exec(&ff) {
            return Err(ReqError::InvalidVariableValue);
        }
        self.contents = ff;
        Ok(())
    }

    /// Resolves every placeholder of the text against this variable's
    /// entries and the generated values.
    pub fn replace_template_string(&self, template_json: &str) -> (r: Result<String, ReqError>)
        ensures
            match r {
                Ok(out) => {
                    &&& resolution_error(
                        scan_ids(template_json@, 0, true),
                        self.contents.deep_view(),
                    ) is None
                    &&& exists|b: Seq<(Seq<char>, Seq<char>)>|
                        #[trigger] bindings_ok(template_json@, self.contents.deep_view(), b)
                            && out@ == subst(template_json@, 0, b)
                },
                Err(e) => resolution_error(
                    scan_ids(template_json@, 0, true),
                    self.contents.deep_view(),
                ) == Some(e),
            },
            scan_ids(template_json@, 0, true).len() == 0 ==> (r matches Ok(out) && out@
                == template_json@),
    {
        substitute(template_json, &self.contents)
    }

    /// Registers every input placeholder of the text that has no entry
    /// yet, with the empty string for its value; existing entries are
    /// never changed or removed.
    pub fn update_from_template_string(&mut self, template_string: &str)
        ensures
            final(self).name@ == old(self).name@,
            registered(
                old(self).contents.deep_view(),
                final(self).contents.deep_view(),
                scan_ids(template_string@, 0, false),
            ),
            old(self).wf() ==> final(self).wf(),
    {
        let ids = extract_placeholders(template_string, false);
        let ghost c0 = self.contents.deep_view();
        let ghost idsv = ids.deep_view();
        let ghost k0 = keys_of(c0);
        let mut k: usize = 0;
        proof {
            assert(idsv.take(0) =~= Seq::<Seq<char>>::empty());
            assert(keys_of(self.contents.deep_view()) =~= k0 + missing_ids(k0, idsv.take(0)));
            assert(self.contents.deep_view().take(c0.len() as int) =~= c0);
        }
        while k < ids.len()
            invariant
                idsv == ids.deep_view(),
                ids@.len() == idsv.len(),
                0 <= k <= ids@.len(),
                c0.len() <= self.contents.deep_view().len(),
                self.contents.deep_view().len() == self.contents@.len(),
                self.contents.deep_view().take(c0.len() as int) == c0,
                keys_of(self.contents.deep_view()) == k0 + missing_ids(k0, idsv.take(k as int)),
                forall|m: int|
                    c0.len() <= m < self.contents.deep_view().len() ==> ((
                    #[trigger] self.contents.deep_view()[m]).1 matches Json::Str(s) && s@
                        == Seq::<char>::empty()),
                self.name@ == old(self).name@,
                k0 == keys_of(c0),
            decreases ids@.len() - k,
        {
            let id = &ids[k];
            let ghost cur = self.contents.deep_view();
            proof {
                assert(idsv[k as int] == id@);
                assert(idsv.take(k + 1 as int) =~= idsv.take(k as int).push(idsv[k as int]));
                lemma_missing_snoc(k0, idsv.take(k as int), id@);
                lemma_var_lookup_keys(cur, id@);
                lemma_contains_concat(k0, missing_ids(k0, idsv.take(k as int)), id@);
            }
            let present = var_lookup_exec(&self.contents, id).is_some();
            if !present {
                let ghost prev = self.contents.deep_view();
                let empty_val = String::new();
                let ghost pushed: (Seq<char>, Json) = (id@, Json::Str(empty_val));
                self.contents.push((id.clone(), Json::Str(empty_val)));
                proof {
                    assert(self.contents.deep_view() =~= prev.push(pushed));
                    assert(keys_of(self.contents.deep_view()) =~= keys_of(prev).push(id@));
                }
            }
            proof {
                assert(keys_of(self.contents.deep_view()) =~= k0 + missing_ids(
                    k0,
                    idsv.take(k + 1 as int),
                ));
                assert(self.contents.deep_view().take(c0.len() as int) =~= c0);
            }
            k = k + 1;
        }
        proof {
            assert(idsv.take(k as int) =~= idsv);
            assert(registered(c0, self.contents.deep_view(), idsv));
            if old(self).wf() {
                assert forall|m: int|
                    0 <= m < self.contents.deep_view().len() implies (
                #[trigger] self.contents.deep_view()[m]).1.is_scalar() by {
                    if m < c0.len() {
                        assert(self.contents.deep_view().take(c0.len() as int)[m]
                            == self.contents.deep_view()[m]);
                        assert(c0[m].1.is_scalar());
                    }
                }
            }
        }
    }
}

} // verus!
