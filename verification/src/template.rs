use vstd::prelude::*;
use crate::engine::bindings_ok;
use crate::engine::extract_placeholders;
use crate::engine::resolution_error;
use crate::engine::scan_ids;
use crate::engine::subst;
use crate::engine::substitute;
use crate::engine::timestamp_id;
use crate::engine::uuid_id;
use crate::engine::var_find;
use crate::engine::var_lookup;
use crate::engine::var_lookup_exec;
use crate::error::ReqError;
use crate::http::Method;
use crate::http::method_of_text;
use crate::http::parse_method;
use crate::json::Json;
use crate::json::emit_json;
use crate::json::emit_string_token;
use crate::json::json_text;
use crate::json::string_token;
use crate::parse::json_parse;
use crate::parse::parse_json;
use crate::paths::valid_name;
use crate::paths::valid_name_spec;
use crate::project::Project;
use crate::project::Root;
use crate::project::lemma_template_named_absent;
use crate::project::project_index;
use crate::project::project_named;
use crate::project::template_index;
use crate::project::template_named;
use crate::text::str_eq;
use crate::variable::registered;
use crate::text::chars_to_string;
use crate::text::push_str_chars;

verus! {

/// A stored request definition: where to send it, how, with which
/// headers, and with what body.
#[derive(Debug, PartialEq)]
pub struct TemplateRequest {
    pub url: String,
    pub method: Method,
    pub headers: Vec<(String, String)>,
    pub body: Option<Json>,
}

/// The members of a serialized `headers` object: the first `i` header
/// pairs, as string tokens separated by commas.
pub open spec fn headers_obj_text(h: Seq<(String, String)>, i: int) -> Seq<char>
    decreases i,
{
    if i <= 0 || i > h.len() {
        Seq::empty()
    } else if i == 1 {
        string_token(h[0].0@) + seq![':'] + string_token(h[0].1@)
    } else {
        headers_obj_text(h, i - 1) + seq![','] + string_token(h[i - 1].0@) + seq![':']
            + string_token(h[i - 1].1@)
    }
}

/// The serialized body: `null` when there is none.
pub open spec fn body_text(b: Option<Json>) -> Seq<char> {
    match b {
        None => seq!['n', 'u', 'l', 'l'],
        Some(j) => json_text(j),
    }
}

/// The stored document of a request: one JSON object with the fields
/// `url`, `method`, `headers` and `body`, in that order, compact.
pub open spec fn request_text(r: TemplateRequest) -> Seq<char> {
    seq!['{', '"', 'u', 'r', 'l', '"', ':'] + string_token(r.url@) + seq![',', '"', 'm', 'e', 't',
        'h', 'o', 'd', '"', ':', '"'] + r.method.text() + seq!['"', ',', '"', 'h', 'e', 'a', 'd',
        'e', 'r', 's', '"', ':', '{'] + headers_obj_text(r.headers@, r.headers@.len() as int)
        + seq!['}', ',', '"', 'b', 'o', 'd', 'y', '"', ':'] + body_text(r.body) + seq!['}']
}

/// The `url` field name.
pub open spec fn url_key() -> Seq<char> {
    seq!['u', 'r', 'l']
}

/// The `method` field name.
pub open spec fn method_key() -> Seq<char> {
    seq!['m', 'e', 't', 'h', 'o', 'd']
}

/// The `headers` field name.
pub open spec fn headers_key() -> Seq<char> {
    seq!['h', 'e', 'a', 'd', 'e', 'r', 's']
}

/// The `body` field name.
pub open spec fn body_key() -> Seq<char> {
    seq!['b', 'o', 'd', 'y']
}

/// Whether a JSON value fits the request schema: an object whose `url`
/// is a string, whose `method` names a method, and whose `headers` is an
/// object of strings. A `body` field may hold anything or be absent.
pub open spec fn json_is_request(j: Json) -> bool {
    match j {
        Json::Obj(f) => {
            &&& (var_lookup(f.deep_view(), url_key()) matches Some(u) && u is Str)
            &&& (var_lookup(f.deep_view(), method_key()) matches Some(m) && m is Str
                && method_of_text(m->Str_0@) is Some)
            &&& (var_lookup(f.deep_view(), headers_key()) matches Some(h) && h is Obj && (forall|
                k: int,
            |
                0 <= k < h->Obj_0.deep_view().len() ==> (#[trigger] h->Obj_0.deep_view()[k]).1
                    is Str))
        },
        _ => false,
    }
}

/// Header pairs read out of a `headers` object whose values are strings.
pub open spec fn header_pairs(hs: Seq<(Seq<char>, Json)>) -> Seq<(Seq<char>, Seq<char>)> {
    hs.map_values(|p: (Seq<char>, Json)| (p.0, p.1->Str_0@))
}

/// A body as it is kept after a read or an edit: an absent body, a null
/// body and an empty-object body are all no body.
pub open spec fn normalized_body(b: Option<Json>) -> Option<Json> {
    match b {
        None => None,
        Some(Json::Null) => None,
        Some(Json::Obj(e)) => if e.len() == 0 {
            None
        } else {
            Some(Json::Obj(e))
        },
        Some(v) => Some(v),
    }
}

/// How a parsed request relates to the JSON object it was read from.
pub open spec fn request_of(req: TemplateRequest, j: Json) -> bool {
    match j {
        Json::Obj(f) => {
            &&& (var_lookup(f.deep_view(), url_key()) matches Some(u) && u is Str && req.url@ == u
                ->Str_0@)
            &&& (var_lookup(f.deep_view(), method_key()) matches Some(m) && m is Str
                && method_of_text(m->Str_0@) == Some(req.method))
            &&& (var_lookup(f.deep_view(), headers_key()) matches Some(h) && h is Obj
                && req.headers.deep_view() == header_pairs(h->Obj_0.deep_view()))
            &&& req.body == normalized_body(var_lookup(f.deep_view(), body_key()))
        },
        _ => false,
    }
}

impl TemplateRequest {
    /// Writes the request out as its stored JSON document.
    pub fn to_json_text(&self) -> (r: String)
        ensures
            r@ == request_text(*self),
    {
        proof {
            reveal_strlit("{\"url\":");
            reveal_strlit(",\"method\":\"");
            reveal_strlit("\",\"headers\":{");
            reveal_strlit("},\"body\":");
            reveal_strlit("null");
            reveal_strlit("}");
            assert("{\"url\":"@ =~= seq!['{', '"', 'u', 'r', 'l', '"', ':']);
            assert(",\"method\":\""@ =~= seq![',', '"', 'm', 'e', 't', 'h', 'o', 'd', '"', ':', '"']);
            assert("\",\"headers\":{"@ =~= seq!['"', ',', '"', 'h', 'e', 'a', 'd', 'e', 'r', 's', '"', ':', '{']);
            assert("},\"body\":"@ =~= seq!['}', ',', '"', 'b', 'o', 'd', 'y', '"', ':']);
            assert("null"@ =~= seq!['n', 'u', 'l', 'l']);
            assert("}"@ =~= seq!['}']);
        }
        let mut out: Vec<char> = Vec::new();
        push_str_chars(&mut out, "{\"url\":");
        emit_string_token(self.url.as_str(), &mut out);
        push_str_chars(&mut out, ",\"method\":\"");
        push_str_chars(&mut out, self.method.as_str());
        push_str_chars(&mut out, "\",\"headers\":{");
        let ghost mid = out@;
        let mut k: usize = 0;
        while k < self.headers.len()
            invariant
                0 <= k <= self.headers@.len(),
                out@ == mid + headers_obj_text(self.headers@, k as int),
            decreases self.headers@.len() - k,
        {
            if k > 0 {
                out.push(',');
            }
            emit_string_token(self.headers[k].0.as_str(), &mut out);
            out.push(':');
            emit_string_token(self.headers[k].1.as_str(), &mut out);
            proof {
                assert(out@ =~= mid + headers_obj_text(self.headers@, k + 1 as int));
            }
            k = k + 1;
        }
        push_str_chars(&mut out, "},\"body\":");
        match &self.body {
            None => push_str_chars(&mut out, "null"),
            Some(j) => emit_json(j, &mut out),
        }
        push_str_chars(&mut out, "}");
        proof {
            assert(out@ =~= request_text(*self));
        }
        chars_to_string(&out)
    }

    /// Reads a request out of a parsed JSON value, normalizing an empty
    /// or null body to no body.
    pub fn from_json(j: Json) -> (r: Result<TemplateRequest, ReqError>)
        ensures
            match r {
                Ok(req) => json_is_request(j) && request_of(req, j),
                Err(e) => e == ReqError::MalformedDocument && !json_is_request(j),
            },
    {
        proof {
            reveal_strlit("url");
            reveal_strlit("method");
            reveal_strlit("headers");
            reveal_strlit("body");
        }
        let url_k = "url".to_owned();
        let method_k = "method".to_owned();
        let headers_k = "headers".to_owned();
        let body_k = "body".to_owned();
        proof {
            assert(url_k@ =~= url_key());
            assert(method_k@ =~= method_key());
            assert(headers_k@ =~= headers_key());
            assert(body_k@ =~= body_key());
        }
        let mut f: Vec<(String, Json)> = match j {
            Json::Obj(f) => f,
            _ => {
                return Err(ReqError::MalformedDocument);
            },
        };
        let url: String = match var_lookup_exec(&f, &url_k) {
            Some(Json::Str(u)) => u.clone(),
            _ => {
                return Err(ReqError::MalformedDocument);
            },
        };
        let method: Method = match var_lookup_exec(&f, &method_k) {
            Some(Json::Str(m)) => match parse_method(m.as_str()) {
                Some(meth) => meth,
                None => {
                    return Err(ReqError::MalformedDocument);
                },
            },
            _ => {
                return Err(ReqError::MalformedDocument);
            },
        };
        let mut headers: Vec<(String, String)> = Vec::new();
        let href: &Json = match var_lookup_exec(&f, &headers_k) {
            Some(h) => h,
            None => {
                return Err(ReqError::MalformedDocument);
            },
        };
        let ghost hjson: Json = *href;
        proof {
            assert(var_lookup(f.deep_view(), headers_key()) == Some(hjson));
        }
        let hf: &Vec<(String, Json)> = match href {
            Json::Obj(hf) => hf,
            _ => {
                return Err(ReqError::MalformedDocument);
            },
        };
        let ghost hv = hf.deep_view();
        proof {
            assert(hjson is Obj && hjson->Obj_0 == *hf);
            assert(headers.deep_view() =~= header_pairs(hv.take(0)));
        }
        let mut k: usize = 0;
        while k < hf.len()
            invariant
                j == Json::Obj(f),
                var_lookup(f.deep_view(), headers_key()) == Some(hjson),
                hjson is Obj && hjson->Obj_0 == *hf,
                hv == hf.deep_view(),
                hf.deep_view().len() == hf@.len(),
                0 <= k <= hf@.len(),
                forall|m: int| 0 <= m < k ==> (#[trigger] hv[m]).1 is Str,
                headers.deep_view() == header_pairs(hv.take(k as int)),
            decreases hf@.len() - k,
        {
            match &hf[k].1 {
                Json::Str(v) => {
                    let ghost prev = headers.deep_view();
                    headers.push((hf[k].0.clone(), v.clone()));
                    proof {
                        assert(headers.deep_view() =~= prev.push(
                            (hv[k as int].0, hv[k as int].1->Str_0@),
                        ));
                        assert(headers.deep_view() =~= header_pairs(hv.take(k + 1 as int)));
                    }
                },
                _ => {
                    proof {
                        assert(hv[k as int] == (hf@[k as int].0@, hf@[k as int].1));
                        assert(!(hv[k as int].1 is Str));
                        assert(!json_is_request(j)) by {
                            if json_is_request(j) {
                                assert(hjson->Obj_0.deep_view()[k as int].1 is Str);
                                assert(false);
                            }
                        }
                    }
                    return Err(ReqError::MalformedDocument);
                },
            }
            k = k + 1;
        }
        proof {
            assert(hv.take(k as int) =~= hv);
        }
        let body: Option<Json> = match var_find(&f, &body_k) {
            Some(ix) => {
                let pair = f.remove(ix);
                match pair.1 {
                    Json::Null => None,
                    Json::Obj(e) => {
                        if e.len() == 0 {
                            None
                        } else {
                            Some(Json::Obj(e))
                        }
                    },
                    v => Some(v),
                }
            },
            None => None,
        };
        Ok(TemplateRequest { url, method, headers, body })
    }

    /// Reads a request out of its stored JSON text.
    pub fn parse(text: &str) -> (r: Result<TemplateRequest, ReqError>)
        ensures
            match r {
                Ok(req) => (json_parse(text@) matches Some(j) && json_is_request(j) && request_of(
                    req,
                    j,
                )),
                Err(e) => {
                    &&& e == ReqError::MalformedDocument
                    &&& match json_parse(text@) {
                        Some(j) => !json_is_request(j),
                        None => true,
                    }
                },
            },
    {
        match parse_json(text) {
            Some(j) => TemplateRequest::from_json(j),
            None => Err(ReqError::MalformedDocument),
        }
    }
}

impl Default for TemplateRequest {
    /// The default request document: an empty url, GET, no headers, no
    /// body.
    fn default() -> (r: Self)
        ensures
            r.url@ == Seq::<char>::empty(),
            r.method == Method::Get,
            r.headers@.len() == 0,
            r.body is None,
    {
        TemplateRequest { url: String::new(), method: Method::Get, headers: Vec::new(), body: None }
    }
}

/// A named request template, as it lives inside its project.
#[derive(Debug)]
pub struct Template {
    pub name: String,
    pub request: TemplateRequest,
}

impl Template {
    /// A fresh template holding the default request document.
    pub fn new(name: &str) -> (t: Template)
        ensures
            t.name@ == name@,
            t.request.url@ == Seq::<char>::empty(),
            t.request.method == Method::Get,
            t.request.headers@.len() == 0,
            t.request.body is None,
    {
        Template { name: name.to_owned(), request: TemplateRequest::default() }
    }
}

/// True when every identifier is of a generated kind: a run without a
/// selected variable can still resolve those.
pub open spec fn only_gen_ids(ids: Seq<Seq<char>>) -> bool {
    forall|k: int|
        0 <= k < ids.len() ==> (#[trigger] ids[k]) == uuid_id() || ids[k] == timestamp_id()
}

/// Generated identifiers never fail to resolve, whatever the entries.
proof fn lemma_resolution_gen_only(ids: Seq<Seq<char>>, c: Seq<(Seq<char>, Json)>)
    requires
        only_gen_ids(ids),
    ensures
        resolution_error(ids, c) is None,
    decreases ids.len(),
{
    if ids.len() > 0 {
        assert(ids[0] == uuid_id() || ids[0] == timestamp_id());
        assert forall|k: int|
            0 <= k < ids.drop_first().len() implies ((#[trigger] ids.drop_first()[k]) == uuid_id()
            || ids.drop_first()[k] == timestamp_id()) by {
            assert(ids.drop_first()[k] == ids[k + 1]);
        }
        lemma_resolution_gen_only(ids.drop_first(), c);
    }
}

impl Template {
    /// Creates a template in the project, holding the default request
    /// document. The name must be path-safe and free.
    pub fn create(project: &mut Project, template_name: &str) -> (r: Result<(), ReqError>)
        requires
            old(project).wf(),
        ensures
            final(project).wf(),
            final(project).name@ == old(project).name@,
            final(project).variables@ == old(project).variables@,
            final(project).selected_variable == old(project).selected_variable,
            !valid_name_spec(template_name@) ==> r == Err::<(), ReqError>(ReqError::InvalidName)
                && *final(project) == *old(project),
            valid_name_spec(template_name@) && template_named(
                old(project).templates@,
                template_name@,
            ) is Some ==> r == Err::<(), ReqError>(ReqError::AlreadyExists) && *final(project)
                == *old(project),
            valid_name_spec(template_name@) && template_named(
                old(project).templates@,
                template_name@,
            ) is None ==> {
                &&& r == Ok::<(), ReqError>(())
                &&& final(project).templates@.len() == old(project).templates@.len() + 1
                &&& final(project).templates@.take(old(project).templates@.len() as int) == old(project).templates@
                &&& final(project).templates@.last().name@ == template_name@
                &&& final(project).templates@.last().request.url@ == Seq::<char>::empty()
                &&& final(project).templates@.last().request.method == Method::Get
                &&& final(project).templates@.last().request.headers@.len() == 0
                &&& final(project).templates@.last().request.body is None
            },
    {
        if !valid_name(template_name) {
            return Err(ReqError::InvalidName);
        }
        if template_index(&project.templates, template_name).is_some() {
            return Err(ReqError::AlreadyExists);
        }
        let ghost prev = project.templates@;
        let t = Template::new(template_name);
        project.templates.push(t);
        proof {
            assert(project.templates@.take(prev.len() as int) =~= prev);
            lemma_template_named_absent(prev, template_name@);
            assert forall|k1: int, k2: int|
                0 <= k1 < k2 < project.templates@.len() implies project.templates@[k1].name@
                != project.templates@[k2].name@ by {
                if k2 < prev.len() {
                    assert(project.templates@[k1] == prev[k1] && project.templates@[k2]
                        == prev[k2]);
                } else {
                    assert(project.templates@[k1] == prev[k1]);
                }
            }
        }
        Ok(())
    }

    /// Looks a template up by name inside its project.
    pub fn get<'a>(project: &'a Project, template_name: &str) -> (r: Result<&'a Template, ReqError>)
        ensures
            !valid_name_spec(template_name@) ==> (r matches Err(e) && e == ReqError::InvalidName),
            valid_name_spec(template_name@) ==> match r {
                Ok(t) => template_named(project.templates@, template_name@) == Some(*t),
                Err(e) => {
                    &&& e == ReqError::NotFound
                    &&& template_named(project.templates@, template_name@) is None
                },
            },
    {
        if !valid_name(template_name) {
            return Err(ReqError::InvalidName);
        }
        match template_index(&project.templates, template_name) {
            Some(ix) => Ok(&project.templates[ix]),
            None => Err(ReqError::NotFound),
        }
    }

    /// The names of all templates of the project, in listing order.
    pub fn list(project: &Project) -> (r: Vec<String>)
        ensures
            r.deep_view() == project.templates@.map_values(|t: Template| t.name@),
    {
        let mut r: Vec<String> = Vec::new();
        let mut k: usize = 0;
        while k < project.templates.len()
            invariant
                0 <= k <= project.templates@.len(),
                r.deep_view().len() == k,
                forall|m: int|
                    0 <= m < k ==> r.deep_view()[m] == #[trigger] project.templates@[m].name@,
            decreases project.templates@.len() - k,
        {
            let ghost prev = r.deep_view();
            r.push(project.templates[k].name.clone());
            proof {
                assert(r.deep_view() =~= prev.push(project.templates@[k as int].name@));
            }
            k = k + 1;
        }
        proof {
            assert(r.deep_view() =~= project.templates@.map_values(|t: Template| t.name@));
        }
        r
    }

    /// Serializes the named template and registers every input
    /// placeholder of the text in the project's variables; the text is
    /// handed back for persisting.
    pub fn save(project: &mut Project, template_name: &str) -> (r: Result<String, ReqError>)
        requires
            old(project).wf(),
        ensures
            final(project).wf(),
            final(project).name@ == old(project).name@,
            final(project).templates@ == old(project).templates@,
            final(project).selected_variable == old(project).selected_variable,
            match r {
                Ok(text) => {
                    &&& valid_name_spec(template_name@)
                    &&& (template_named(old(project).templates@, template_name@) matches Some(t)
                        && text@ == request_text(t.request))
                    &&& final(project).variables@.len() == old(project).variables@.len()
                    &&& (forall|k: int|
                        0 <= k < old(project).variables@.len() ==> {
                            &&& (#[trigger] final(project).variables@[k]).name@ == old(project).variables@[k].name@
                            &&& registered(
                                old(project).variables@[k].contents.deep_view(),
                                final(project).variables@[k].contents.deep_view(),
                                scan_ids(text@, 0, false),
                            )
                        })
                },
                Err(e) => {
                    &&& *final(project) == *old(project)
                    &&& (!valid_name_spec(template_name@) ==> e == ReqError::InvalidName)
                    &&& (valid_name_spec(template_name@) ==> e == ReqError::NotFound
                        && template_named(old(project).templates@, template_name@) is None)
                },
            },
    {
        if !valid_name(template_name) {
            return Err(ReqError::InvalidName);
        }
        let ix = match template_index(&project.templates, template_name) {
            Some(ix) => ix,
            None => {
                return Err(ReqError::NotFound);
            },
        };
        let text = project.templates[ix].request.to_json_text();
        project.update_variables(text.as_str());
        Ok(text)
    }

    /// Replaces the named template's request with the edited document,
    /// normalizing an empty-object body to no body; a parse failure
    /// leaves the project unchanged.
    pub fn edit(project: &mut Project, template_name: &str, edited: &str) -> (r: Result<
        (),
        ReqError,
    >)
        requires
            old(project).wf(),
        ensures
            final(project).wf(),
            final(project).name@ == old(project).name@,
            final(project).variables@ == old(project).variables@,
            final(project).selected_variable == old(project).selected_variable,
            match r {
                Ok(()) => {
                    &&& valid_name_spec(template_name@)
                    &&& (json_parse(edited@) matches Some(jj) && json_is_request(jj))
                    &&& final(project).templates@.len() == old(project).templates@.len()
                    &&& (exists|ix: int|
                        {
                            &&& 0 <= ix < old(project).templates@.len()
                            &&& (#[trigger] old(project).templates@[ix]).name@ == template_name@
                            &&& (forall|m: int|
                                0 <= m < old(project).templates@.len() && m != ix ==> final(project).templates@[m] == #[trigger] old(project).templates@[m])
                            &&& final(project).templates@[ix].name@ == template_name@
                            &&& request_of(
                                final(project).templates@[ix].request,
                                json_parse(edited@)->Some_0,
                            )
                        })
                },
                Err(e) => {
                    &&& final(project).templates@ == old(project).templates@
                    &&& (!valid_name_spec(template_name@) ==> e == ReqError::InvalidName)
                    &&& (valid_name_spec(template_name@) ==> (e == ReqError::NotFound
                        <==> template_named(old(project).templates@, template_name@) is None))
                    &&& (valid_name_spec(template_name@) && template_named(
                        old(project).templates@,
                        template_name@,
                    ) is Some ==> {
                        &&& e == ReqError::MalformedDocument
                        &&& match json_parse(edited@) {
                            Some(jj) => !json_is_request(jj),
                            None => true,
                        }
                    })
                },
            },
    {
        if !valid_name(template_name) {
            return Err(ReqError::InvalidName);
        }
        let ix = match template_index(&project.templates, template_name) {
            Some(ix) => ix,
            None => {
                return Err(ReqError::NotFound);
            },
        };
        let req = match TemplateRequest::parse(edited) {
            Ok(req) => req,
            Err(e) => {
                return Err(e);
            },
        };
        let ghost prev = project.templates@;
        let mut t = project.templates.remove(ix);
        t.request = req;
        project.templates.insert(ix, t);
        proof {
            assert(project.templates@ =~= prev.update(ix as int, project.templates@[ix as int]));
            assert forall|k1: int, k2: int|
                0 <= k1 < k2 < project.templates@.len() implies project.templates@[k1].name@
                != project.templates@[k2].name@ by {
                if k1 != ix && k2 != ix {
                    assert(project.templates@[k1] == prev[k1] && project.templates@[k2]
                        == prev[k2]);
                } else if k1 == ix {
                    assert(project.templates@[k2] == prev[k2]);
                } else {
                    assert(project.templates@[k1] == prev[k1]);
                }
            }
            assert(forall|m: int|
                0 <= m < prev.len() && m != ix ==> project.templates@[m] == #[trigger] prev[m]);
        }
        Ok(())
    }

    /// Renames a template in place; the new name must be path-safe and
    /// free in the project.
    pub fn rename(project: &mut Project, template_name: &str, new_name: &str) -> (r: Result<
        (),
        ReqError,
    >)
        requires
            old(project).wf(),
        ensures
            final(project).wf(),
            final(project).name@ == old(project).name@,
            final(project).variables@ == old(project).variables@,
            final(project).selected_variable == old(project).selected_variable,
            !valid_name_spec(new_name@) ==> r == Err::<(), ReqError>(ReqError::InvalidName)
                && *final(project) == *old(project),
            valid_name_spec(new_name@) && template_named(
                old(project).templates@,
                template_name@,
            ) is None ==> r == Err::<(), ReqError>(ReqError::NotFound) && *final(project) == *old(project),
            valid_name_spec(new_name@) && template_named(
                old(project).templates@,
                template_name@,
            ) is Some && template_named(old(project).templates@, new_name@) is Some ==> r == Err::<
                (),
                ReqError,
            >(ReqError::AlreadyExists) && *final(project) == *old(project),
            valid_name_spec(new_name@) && template_named(
                old(project).templates@,
                template_name@,
            ) is Some && template_named(old(project).templates@, new_name@) is None ==> {
                &&& r == Ok::<(), ReqError>(())
                &&& final(project).templates@.len() == old(project).templates@.len()
                &&& (exists|ix: int|
                    {
                        &&& 0 <= ix < old(project).templates@.len()
                        &&& (#[trigger] old(project).templates@[ix]).name@ == template_name@
                        &&& (forall|m: int|
                            0 <= m < old(project).templates@.len() && m != ix ==> final(project).templates@[m] == #[trigger] old(project).templates@[m])
                        &&& final(project).templates@[ix].name@ == new_name@
                        &&& final(project).templates@[ix].request == old(project).templates@[ix].request
                    })
            },
    {
        if !valid_name(new_name) {
            return Err(ReqError::InvalidName);
        }
        let ix = match template_index(&project.templates, template_name) {
            Some(ix) => ix,
            None => {
                return Err(ReqError::NotFound);
            },
        };
        if template_index(&project.templates, new_name).is_some() {
            return Err(ReqError::AlreadyExists);
        }
        let ghost prev = project.templates@;
        let mut t = project.templates.remove(ix);
        t.name = new_name.to_owned();
        project.templates.insert(ix, t);
        proof {
            assert(project.templates@ =~= prev.update(ix as int, project.templates@[ix as int]));
            lemma_template_named_absent(prev, new_name@);
            assert forall|k1: int, k2: int|
                0 <= k1 < k2 < project.templates@.len() implies project.templates@[k1].name@
                != project.templates@[k2].name@ by {
                if k1 != ix && k2 != ix {
                    assert(project.templates@[k1] == prev[k1] && project.templates@[k2]
                        == prev[k2]);
                } else if k1 == ix {
                    assert(project.templates@[k2] == prev[k2]);
                } else {
                    assert(project.templates@[k1] == prev[k1]);
                }
            }
            assert(forall|m: int|
                0 <= m < prev.len() && m != ix ==> project.templates@[m] == #[trigger] prev[m]);
        }
        Ok(())
    }

    /// Deletes a template from its project.
    pub fn delete(project: &mut Project, template_name: &str) -> (r: Result<(), ReqError>)
        requires
            old(project).wf(),
        ensures
            final(project).wf(),
            final(project).name@ == old(project).name@,
            final(project).variables@ == old(project).variables@,
            final(project).selected_variable == old(project).selected_variable,
            !valid_name_spec(template_name@) ==> r == Err::<(), ReqError>(ReqError::InvalidName)
                && *final(project) == *old(project),
            valid_name_spec(template_name@) && template_named(
                old(project).templates@,
                template_name@,
            ) is None ==> r == Err::<(), ReqError>(ReqError::NotFound) && *final(project) == *old(
                project,
            ),
            valid_name_spec(template_name@) && template_named(
                old(project).templates@,
                template_name@,
            ) is Some ==> {
                &&& r == Ok::<(), ReqError>(())
                &&& (exists|ix: int|
                    {
                        &&& 0 <= ix < old(project).templates@.len()
                        &&& (#[trigger] old(project).templates@[ix]).name@ == template_name@
                        &&& final(project).templates@ == old(project).templates@.remove(ix)
                    })
            },
    {
        if !valid_name(template_name) {
            return Err(ReqError::InvalidName);
        }
        let ix = match template_index(&project.templates, template_name) {
            Some(ix) => ix,
            None => {
                return Err(ReqError::NotFound);
            },
        };
        let ghost prev = project.templates@;
        project.templates.remove(ix);
        proof {
            assert forall|k1: int, k2: int|
                0 <= k1 < k2 < project.templates@.len() implies project.templates@[k1].name@
                != project.templates@[k2].name@ by {
                let m1: int = if k1 < ix { k1 } else { k1 + 1 };
                let m2: int = if k2 < ix { k2 } else { k2 + 1 };
                assert(project.templates@[k1] == prev[m1] && project.templates@[k2] == prev[m2]);
            }
        }
        Ok(())
    }


    /// Moves a template to another project, under a new name if one is
    /// given. Within one project this is a rename; across projects the
    /// template leaves the source and joins the end of the target.
    #[verifier::rlimit(100)]
    pub fn relocate(
        root: &mut Root,
        project_name: &str,
        target_project_name: &str,
        template_name: &str,
        new_name: &str,
    ) -> (r: Result<(), ReqError>)
        requires
            old(root).wf(),
        ensures
            final(root).wf(),
            ({
                let sp = project_named(old(root).projects@, project_name@);
                let tp = project_named(old(root).projects@, target_project_name@);
                &&& !valid_name_spec(new_name@) ==> r == Err::<(), ReqError>(ReqError::InvalidName)
                    && final(root).projects@ == old(root).projects@
                &&& valid_name_spec(new_name@) && sp is None ==> r == Err::<(), ReqError>(
                    ReqError::NotFound,
                ) && final(root).projects@ == old(root).projects@
                &&& valid_name_spec(new_name@) && sp is Some && tp is None ==> r == Err::<
                    (),
                    ReqError,
                >(ReqError::NotFound) && final(root).projects@ == old(root).projects@
                &&& valid_name_spec(new_name@) && sp is Some && tp is Some && template_named(
                    sp->Some_0.templates@,
                    template_name@,
                ) is None ==> r == Err::<(), ReqError>(ReqError::NotFound) && final(root).projects@
                    == old(root).projects@
                &&& valid_name_spec(new_name@) && sp is Some && tp is Some && template_named(
                    sp->Some_0.templates@,
                    template_name@,
                ) is Some && template_named(tp->Some_0.templates@, new_name@) is Some ==> r
                    == Err::<(), ReqError>(ReqError::AlreadyExists) && final(root).projects@
                    == old(root).projects@
                &&& valid_name_spec(new_name@) && sp is Some && tp is Some && template_named(
                    sp->Some_0.templates@,
                    template_name@,
                ) is Some && template_named(tp->Some_0.templates@, new_name@) is None ==> {
                    &&& r == Ok::<(), ReqError>(())
                    &&& final(root).projects@.len() == old(root).projects@.len()
                    &&& (project_name@ == target_project_name@ ==> (exists|pi: int, ti: int|
                        {
                            &&& 0 <= pi < old(root).projects@.len()
                            &&& 0 <= ti < old(root).projects@[pi].templates@.len()
                            &&& (#[trigger] old(root).projects@[pi]).name@ == project_name@
                            &&& (#[trigger] old(root).projects@[pi].templates@[ti]).name@
                                == template_name@
                            &&& (forall|m: int|
                                0 <= m < old(root).projects@.len() && m != pi ==> final(root).projects@[m] == #[trigger] old(root).projects@[m])
                            &&& final(root).projects@[pi].name@ == old(root).projects@[pi].name@
                            &&& final(root).projects@[pi].variables@ == old(root).projects@[pi].variables@
                            &&& final(root).projects@[pi].selected_variable == old(root).projects@[pi].selected_variable
                            &&& final(root).projects@[pi].templates@.len() == old(root).projects@[pi].templates@.len()
                            &&& (forall|m: int|
                                0 <= m < old(root).projects@[pi].templates@.len() && m != ti
                                    ==> final(root).projects@[pi].templates@[m] == #[trigger] old(root).projects@[pi].templates@[m])
                            &&& final(root).projects@[pi].templates@[ti].name@ == new_name@
                            &&& final(root).projects@[pi].templates@[ti].request == old(root).projects@[pi].templates@[ti].request
                        }))
                    &&& (project_name@ != target_project_name@ ==> (exists|
                        pi: int,
                        qi: int,
                        ti: int,
                    |
                        {
                            &&& 0 <= pi < old(root).projects@.len()
                            &&& 0 <= qi < old(root).projects@.len()
                            &&& pi != qi
                            &&& 0 <= ti < old(root).projects@[pi].templates@.len()
                            &&& (#[trigger] old(root).projects@[pi]).name@ == project_name@
                            &&& (#[trigger] old(root).projects@[qi]).name@
                                == target_project_name@
                            &&& (#[trigger] old(root).projects@[pi].templates@[ti]).name@
                                == template_name@
                            &&& (forall|m: int|
                                0 <= m < old(root).projects@.len() && m != pi && m != qi
                                    ==> final(root).projects@[m] == #[trigger] old(root).projects@[m])
                            &&& final(root).projects@[pi].name@ == old(root).projects@[pi].name@
                            &&& final(root).projects@[pi].variables@ == old(root).projects@[pi].variables@
                            &&& final(root).projects@[pi].selected_variable == old(root).projects@[pi].selected_variable
                            &&& final(root).projects@[pi].templates@ == old(root).projects@[pi].templates@.remove(ti)
                            &&& final(root).projects@[qi].name@ == old(root).projects@[qi].name@
                            &&& final(root).projects@[qi].variables@ == old(root).projects@[qi].variables@
                            &&& final(root).projects@[qi].selected_variable == old(root).projects@[qi].selected_variable
                            &&& final(root).projects@[qi].templates@.len() == old(root).projects@[qi].templates@.len() + 1
                            &&& final(root).projects@[qi].templates@.take(
                                old(root).projects@[qi].templates@.len() as int,
                            ) == old(root).projects@[qi].templates@
                            &&& final(root).projects@[qi].templates@.last().name@ == new_name@
                            &&& final(root).projects@[qi].templates@.last().request == old(root).projects@[pi].templates@[ti].request
                        }))
                }
            }),
    {
        if !valid_name(new_name) {
            return Err(ReqError::InvalidName);
        }
        let ghost prev = root.projects@;
        let pi = match project_index(&root.projects, project_name) {
            Some(pi) => pi,
            None => {
                return Err(ReqError::NotFound);
            },
        };
        if str_eq(project_name, target_project_name) {
            let mut p = root.projects.remove(pi);
            let ghost taken = p;
            let res = Template::rename(&mut p, template_name, new_name);
            let ghost after = p;
            root.projects.insert(pi, p);
            proof {
                assert(root.projects@ =~= prev.update(pi as int, after));
                if res is Err {
                    assert(after == taken);
                    assert(root.projects@ =~= prev);
                }
                assert forall|k1: int, k2: int|
                    0 <= k1 < k2 < root.projects@.len() implies root.projects@[k1].name@
                    != root.projects@[k2].name@ by {
                    if k1 != pi && k2 != pi {
                        assert(root.projects@[k1] == prev[k1] && root.projects@[k2] == prev[k2]);
                    } else if k1 == pi {
                        assert(root.projects@[k2] == prev[k2]);
                    } else {
                        assert(root.projects@[k1] == prev[k1]);
                    }
                }
                assert(forall|m: int|
                    0 <= m < prev.len() && m != pi ==> root.projects@[m] == #[trigger] prev[m]);
            }
            match res {
                Ok(()) => {
                    proof {
                        let ti = choose|ti: int|
                            {
                                &&& 0 <= ti < taken.templates@.len()
                                &&& (#[trigger] taken.templates@[ti]).name@ == template_name@
                                &&& (forall|m: int|
                                    0 <= m < taken.templates@.len() && m != ti
                                        ==> after.templates@[m] == #[trigger] taken.templates@[m])
                                &&& after.templates@[ti].name@ == new_name@
                                &&& after.templates@[ti].request == taken.templates@[ti].request
                            };
                        assert(root.projects@[pi as int] == after);
                        assert(prev[pi as int] == taken);
                    }
                    Ok(())
                },
                Err(e) => Err(e),
            }
        } else {
            if project_index(&root.projects, target_project_name).is_none() {
                return Err(ReqError::NotFound);
            }
            let mut p = root.projects.remove(pi);
            let ghost shorter = root.projects@;
            let ti = match template_index(&p.templates, template_name) {
                Some(ti) => ti,
                None => {
                    root.projects.insert(pi, p);
                    proof {
                        assert(root.projects@ =~= prev);
                    }
                    return Err(ReqError::NotFound);
                },
            };
            let qi = match project_index(&root.projects, target_project_name) {
                Some(qi) => qi,
                None => {
                    proof {
                        assert(false) by {
                            let q0 = choose|q0: int|
                                0 <= q0 < prev.len() && (#[trigger] prev[q0]).name@
                                    == target_project_name@;
                            let s0: int = if q0 < pi { q0 } else { q0 - 1 };
                            assert(shorter[s0] == prev[q0]);
                            crate::project::lemma_project_named_absent(
                                shorter,
                                target_project_name@,
                            );
                        }
                    }
                    root.projects.insert(pi, p);
                    return Err(ReqError::NotFound);
                },
            };
            let mut q = root.projects.remove(qi);
            let ghost shorter2 = root.projects@;
            if template_index(&q.templates, new_name).is_some() {
                root.projects.insert(qi, q);
                root.projects.insert(pi, p);
                proof {
                    assert(root.projects@ =~= prev);
                }
                return Err(ReqError::AlreadyExists);
            }
            let ghost ptaken = p;
            let ghost qtaken = q;
            let mut moved = p.templates.remove(ti);
            moved.name = new_name.to_owned();
            let ghost movedg = moved;
            q.templates.push(moved);
            let ghost pafter = p;
            let ghost qafter = q;
            root.projects.insert(qi, q);
            root.projects.insert(pi, p);
            proof {
                let gq: int = if qi < pi { qi as int } else { qi as int + 1 };
                assert(prev[gq] == qtaken);
                assert(prev[pi as int] == ptaken);
                assert forall|m: int| 0 <= m < prev.len() implies root.projects@[m] == (if m == pi {
                    pafter
                } else if m == gq {
                    qafter
                } else {
                    prev[m]
                }) by {
                    if m < pi {
                        if m == gq {
                        } else {
                        }
                    }
                }
                assert(qafter.templates@.take(qtaken.templates@.len() as int)
                    =~= qtaken.templates@);
                crate::project::lemma_template_named_absent(qtaken.templates@, new_name@);
                assert forall|k1: int, k2: int|
                    0 <= k1 < k2 < root.projects@.len() implies root.projects@[k1].name@
                    != root.projects@[k2].name@ by {
                    assert(root.projects@[k1] == (if k1 == pi { pafter } else if k1 == gq {
                        qafter
                    } else {
                        prev[k1]
                    }));
                    assert(root.projects@[k2] == (if k2 == pi { pafter } else if k2 == gq {
                        qafter
                    } else {
                        prev[k2]
                    }));
                }
                assert forall|k1: int, k2: int|
                    0 <= k1 < k2 < pafter.templates@.len() implies pafter.templates@[k1].name@
                    != pafter.templates@[k2].name@ by {
                    let m1: int = if k1 < ti { k1 } else { k1 + 1 };
                    let m2: int = if k2 < ti { k2 } else { k2 + 1 };
                    assert(pafter.templates@[k1] == ptaken.templates@[m1]
                        && pafter.templates@[k2] == ptaken.templates@[m2]);
                }
                assert forall|k1: int, k2: int|
                    0 <= k1 < k2 < qafter.templates@.len() implies qafter.templates@[k1].name@
                    != qafter.templates@[k2].name@ by {
                    if k2 < qtaken.templates@.len() {
                        assert(qafter.templates@[k1] == qtaken.templates@[k1]
                            && qafter.templates@[k2] == qtaken.templates@[k2]);
                    } else {
                        assert(qafter.templates@[k1] == qtaken.templates@[k1]);
                        assert(qafter.templates@[k2] == movedg);
                    }
                }
                assert(pafter.templates@ =~= ptaken.templates@.remove(ti as int));
            }
            Ok(())
        }
    }

    /// Serializes the named template and resolves its placeholders with
    /// the selected variable. Without a selection the template may still
    /// run when it holds only generated placeholders; otherwise the
    /// selection is required.
    pub fn request_with_variables(project: &Project, template_name: &str) -> (r: Result<
        String,
        ReqError,
    >)
        requires
            project.wf(),
        ensures
            match template_named(project.templates@, template_name@) {
                None => r == Err::<String, ReqError>(ReqError::NotFound),
                Some(t) => match project.selected_variable {
                    Some(ix) => ({
                        let text = request_text(t.request);
                        let cv = project.variables@[ix as int].contents.deep_view();
                        match r {
                            Ok(out) => {
                                &&& resolution_error(scan_ids(text, 0, true), cv) is None
                                &&& (exists|b: Seq<(Seq<char>, Seq<char>)>|
                                    #[trigger] bindings_ok(text, cv, b) && out@ == subst(
                                        text,
                                        0,
                                        b,
                                    ))
                            },
                            Err(e) => resolution_error(scan_ids(text, 0, true), cv) == Some(e),
                        }
                    }),
                    None => ({
                        let text = request_text(t.request);
                        if only_gen_ids(scan_ids(text, 0, true)) {
                            match r {
                                Ok(out) => (exists|b: Seq<(Seq<char>, Seq<char>)>|
                                    #[trigger] bindings_ok(
                                        text,
                                        Seq::<(Seq<char>, Json)>::empty(),
                                        b,
                                    ) && out@ == subst(text, 0, b)),
                                Err(e) => false,
                            }
                        } else {
                            r == Err::<String, ReqError>(ReqError::NoSelection)
                        }
                    }),
                },
            },
    {
        let ix = match template_index(&project.templates, template_name) {
            Some(ix) => ix,
            None => {
                return Err(ReqError::NotFound);
            },
        };
        let text = project.templates[ix].request.to_json_text();
        match project.selected_variable {
            Some(vix) => substitute(text.as_str(), &project.variables[vix].contents),
            None => {
                proof {
                    reveal_strlit("gen:uuid");
                    reveal_strlit("gen:timestamp");
                    assert("gen:uuid"@ =~= uuid_id());
                    assert("gen:timestamp"@ =~= timestamp_id());
                }
                let ids = extract_placeholders(text.as_str(), true);
                let ghost idsv = ids.deep_view();
                let mut k: usize = 0;
                while k < ids.len()
                    invariant
                        idsv == ids.deep_view(),
                        ids@.len() == idsv.len(),
                        0 <= k <= ids@.len(),
                        0 <= ix < project.templates@.len(),
                        template_named(project.templates@, template_name@) == Some(
                            project.templates@[ix as int],
                        ),
                        idsv == scan_ids(
                            request_text(project.templates@[ix as int].request),
                            0,
                            true,
                        ),
                        project.selected_variable is None,
                        forall|m: int|
                            0 <= m < k ==> (#[trigger] idsv[m]) == uuid_id() || idsv[m]
                                == timestamp_id(),
                        uuid_id() == "gen:uuid"@,
                        timestamp_id() == "gen:timestamp"@,
                    decreases ids@.len() - k,
                {
                    let id = &ids[k];
                    proof {
                        assert(idsv[k as int] == id@);
                    }
                    if !(str_eq(id.as_str(), "gen:uuid") || str_eq(id.as_str(), "gen:timestamp")) {
                        proof {
                            assert(!only_gen_ids(idsv));
                        }
                        return Err(ReqError::NoSelection);
                    }
                    k = k + 1;
                }
                let empty_contents: Vec<(String, Json)> = Vec::new();
                proof {
                    assert(only_gen_ids(idsv));
                    assert(empty_contents.deep_view() =~= Seq::<(Seq<char>, Json)>::empty());
                }
                match substitute(text.as_str(), &empty_contents) {
                    Ok(out) => Ok(out),
                    Err(_) => {
                        proof {
                            lemma_resolution_gen_only(idsv, empty_contents.deep_view());
                            assert(false);
                        }
                        Err(ReqError::NoSelection)
                    },
                }
            },
        }
    }
}

} // verus!
