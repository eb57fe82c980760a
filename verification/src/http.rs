use vstd::prelude::*;
use crate::json::Json;
use crate::json::json_text;
use crate::json::json_to_string;
use crate::text::chars_to_string_range;
use crate::text::str_eq;
use vstd::string::StrSliceExecFns;

verus! {

/// The HTTP methods a template may name.
#[derive(Debug, Clone, Copy, PartialEq, Eq, Structural)]
pub enum Method {
    Get,
    Post,
    Put,
    Patch,
    Delete,
}

impl Method {
    /// The upper-case name of the method, as stored documents spell it.
    pub open spec fn text(&self) -> Seq<char> {
        match self {
            Method::Get => seq!['G', 'E', 'T'],
            Method::Post => seq!['P', 'O', 'S', 'T'],
            Method::Put => seq!['P', 'U', 'T'],
            Method::Patch => seq!['P', 'A', 'T', 'C', 'H'],
            Method::Delete => seq!['D', 'E', 'L', 'E', 'T', 'E'],
        }
    }

    /// The upper-case name of the method.
    pub fn as_str(&self) -> (r: &'static str)
        ensures
            r@ == self.text(),
    {
        proof {
            reveal_strlit("GET");
            reveal_strlit("POST");
            reveal_strlit("PUT");
            reveal_strlit("PATCH");
            reveal_strlit("DELETE");
            assert("GET"@ =~= Method::Get.text());
            assert("POST"@ =~= Method::Post.text());
            assert("PUT"@ =~= Method::Put.text());
            assert("PATCH"@ =~= Method::Patch.text());
            assert("DELETE"@ =~= Method::Delete.text());
        }
        match self {
            Method::Get => "GET",
            Method::Post => "POST",
            Method::Put => "PUT",
            Method::Patch => "PATCH",
            Method::Delete => "DELETE",
        }
    }
}

/// The method whose name the text spells, if any.
pub open spec fn method_of_text(s: Seq<char>) -> Option<Method> {
    if s == Method::Get.text() {
        Some(Method::Get)
    } else if s == Method::Post.text() {
        Some(Method::Post)
    } else if s == Method::Put.text() {
        Some(Method::Put)
    } else if s == Method::Patch.text() {
        Some(Method::Patch)
    } else if s == Method::Delete.text() {
        Some(Method::Delete)
    } else {
        None
    }
}

/// Reads a method name.
pub fn parse_method(s: &str) -> (r: Option<Method>)
    ensures
        r == method_of_text(s@),
{
    proof {
        reveal_strlit("GET");
        reveal_strlit("POST");
        reveal_strlit("PUT");
        reveal_strlit("PATCH");
        reveal_strlit("DELETE");
        assert("GET"@ =~= Method::Get.text());
        assert("POST"@ =~= Method::Post.text());
        assert("PUT"@ =~= Method::Put.text());
        assert("PATCH"@ =~= Method::Patch.text());
        assert("DELETE"@ =~= Method::Delete.text());
    }
    if str_eq(s, "GET") {
        Some(Method::Get)
    } else if str_eq(s, "POST") {
        Some(Method::Post)
    } else if str_eq(s, "PUT") {
        Some(Method::Put)
    } else if str_eq(s, "PATCH") {
        Some(Method::Patch)
    } else if str_eq(s, "DELETE") {
        Some(Method::Delete)
    } else {
        None
    }
}

/// The whitespace that is stripped out of header and credential options.
pub open spec fn is_space(c: char) -> bool {
    c == ' ' || c == '\t' || c == '\n' || c == '\r'
}

/// The first `i` characters of `s` with whitespace removed.
pub open spec fn stripped(s: Seq<char>, i: int) -> Seq<char>
    decreases i,
{
    if i <= 0 || i > s.len() {
        Seq::empty()
    } else if is_space(s[i - 1]) {
        stripped(s, i - 1)
    } else {
        stripped(s, i - 1).push(s[i - 1])
    }
}

/// The position of the first colon at or after `i`, or the length.
pub open spec fn first_colon(t: Seq<char>, i: int) -> int
    decreases t.len() - i,
    when i >= 0
{
    if i < 0 || i >= t.len() {
        t.len() as int
    } else if t[i] == ':' {
        i
    } else {
        first_colon(t, i + 1)
    }
}

/// A header option split at its first colon, whitespace stripped: the
/// name, and the value up to the next colon or the end. Without a colon
/// there is no header.
pub open spec fn header_parse(s: Seq<char>) -> Option<(Seq<char>, Seq<char>)> {
    let t = stripped(s, s.len() as int);
    let c1 = first_colon(t, 0);
    if c1 == t.len() {
        None
    } else {
        Some((t.subrange(0, c1), t.subrange(c1 + 1, first_colon(t, c1 + 1))))
    }
}

/// A credential option split at its first colon, whitespace stripped:
/// the user, and the password up to the next colon or the end, if a
/// colon is there at all.
pub open spec fn basic_parse(s: Seq<char>) -> (Seq<char>, Option<Seq<char>>) {
    let t = stripped(s, s.len() as int);
    let c1 = first_colon(t, 0);
    if c1 == t.len() {
        (t, None)
    } else {
        (t.subrange(0, c1), Some(t.subrange(c1 + 1, first_colon(t, c1 + 1))))
    }
}

/// Copies the text with every whitespace character removed.
fn strip_spaces(s: &str) -> (r: Vec<char>)
    ensures
        r@ == stripped(s@, s@.len() as int),
{
    let n = s.unicode_len();
    let mut r: Vec<char> = Vec::new();
    let mut i: usize = 0;
    while i < n
        invariant
            n == s@.len(),
            0 <= i <= n,
            r@ == stripped(s@, i as int),
        decreases n - i,
    {
        let c = s.get_char(i);
        if !(c == ' ' || c == '\t' || c == '\n' || c == '\r') {
            r.push(c);
        }
        i = i + 1;
    }
    r
}

/// Finds the first colon at or after `i`.
fn first_colon_exec(t: &Vec<char>, i: usize) -> (r: usize)
    requires
        i <= t@.len(),
    ensures
        r == first_colon(t@, i as int),
        i <= r <= t@.len(),
{
    let mut k: usize = i;
    while k < t.len() && t[k] != ':'
        invariant
            i <= k <= t@.len(),
            first_colon(t@, i as int) == first_colon(t@, k as int),
        decreases t@.len() - k,
    {
        k = k + 1;
    }
    k
}

/// Reads a `Name: value` header option, whitespace stripped.
pub fn parse_header(s: &str) -> (r: Option<(String, String)>)
    ensures
        match header_parse(s@) {
            Some((k, v)) => r matches Some((rk, rv)) && rk@ == k && rv@ == v,
            None => r is None,
        },
{
    let t = strip_spaces(s);
    let c1 = first_colon_exec(&t, 0);
    if c1 == t.len() {
        return None;
    }
    let c2 = first_colon_exec(&t, c1 + 1);
    let k = chars_to_string_range(&t, 0, c1);
    let v = chars_to_string_range(&t, c1 + 1, c2);
    Some((k, v))
}

/// Reads a `user:password` credential option, whitespace stripped; the
/// password may be absent.
pub fn parse_basic(s: &str) -> (r: (String, Option<String>))
    ensures
        ({
            let (u, p) = basic_parse(s@);
            &&& r.0@ == u
            &&& match p {
                Some(pv) => r.1 matches Some(rp) && rp@ == pv,
                None => r.1 is None,
            }
        }),
{
    let t = strip_spaces(s);
    let c1 = first_colon_exec(&t, 0);
    if c1 == t.len() {
        let u = chars_to_string_range(&t, 0, t.len());
        proof {
            assert(t@.subrange(0, t@.len() as int) =~= t@);
        }
        (u, None)
    } else {
        let c2 = first_colon_exec(&t, c1 + 1);
        let u = chars_to_string_range(&t, 0, c1);
        let p = chars_to_string_range(&t, c1 + 1, c2);
        (u, Some(p))
    }
}

/// How a request body is to be sent: not at all, as JSON, or as form
/// data.
#[derive(Debug, PartialEq)]
pub enum BodyChoice {
    NoBody,
    JsonBody(String),
    FormBody(String),
}

/// What a stored body value means for dispatch: an object is sent as
/// JSON text, a string as form data, null or no body as none at all.
/// A number, boolean or array is no valid request body.
pub fn body_from_value(body: &Option<Json>) -> (r: Option<BodyChoice>)
    ensures
        match body {
            None => r == Some(BodyChoice::NoBody),
            Some(j) => match j {
                Json::Obj(_) => r matches Some(c) && c matches BodyChoice::JsonBody(t) && t@
                    == json_text(*j),
                Json::Str(s) => r matches Some(c) && c matches BodyChoice::FormBody(f) && f@ == s@,
                Json::Null => r == Some(BodyChoice::NoBody),
                _ => r is None,
            },
        },
{
    match body {
        None => Some(BodyChoice::NoBody),
        Some(j) => match j {
            Json::Obj(_) => Some(BodyChoice::JsonBody(json_to_string(j))),
            Json::Str(s) => Some(BodyChoice::FormBody(s.clone())),
            Json::Null => Some(BodyChoice::NoBody),
            _ => None,
        },
    }
}

} // verus!
