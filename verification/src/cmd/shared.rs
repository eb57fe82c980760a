use vstd::prelude::*;
use crate::http::BodyChoice;
use crate::http::Method;
use crate::http::basic_parse;
use crate::http::header_parse;
use crate::http::parse_basic;
use crate::http::parse_header;

verus! {

/// Everything a dispatcher needs to issue one request: the method and
/// url, the headers to set, the credentials, the timeout and the body.
#[derive(Debug)]
pub struct RequestPlan {
    pub method: Method,
    pub url: String,
    pub headers: Vec<(String, String)>,
    pub bearer: Option<String>,
    pub basic: Option<(String, Option<String>)>,
    pub timeout_secs: Option<u8>,
    pub body: BodyChoice,
}

/// The header and credential options a command takes.
#[derive(Debug)]
pub struct HeaderConfigArgs {
    pub headers: Vec<String>,
    pub timeout: Option<u8>,
    pub bearer: Option<String>,
    pub basic: Option<String>,
    pub verbose: bool,
}

/// The body options a command takes: JSON text, or form data.
#[derive(Debug)]
pub struct BodyConfigArgs {
    pub json: Option<String>,
    pub data: Option<String>,
}

/// All header options parsed in order; nothing if one of them is not a
/// `Name: value` pair.
pub open spec fn headers_parsed(hs: Seq<Seq<char>>) -> Option<Seq<(Seq<char>, Seq<char>)>>
    decreases hs.len(),
{
    if hs.len() <= 0 {
        Some(Seq::empty())
    } else {
        match (header_parse(hs[0]), headers_parsed(hs.drop_first())) {
            (Some(p), Some(rest)) => Some(seq![p] + rest),
            _ => None,
        }
    }
}

/// How a plan reflects the header and credential options, given that it
/// started with no headers and no credentials.
pub open spec fn header_config_applied(cfg: HeaderConfigArgs, p: RequestPlan) -> bool {
    &&& (headers_parsed(cfg.headers.deep_view()) matches Some(hv) && p.headers.deep_view() == hv)
    &&& (match cfg.bearer {
        Some(b) => p.bearer matches Some(x) && x@ == b@,
        None => p.bearer is None,
    })
    &&& (match cfg.basic {
        Some(s) => ({
            let bp = basic_parse(s@);
            &&& p.basic matches Some(ba)
            &&& (p.basic matches Some(ba) ==> ba.0@ == bp.0 && (match bp.1 {
                Some(pw) => ba.1 matches Some(z) && z@ == pw,
                None => ba.1 is None,
            }))
        }),
        None => p.basic is None,
    })
    &&& p.timeout_secs == cfg.timeout
}

/// How a plan reflects the body options: JSON wins, form data next,
/// otherwise no body. Giving both is refused elsewhere.
pub open spec fn body_config_applied(cfg: BodyConfigArgs, p: RequestPlan) -> bool {
    match cfg.json {
        Some(j) => p.body matches BodyChoice::JsonBody(t) && t@ == j@,
        None => match cfg.data {
            Some(d) => p.body matches BodyChoice::FormBody(t) && t@ == d@,
            None => p.body == BodyChoice::NoBody,
        },
    }
}

impl HeaderConfigArgs {
    /// Parses every header option in order; nothing if one is invalid.
    pub fn parsed_headers(&self) -> (r: Option<Vec<(String, String)>>)
        ensures
            match headers_parsed(self.headers.deep_view()) {
                Some(v) => r matches Some(hs) && hs.deep_view() == v,
                None => r is None,
            },
    {
        let ghost sv = self.headers.deep_view();
        let mut out: Vec<(String, String)> = Vec::new();
        let mut k: usize = 0;
        proof {
            assert(sv.skip(0) =~= sv);
        }
        while k < self.headers.len()
            invariant
                sv == self.headers.deep_view(),
                sv.len() == self.headers@.len(),
                0 <= k <= self.headers@.len(),
                headers_parsed(sv) == (match headers_parsed(sv.skip(k as int)) {
                    Some(rest) => Some(out.deep_view() + rest),
                    None => None::<Seq<(Seq<char>, Seq<char>)>>,
                }),
            decreases self.headers@.len() - k,
        {
            proof {
                assert(sv.skip(k as int)[0] == sv[k as int]);
                assert(sv.skip(k as int).drop_first() =~= sv.skip(k as int + 1));
            }
            match parse_header(self.headers[k].as_str()) {
                Some(pair) => {
                    let ghost prev = out.deep_view();
                    out.push(pair);
                    proof {
                        assert(out.deep_view() =~= prev.push(
                            (header_parse(sv[k as int])->Some_0.0, header_parse(
                                sv[k as int],
                            )->Some_0.1),
                        ));
                        if headers_parsed(sv.skip(k as int + 1)) is Some {
                            let rest2 = headers_parsed(sv.skip(k as int + 1))->Some_0;
                            assert(prev + (seq![header_parse(sv[k as int])->Some_0] + rest2)
                                =~= out.deep_view() + rest2);
                        }
                    }
                },
                None => {
                    return None;
                },
            }
            k = k + 1;
        }
        proof {
            assert(sv.skip(k as int) =~= Seq::<Seq<char>>::empty());
            assert(out.deep_view() + Seq::<(Seq<char>, Seq<char>)>::empty() =~= out.deep_view());
        }
        Some(out)
    }

    /// Applies the header and credential options to a plan that has no
    /// headers and no credentials yet; nothing if a header is invalid.
    pub fn config_http_client(&self, plan: RequestPlan) -> (r: Option<RequestPlan>)
        requires
            plan.headers@.len() == 0,
            plan.bearer is None,
            plan.basic is None,
        ensures
            match r {
                Some(p) => {
                    &&& header_config_applied(*self, p)
                    &&& p.method == plan.method
                    &&& p.url@ == plan.url@
                    &&& p.body == plan.body
                },
                None => headers_parsed(self.headers.deep_view()) is None,
            },
    {
        let headers = match self.parsed_headers() {
            Some(hs) => hs,
            None => {
                return None;
            },
        };
        let bearer = match &self.bearer {
            Some(b) => Some(b.clone()),
            None => None,
        };
        let basic = match &self.basic {
            Some(s) => Some(parse_basic(s.as_str())),
            None => None,
        };
        Some(
            RequestPlan {
                method: plan.method,
                url: plan.url,
                headers,
                bearer,
                basic,
                timeout_secs: self.timeout,
                body: plan.body,
            },
        )
    }
}

impl BodyConfigArgs {
    /// Applies the body options to a plan without a body yet; nothing
    /// when JSON and form data are both given.
    pub fn config_http_client(&self, plan: RequestPlan) -> (r: Option<RequestPlan>)
        requires
            plan.body == BodyChoice::NoBody,
        ensures
            match r {
                Some(p) => {
                    &&& body_config_applied(*self, p)
                    &&& p.method == plan.method
                    &&& p.url@ == plan.url@
                    &&& p.headers == plan.headers
                    &&& p.bearer == plan.bearer
                    &&& p.basic == plan.basic
                    &&& p.timeout_secs == plan.timeout_secs
                },
                None => self.json is Some && self.data is Some,
            },
    {
        let body: BodyChoice = match (&self.json, &self.data) {
            (Some(j), None) => BodyChoice::JsonBody(j.clone()),
            (None, Some(d)) => BodyChoice::FormBody(d.clone()),
            (None, None) => BodyChoice::NoBody,
            (Some(_), Some(_)) => {
                return None;
            },
        };
        Some(
            RequestPlan {
                method: plan.method,
                url: plan.url,
                headers: plan.headers,
                bearer: plan.bearer,
                basic: plan.basic,
                timeout_secs: plan.timeout_secs,
                body,
            },
        )
    }
}

/// A plan with nothing but a method and a url, for the options to fill.
pub fn base_plan(method: Method, url: &str) -> (p: RequestPlan)
    ensures
        p.method == method,
        p.url@ == url@,
        p.headers@.len() == 0,
        p.bearer is None,
        p.basic is None,
        p.timeout_secs is None,
        p.body == BodyChoice::NoBody,
{
    RequestPlan {
        method,
        url: url.to_owned(),
        headers: Vec::new(),
        bearer: None,
        basic: None,
        timeout_secs: None,
        body: BodyChoice::NoBody,
    }
}

} // verus!
