use vstd::prelude::*;
use crate::cmd::shared::HeaderConfigArgs;
use crate::cmd::shared::RequestPlan;
use crate::cmd::shared::headers_parsed;
use crate::http::BodyChoice;
use crate::http::body_from_value;
use crate::json::Json;
use crate::json::json_text;
use crate::template::TemplateRequest;

verus! {

/// The run command: a project, the variable to select, the template to
/// run, and the header options.
#[derive(Debug)]
pub struct RunCommandHandler {
    pub project: String,
    pub variable: String,
    pub template: String,
    pub header_config: HeaderConfigArgs,
}

/// How a plan carries a resolved request over for dispatch, with the
/// command's own headers appended after the template's.
pub open spec fn run_plan_of(
    request: TemplateRequest,
    cfg: HeaderConfigArgs,
    p: RequestPlan,
) -> bool {
    &&& p.method == request.method
    &&& p.url@ == request.url@
    &&& (headers_parsed(cfg.headers.deep_view()) matches Some(hv) && p.headers.deep_view()
        == request.headers.deep_view() + hv)
    &&& (match cfg.bearer {
        Some(b) => p.bearer matches Some(x) && x@ == b@,
        None => p.bearer is None,
    })
    &&& (match cfg.basic {
        Some(s) => ({
            let bp = crate::http::basic_parse(s@);
            &&& p.basic matches Some(ba)
            &&& (p.basic matches Some(ba) ==> ba.0@ == bp.0 && (match bp.1 {
                Some(pw) => ba.1 matches Some(z) && z@ == pw,
                None => ba.1 is None,
            }))
        }),
        None => p.basic is None,
    })
    &&& p.timeout_secs == cfg.timeout
    &&& (match request.body {
        None => p.body == BodyChoice::NoBody,
        Some(j) => match j {
            Json::Obj(_) => p.body matches BodyChoice::JsonBody(t) && t@ == json_text(j),
            Json::Str(s) => p.body matches BodyChoice::FormBody(f) && f@ == s@,
            Json::Null => p.body == BodyChoice::NoBody,
            _ => false,
        },
    })
}

impl RunCommandHandler {
    /// Turns a resolved request into a dispatch plan, merging in the
    /// command's own header options; nothing if a header option is
    /// invalid or the stored body is no valid request body.
    pub fn plan_with_request(&self, request: TemplateRequest) -> (r: Option<RequestPlan>)
        ensures
            match r {
                Some(p) => run_plan_of(request, self.header_config, p),
                None => headers_parsed(self.header_config.headers.deep_view()) is None || (
                request.body matches Some(j) && !(j is Obj) && !(j is Str) && !(j is Null)),
            },
    {
        let body = match body_from_value(&request.body) {
            Some(b) => b,
            None => {
                return None;
            },
        };
        let extra = match self.header_config.parsed_headers() {
            Some(hs) => hs,
            None => {
                return None;
            },
        };
        let mut headers = request.headers;
        let ghost base_h = headers.deep_view();
        let ghost extra_v = extra.deep_view();
        let mut k: usize = 0;
        let total = extra.len();
        let mut extra_iter = extra;
        proof {
            assert(base_h + extra_v.take(0) =~= base_h);
        }
        while k < total
            invariant
                extra_v == extra_iter.deep_view(),
                total == extra_iter@.len(),
                0 <= k <= total,
                headers.deep_view() == base_h + extra_v.take(k as int),
            decreases total - k,
        {
            let ghost prev = headers.deep_view();
            let (hk, hv) = (extra_iter[k].0.clone(), extra_iter[k].1.clone());
            headers.push((hk, hv));
            proof {
                assert(headers.deep_view() =~= prev.push(extra_v[k as int]));
                assert(headers.deep_view() =~= base_h + extra_v.take(k as int + 1));
            }
            k = k + 1;
        }
        proof {
            assert(extra_v.take(total as int) =~= extra_v);
        }
        let bearer = match &self.header_config.bearer {
            Some(b) => Some(b.clone()),
            None => None,
        };
        let basic = match &self.header_config.basic {
            Some(s) => Some(crate::http::parse_basic(s.as_str())),
            None => None,
        };
        Some(
            RequestPlan {
                method: request.method,
                url: request.url,
                headers,
                bearer,
                basic,
                timeout_secs: self.header_config.timeout,
                body,
            },
        )
    }
}

} // verus!
