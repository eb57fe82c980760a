use vstd::prelude::*;
use crate::cmd::shared::HeaderConfigArgs;
use crate::cmd::shared::RequestPlan;
use crate::cmd::shared::base_plan;
use crate::cmd::shared::header_config_applied;
use crate::cmd::shared::headers_parsed;
use crate::http::BodyChoice;
use crate::http::Method;

verus! {

/// The GET command: a url and the header options.
#[derive(Debug)]
pub struct GetCommandHandler {
    pub url: String,
    pub header_config: HeaderConfigArgs,
}

impl GetCommandHandler {
    /// The dispatch plan the command asks for; nothing if a header
    /// option is invalid.
    pub fn plan(&self) -> (r: Option<RequestPlan>)
        ensures
            match r {
                Some(p) => {
                    &&& p.method == Method::Get
                    &&& p.url@ == self.url@
                    &&& header_config_applied(self.header_config, p)
                    &&& p.body == BodyChoice::NoBody
                },
                None => headers_parsed(self.header_config.headers.deep_view()) is None,
            },
    {
        self.header_config.config_http_client(base_plan(Method::Get, self.url.as_str()))
    }
}

} // verus!
