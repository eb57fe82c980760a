use vstd::prelude::*;
use crate::cmd::shared::BodyConfigArgs;
use crate::cmd::shared::HeaderConfigArgs;
use crate::cmd::shared::RequestPlan;
use crate::cmd::shared::base_plan;
use crate::cmd::shared::body_config_applied;
use crate::cmd::shared::header_config_applied;
use crate::cmd::shared::headers_parsed;
use crate::http::Method;

verus! {

/// The POST command: a url, the header options and the body options.
#[derive(Debug)]
pub struct PostCommandHandler {
    pub url: String,
    pub header_config: HeaderConfigArgs,
    pub body_config: BodyConfigArgs,
}

impl PostCommandHandler {
    /// The dispatch plan the command asks for; nothing if a header
    /// option is invalid or both body options are given.
    pub fn plan(&self) -> (r: Option<RequestPlan>)
        ensures
            match r {
                Some(p) => {
                    &&& p.method == Method::Post
                    &&& p.url@ == self.url@
                    &&& header_config_applied(self.header_config, p)
                    &&& body_config_applied(self.body_config, p)
                },
                None => headers_parsed(self.header_config.headers.deep_view()) is None || (
                self.body_config.json is Some && self.body_config.data is Some),
            },
    {
        let with_headers = match self.header_config.config_http_client(
            base_plan(Method::Post, self.url.as_str()),
        ) {
            Some(p) => p,
            None => {
                return None;
            },
        };
        self.body_config.config_http_client(with_headers)
    }
}

} // verus!
