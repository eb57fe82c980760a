pub mod delete;
pub mod get;
pub mod patch;
pub mod post;
pub mod put;
pub mod run;
pub mod shared;
pub mod template;

use vstd::prelude::*;
use crate::cmd::delete::DeleteCommandHandler;
use crate::cmd::get::GetCommandHandler;
use crate::cmd::patch::PatchCommandHandler;
use crate::cmd::post::PostCommandHandler;
use crate::cmd::put::PutCommandHandler;
use crate::cmd::run::RunCommandHandler;
use crate::cmd::template::TemplateCommandHandler;

verus! {

/// The commands the tool knows, one handler each.
#[derive(Debug)]
pub enum Commands {
    Get(GetCommandHandler),
    Post(PostCommandHandler),
    Put(PutCommandHandler),
    Patch(PatchCommandHandler),
    Delete(DeleteCommandHandler),
    Template(TemplateCommandHandler),
    Run(RunCommandHandler),
}

/// One invocation of the tool: a command, and the verbosity flag.
#[derive(Debug)]
pub struct Cli {
    pub command: Commands,
    pub verbose: bool,
}

} // verus!
