//! How a committed entry is started.

use crate::config::DstlConfig;
use crate::entry::{heuristic_terminal, AppEntry};
use vstd::prelude::*;

verus! {

/// The program to start for an entry, and its two arguments.
#[derive(Debug, Clone)]
pub struct LaunchPlan {
    pub program: String,
    pub flag: String,
    pub command: String,
}

/// How an entry is started: inside the configured terminal, as
/// `terminal -e command`, where its source asked for a terminal or its
/// category or invocation string suggests one; through the shell, as
/// `sh -c command`, otherwise.
pub fn launch_plan(entry: &AppEntry, config: &DstlConfig) -> (plan: LaunchPlan)
    ensures
        plan.command@ == entry.command@,
        if entry.terminal || heuristic_terminal(entry.category@, entry.command@) {
            plan.program@ == config.terminal@ && plan.flag@ == "-e"@
        } else {
            plan.program@ == "sh"@ && plan.flag@ == "-c"@
        },
{
    if entry.requires_terminal() {
        LaunchPlan {
            program: config.terminal.clone(),
            flag: "-e".to_owned(),
            command: entry.command.clone(),
        }
    } else {
        LaunchPlan { program: "sh".to_owned(), flag: "-c".to_owned(), command: entry.command.clone() }
    }
}

} // verus!
