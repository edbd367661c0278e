//! Configuration of a chat-style agent session: which agent kind drives
//! it, which prompt template it loads, where it works, and the variables
//! rendered into its prompt.

use vstd::prelude::*;
use crate::agents::AgentType;

verus! {

/// Configuration for one chat session endpoint.
#[derive(Clone, Debug, PartialEq)]
pub struct ChatConfig {
    pub agent_type: AgentType,
    pub prompt_name: String,
    pub working_dir: String,
    pub prompt_vars: Vec<(String, String)>,
}

/// The chat configuration of the personal life-planner agent, rooted at
/// the given working directory.
pub fn config(working_dir: String) -> (r: ChatConfig)
    ensures
        r.agent_type is LifePlanner,
        r.prompt_name@ == "life-planner"@,
        r.working_dir == working_dir,
        r.prompt_vars@.len() == 0,
{
    ChatConfig {
        agent_type: AgentType::LifePlanner,
        prompt_name: "life-planner".to_owned(),
        working_dir,
        prompt_vars: Vec::new(),
    }
}

} // verus!
