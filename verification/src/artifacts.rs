//! Artifact naming and content: a completed run's output is persisted as a
//! markdown file inside the organization's repository.  Writing the file
//! happens outside this crate; the path and the document are built here.

use vstd::prelude::*;
use crate::strutil::str_eq;
use vstd::string::StringExecFns;

verus! {

/// The repository directory an agent kind's artifacts land in.
pub open spec fn spec_artifact_dir(t: Seq<char>) -> Seq<char> {
    if t == "research"@ || t == "exa-research"@ || t == "research-synthesis"@ || t
        == "competitive-research"@ || t == "vendor-research"@ || t == "technical-research"@ {
        "docs/research"@
    } else if t == "planning"@ {
        "docs/planning"@
    } else if t == "evaluation"@ {
        "docs/evaluation"@
    } else {
        "docs/agent-output"@
    }
}

/// Picks the repository directory for an agent kind's artifacts: research
/// output, plans and evaluations each have their own place, and anything
/// else lands in a general one.
pub fn artifact_dir(agent_type: &str) -> (r: &'static str)
    ensures
        r@ == spec_artifact_dir(agent_type@),
{
    if str_eq(agent_type, "research") || str_eq(agent_type, "exa-research") || str_eq(
        agent_type,
        "research-synthesis",
    ) || str_eq(agent_type, "competitive-research") || str_eq(agent_type, "vendor-research")
        || str_eq(agent_type, "technical-research") {
        "docs/research"
    } else if str_eq(agent_type, "planning") {
        "docs/planning"
    } else if str_eq(agent_type, "evaluation") {
        "docs/evaluation"
    } else {
        "docs/agent-output"
    }
}

/// The artifact's path relative to the repository root: the agent kind's
/// directory and a file named by ticket and agent kind, so that artifacts
/// of different runs never overwrite one another across kinds.
pub fn artifact_relative_path(ticket_id: &str, agent_type: &str) -> (r: String)
    ensures
        r@ == spec_artifact_dir(agent_type@) + "/"@ + ticket_id@ + "-"@ + agent_type@ + ".md"@,
{
    artifact_dir(agent_type).to_owned().concat("/").concat(ticket_id).concat("-").concat(
        agent_type,
    ).concat(".md")
}

/// The artifact document: frontmatter naming the ticket, the agent kind,
/// the generation time and the title, followed by the titled output.
pub fn artifact_content(
    ticket_id: &str,
    agent_type: &str,
    generated_at: &str,
    title: &str,
    output_summary: &str,
) -> (r: String)
    ensures
        r@ == "---\nticket_id: "@ + ticket_id@ + "\nagent_type: "@ + agent_type@
            + "\ngenerated_at: "@ + generated_at@ + "\ntitle: "@ + title@ + "\n---\n\n# "@
            + title@ + "\n\n"@ + output_summary@ + "\n"@,
{
    "---\nticket_id: ".to_owned().concat(ticket_id).concat("\nagent_type: ").concat(
        agent_type,
    ).concat("\ngenerated_at: ").concat(generated_at).concat("\ntitle: ").concat(title).concat(
        "\n---\n\n# ",
    ).concat(title).concat("\n\n").concat(output_summary).concat("\n")
}

} // verus!
