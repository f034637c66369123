//! Parsed command-line options and vendor-name validation.

use vstd::prelude::*;
use crate::text::str_eq;

verus! {

/// The commands the binary accepts, with their parsed arguments.
pub enum Commands {
    Push { target: String, force: bool },
    Pull { from: String, merge: bool },
    Status,
}

/// Parsed command-line options.
pub struct Cli {
    pub command: Commands,
    pub verbose: bool,
    pub config: Option<String>,
}

impl Cli {
    /// The canonical configuration directory: the explicit override when one
    /// was given, the default name otherwise.
    pub fn config_dir(&self) -> (r: String)
        ensures
            r@ == (match self.config {
                Some(c) => c@,
                None => ".agentic-coding"@,
            }),
    {
        match &self.config {
            Some(c) => c.clone(),
            None => ".agentic-coding".to_owned(),
        }
    }
}

/// Whether `tool` names a known vendor or the `all` selector.
pub open spec fn is_known_tool(tool: Seq<char>) -> bool {
    tool == "cursor"@ || tool == "memory"@ || tool == "devin"@ || tool == "all"@
}

pub fn validate_tool_name(tool: &str) -> (r: Result<(), String>)
    ensures
        r is Ok <==> is_known_tool(tool@),
        r is Err ==> r->Err_0@ == "Unknown tool '"@ + tool@
            + "'. Available tools: cursor, memory, devin, all"@,
{
    if str_eq(tool, "cursor") || str_eq(tool, "memory") || str_eq(tool, "devin") || str_eq(
        tool,
        "all",
    ) {
        Ok(())
    } else {
        let mut s = "Unknown tool '".to_owned();
        s.append(tool);
        s.append("'. Available tools: cursor, memory, devin, all");
        Err(s)
    }
}

} // verus!
