//! The closed set of supported vendors, their native output locations, and
//! the existence check behind the status report.

use vstd::prelude::*;
use crate::text::str_eq;

verus! {

/// One of the supported vendor integrations.
#[derive(Clone, Copy, PartialEq, Eq, Structural, Debug)]
pub enum Tool {
    Cursor,
    Memory,
    Devin,
}

/// The vendor named by `tool`, when it names a single one.
pub fn parse_tool(tool: &str) -> (r: Option<Tool>)
    ensures
        r == (if tool@ == "cursor"@ {
            Some(Tool::Cursor)
        } else if tool@ == "memory"@ {
            Some(Tool::Memory)
        } else if tool@ == "devin"@ {
            Some(Tool::Devin)
        } else {
            None::<Tool>
        }),
{
    if str_eq(tool, "cursor") {
        Some(Tool::Cursor)
    } else if str_eq(tool, "memory") {
        Some(Tool::Memory)
    } else if str_eq(tool, "devin") {
        Some(Tool::Devin)
    } else {
        None
    }
}

pub open spec fn tool_output_path_spec(tool: Seq<char>) -> Seq<char> {
    if tool == "cursor"@ {
        ".cursor/rules"@
    } else if tool == "memory"@ {
        "MEMORY.md"@
    } else if tool == "devin"@ {
        "devin-knowledge.json"@
    } else {
        tool + ".config"@
    }
}

/// The location probed when reporting a vendor's status.
pub fn get_tool_output_path(tool: &str) -> (r: String)
    ensures
        r@ == tool_output_path_spec(tool@),
{
    if str_eq(tool, "cursor") {
        ".cursor/rules".to_owned()
    } else if str_eq(tool, "memory") {
        "MEMORY.md".to_owned()
    } else if str_eq(tool, "devin") {
        "devin-knowledge.json".to_owned()
    } else {
        let mut s = tool.to_owned();
        s.append(".config");
        s
    }
}

/// What a filesystem probe of one vendor's native locations found.
#[derive(Clone, Copy, PartialEq, Eq, Structural, Debug)]
pub struct ToolProbe {
    /// The vendor's main output path exists and is a directory.
    pub output_is_dir: bool,
    /// The vendor's main output path exists.
    pub output_exists: bool,
    /// The single memory file `MEMORY.md` exists.
    pub memory_main_exists: bool,
    /// The command directory `.memory/commands` exists.
    pub memory_commands_exists: bool,
}

pub open spec fn tool_exists_spec(tool: Seq<char>, probe: ToolProbe) -> bool {
    if tool == "cursor"@ {
        probe.output_is_dir
    } else if tool == "memory"@ {
        probe.memory_main_exists || probe.memory_commands_exists
    } else {
        probe.output_exists
    }
}

/// Whether the vendor's native artifact is present, by the vendor-specific
/// check.
pub fn check_tool_exists(tool: &str, probe: &ToolProbe) -> (r: bool)
    ensures
        r == tool_exists_spec(tool@, *probe),
{
    if str_eq(tool, "cursor") {
        probe.output_is_dir
    } else if str_eq(tool, "memory") {
        probe.memory_main_exists || probe.memory_commands_exists
    } else {
        probe.output_exists
    }
}

} // verus!
