//! The status report: per-vendor existence, counted listings, and the
//! bucketed age of the native artifacts, rendered exactly.

use vstd::prelude::*;
use crate::errors::SyncError;
use crate::text::{dec_of, u64_to_string, usize_to_string, str_eq};
use crate::vendor::{ToolProbe, tool_output_path_spec, tool_exists_spec, get_tool_output_path,
    check_tool_exists};

verus! {

/// Ages bucketed to seconds, minutes, hours or days by integer floor
/// division.
pub open spec fn duration_spec(seconds: int) -> Seq<char> {
    if seconds < 60 {
        dec_of(seconds) + "s"@
    } else if seconds < 3600 {
        dec_of(seconds / 60) + "m"@
    } else if seconds < 86400 {
        dec_of(seconds / 3600) + "h"@
    } else {
        dec_of(seconds / 86400) + "d"@
    }
}

pub fn format_duration(seconds: u64) -> (r: String)
    ensures
        r@ == duration_spec(seconds as int),
{
    if seconds < 60 {
        let mut s = u64_to_string(seconds);
        s.append("s");
        s
    } else if seconds < 3600 {
        let mut s = u64_to_string(seconds / 60);
        s.append("m");
        s
    } else if seconds < 86400 {
        let mut s = u64_to_string(seconds / 3600);
        s.append("h");
        s
    } else {
        let mut s = u64_to_string(seconds / 86400);
        s.append("d");
        s
    }
}

/// What the filesystem probes found for one vendor, gathered before any
/// line of the report is built.
#[derive(Clone, Copy, PartialEq, Eq, Structural, Debug)]
pub struct ToolStatus {
    pub probe: ToolProbe,
    /// Markdown files under the vendor's rules directory.
    pub file_count: usize,
    /// Markdown files under the vendor's command directory.
    pub command_count: usize,
    /// Seconds since the main artifact was last modified, when known.
    pub age_seconds: Option<u64>,
}

pub open spec fn last_modified_line(age: Option<u64>) -> Seq<char> {
    match age {
        Some(a) => "   Last modified: "@ + duration_spec(a as int) + " ago\n"@,
        None => Seq::<char>::empty(),
    }
}

pub open spec fn verbose_info_spec(tool: Seq<char>) -> Seq<char> {
    if tool == "cursor"@ {
        "   Output: .cursor/rules/ (hierarchy)\n"@
    } else if tool == "memory"@ {
        "   Output: MEMORY.md + .memory/commands/ (if exists)\n"@
    } else if tool == "devin"@ {
        "   API: https://app.devin.ai/api\n"@
    } else {
        Seq::<char>::empty()
    }
}

pub open spec fn cursor_status_body(path: Seq<char>, exists: bool, st: ToolStatus) -> Seq<char> {
    if !exists {
        "   Directory: "@ + path + " (not found)\n"@
    } else {
        "   Directory: "@ + path + " ✓ ("@ + dec_of(st.file_count as int) + " files)\n"@
            + last_modified_line(st.age_seconds)
    }
}

pub open spec fn memory_status_body(st: ToolStatus) -> Seq<char> {
    (if st.probe.memory_main_exists {
        "   Main file: MEMORY.md ✓\n"@ + last_modified_line(st.age_seconds)
    } else {
        "   Main file: MEMORY.md (not found)\n"@
    }) + (if st.probe.memory_commands_exists {
        "   Commands: .memory/commands ✓ ("@ + dec_of(st.command_count as int) + " files)\n"@
    } else {
        Seq::<char>::empty()
    })
}

pub open spec fn generic_status_body(path: Seq<char>, exists: bool, st: ToolStatus) -> Seq<char> {
    if exists {
        "   File: "@ + path + " ✓\n"@ + last_modified_line(st.age_seconds)
    } else {
        "   File: "@ + path + " (not found)\n"@
    }
}

/// One vendor's block of the status report.
pub open spec fn tool_status_spec(tool: Seq<char>, st: ToolStatus, verbose: bool) -> Seq<char> {
    let path = tool_output_path_spec(tool);
    let exists = tool_exists_spec(tool, st.probe);
    let head = (if exists {
        "✅"@
    } else {
        "⚠️ "@
    }) + " "@ + tool + "\n"@;
    let body = if tool == "cursor"@ {
        cursor_status_body(path, exists, st)
    } else if tool == "memory"@ {
        memory_status_body(st)
    } else {
        generic_status_body(path, exists, st)
    };
    head + body + (if verbose {
        verbose_info_spec(tool)
    } else {
        Seq::<char>::empty()
    })
}

fn push_last_modified(s: &mut String, age: &Option<u64>)
    ensures
        final(s)@ == old(s)@ + last_modified_line(*age),
{
    match age {
        Some(a) => {
            s.append("   Last modified: ");
            let d = format_duration(*a);
            s.append(d.as_str());
            s.append(" ago\n");
            proof {
                assert(final(s)@ =~= old(s)@ + last_modified_line(*age));
            }
        },
        None => {
            proof {
                assert(final(s)@ =~= old(s)@ + last_modified_line(*age));
            }
        },
    }
}

/// Build one vendor's block of the status report.
pub fn tool_status_report(tool: &str, st: &ToolStatus, verbose: bool) -> (r: String)
    ensures
        r@ == tool_status_spec(tool@, *st, verbose),
{
    let exists = check_tool_exists(tool, &st.probe);
    let path = get_tool_output_path(tool);
    let mut s = if exists {
        "✅".to_owned()
    } else {
        "⚠️ ".to_owned()
    };
    s.append(" ");
    s.append(tool);
    s.append("\n");
    if str_eq(tool, "cursor") {
        if !exists {
            s.append("   Directory: ");
            s.append(path.as_str());
            s.append(" (not found)\n");
        } else {
            s.append("   Directory: ");
            s.append(path.as_str());
            s.append(" ✓ (");
            let n = usize_to_string(st.file_count);
            s.append(n.as_str());
            s.append(" files)\n");
            push_last_modified(&mut s, &st.age_seconds);
        }
    } else if str_eq(tool, "memory") {
        if st.probe.memory_main_exists {
            s.append("   Main file: MEMORY.md ✓\n");
            push_last_modified(&mut s, &st.age_seconds);
        } else {
            s.append("   Main file: MEMORY.md (not found)\n");
        }
        if st.probe.memory_commands_exists {
            s.append("   Commands: .memory/commands ✓ (");
            let n = usize_to_string(st.command_count);
            s.append(n.as_str());
            s.append(" files)\n");
        }
    } else {
        if exists {
            s.append("   File: ");
            s.append(path.as_str());
            s.append(" ✓\n");
            push_last_modified(&mut s, &st.age_seconds);
        } else {
            s.append("   File: ");
            s.append(path.as_str());
            s.append(" (not found)\n");
        }
    }
    if verbose {
        if str_eq(tool, "cursor") {
            s.append("   Output: .cursor/rules/ (hierarchy)\n");
        } else if str_eq(tool, "memory") {
            s.append("   Output: MEMORY.md + .memory/commands/ (if exists)\n");
        } else if str_eq(tool, "devin") {
            s.append("   API: https://app.devin.ai/api\n");
        }
    }
    proof {
        assert(s@ =~= tool_status_spec(tool@, *st, verbose));
    }
    s
}

/// The whole status report, vendor blocks in their fixed order.
pub open spec fn status_report_spec(
    config_dir: Seq<char>,
    project: Seq<char>,
    cursor: ToolStatus,
    memory: ToolStatus,
    devin: ToolStatus,
    verbose: bool,
) -> Seq<char> {
    "📊 "@ + project + " - Synchronization Status\n\n"@ + tool_status_spec("cursor"@, cursor, verbose)
        + "\n"@ + tool_status_spec("memory"@, memory, verbose) + "\n"@ + tool_status_spec(
        "devin"@,
        devin,
        verbose,
    ) + "\n"@ + (if verbose {
        "📁 Configuration directory: "@ + config_dir + "\n"@
    } else {
        Seq::<char>::empty()
    })
}

/// Build the status report, or refuse when the canonical directory is
/// missing.
pub fn status_command(
    config_dir: &str,
    config_dir_exists: bool,
    project_name: &str,
    cursor: &ToolStatus,
    memory: &ToolStatus,
    devin: &ToolStatus,
    verbose: bool,
) -> (r: Result<String, SyncError>)
    ensures
        r is Ok <==> config_dir_exists,
        !config_dir_exists ==> (r->Err_0 matches SyncError::MissingConfigDir { dir } && dir@
            == config_dir@),
        r is Ok ==> r->Ok_0@ == status_report_spec(
            config_dir@,
            project_name@,
            *cursor,
            *memory,
            *devin,
            verbose,
        ),
{
    if !config_dir_exists {
        return Err(SyncError::MissingConfigDir { dir: config_dir.to_owned() });
    }
    let mut s = "📊 ".to_owned();
    s.append(project_name);
    s.append(" - Synchronization Status\n\n");
    let b1 = tool_status_report("cursor", cursor, verbose);
    s.append(b1.as_str());
    s.append("\n");
    let b2 = tool_status_report("memory", memory, verbose);
    s.append(b2.as_str());
    s.append("\n");
    let b3 = tool_status_report("devin", devin, verbose);
    s.append(b3.as_str());
    s.append("\n");
    if verbose {
        s.append("📁 Configuration directory: ");
        s.append(config_dir);
        s.append("\n");
    }
    proof {
        assert(s@ =~= status_report_spec(
            config_dir@,
            project_name@,
            *cursor,
            *memory,
            *devin,
            verbose,
        ));
    }
    Ok(s)
}

} // verus!
