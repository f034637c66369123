//! Pull planning: the precondition check shared by every pull, and the
//! documents that the local vendors hand back into the canonical tree.

use vstd::prelude::*;
use crate::doc::{Doc, GDoc, dv};
use crate::errors::SyncError;
use crate::utils::{copy_ext_spec, copy_spec, copy_hierarchy, copy_hierarchy_with_extension_change};
use crate::push_plan::{prefix_docs, prefix_docs_exec};
use crate::vendor::Tool;
use crate::cli::is_known_tool;
use crate::text::str_eq;

verus! {

/// Everything the pull precondition check promises: the source must be a
/// known single vendor, and a non-merge pull refuses a canonical directory
/// that already holds files, in that order.
pub open spec fn pull_precheck_post(
    from: Seq<char>,
    config_dir: Seq<char>,
    merge: bool,
    target_exists: bool,
    file_count: usize,
    r: Result<Tool, SyncError>,
) -> bool {
    &&& (r is Ok <==> is_known_tool(from) && !(!merge && target_exists && file_count > 0) && from
        != "all"@)
    &&& (!is_known_tool(from) ==> (r->Err_0 matches SyncError::UnknownTool { tool } && tool@
        == from))
    &&& (is_known_tool(from) && !merge && target_exists && file_count > 0 ==> (
    r->Err_0 matches SyncError::NeedMerge { dir, count } && dir@ == config_dir && count
        == file_count))
    &&& (is_known_tool(from) && !(!merge && target_exists && file_count > 0) && from == "all"@
        ==> (r->Err_0 matches SyncError::UnsupportedTool { tool } && tool@ == from))
    &&& (r is Ok ==> r->Ok_0 == (if from == "cursor"@ {
        Tool::Cursor
    } else if from == "memory"@ {
        Tool::Memory
    } else {
        Tool::Devin
    }))
}

/// Validate a pull request before any adapter runs.
pub fn pull_precheck(
    from: &str,
    config_dir: &str,
    merge: bool,
    target_exists: bool,
    file_count: usize,
) -> (r: Result<Tool, SyncError>)
    ensures
        pull_precheck_post(from@, config_dir@, merge, target_exists, file_count, r),
{
    proof {
        reveal_strlit("cursor");
        reveal_strlit("memory");
        reveal_strlit("devin");
        reveal_strlit("all");
        assert("cursor"@ != "memory"@) by {
            assert("cursor"@[1] != "memory"@[1]);
        }
        assert("cursor"@ != "devin"@) by {
            assert("cursor"@.len() != "devin"@.len());
        }
        assert("memory"@ != "devin"@) by {
            assert("memory"@.len() != "devin"@.len());
        }
        assert("all"@ != "cursor"@) by {
            assert("all"@.len() != "cursor"@.len());
        }
        assert("all"@ != "memory"@) by {
            assert("all"@.len() != "memory"@.len());
        }
        assert("all"@ != "devin"@) by {
            assert("all"@.len() != "devin"@.len());
        }
    }
    if !(str_eq(from, "cursor") || str_eq(from, "memory") || str_eq(from, "devin") || str_eq(
        from,
        "all",
    )) {
        return Err(SyncError::UnknownTool { tool: from.to_owned() });
    }
    if !merge && target_exists && file_count > 0 {
        return Err(
            SyncError::NeedMerge { dir: config_dir.to_owned(), count: file_count },
        );
    }
    if str_eq(from, "cursor") {
        Ok(Tool::Cursor)
    } else if str_eq(from, "memory") {
        Ok(Tool::Memory)
    } else if str_eq(from, "devin") {
        Ok(Tool::Devin)
    } else {
        Err(SyncError::UnsupportedTool { tool: from.to_owned() })
    }
}

// ---------------------------------------------------------------------------
// The rules-directory vendor
// ---------------------------------------------------------------------------

/// What a pull from the rules-directory vendor writes into the canonical
/// tree: the native rules files back under their relative paths with the
/// markdown extension, then the legacy single file under a fixed name.
pub open spec fn cursor_pull_spec(
    rules: Seq<GDoc>,
    rules_dir_exists: bool,
    legacy: Option<Seq<char>>,
) -> Seq<GDoc> {
    let a = if rules_dir_exists {
        copy_ext_spec(rules, "mdc"@, "md"@)
    } else {
        Seq::<GDoc>::empty()
    };
    match legacy {
        Some(t) => a.push(GDoc { path: "cursor-legacy.md"@, text: t }),
        None => a,
    }
}

pub fn pull_cursor_plan(
    rules_files: &Vec<Doc>,
    rules_dir_exists: bool,
    cursorrules: &Option<String>,
) -> (r: Result<Vec<Doc>, SyncError>)
    ensures
        r is Err <==> !rules_dir_exists && cursorrules is None,
        r is Err ==> (r->Err_0 matches SyncError::NothingFound { message } && message@
            == "No Cursor configuration found. Expected .cursor/rules/ directory or .cursorrules file."@),
        r is Ok ==> dv(r->Ok_0@) == cursor_pull_spec(
            dv(rules_files@),
            rules_dir_exists,
            match cursorrules {
                Some(t) => Some(t@),
                None => None,
            },
        ),
{
    let mut out: Vec<Doc> = Vec::new();
    let mut found = false;
    if rules_dir_exists {
        out = copy_hierarchy_with_extension_change(rules_files, "mdc", "md");
        found = true;
    }
    match cursorrules {
        Some(t) => {
            out.push(Doc { path: "cursor-legacy.md".to_owned(), text: t.clone() });
            found = true;
            proof {
                assert(dv(out@) =~= cursor_pull_spec(
                    dv(rules_files@),
                    rules_dir_exists,
                    Some(t@),
                ));
            }
        },
        None => {
            proof {
                assert(dv(out@) =~= cursor_pull_spec(dv(rules_files@), rules_dir_exists, None));
            }
        },
    }
    if !found {
        return Err(
            SyncError::NothingFound {
                message:
                    "No Cursor configuration found. Expected .cursor/rules/ directory or .cursorrules file.".to_owned(),
            },
        );
    }
    Ok(out)
}

// ---------------------------------------------------------------------------
// The single-memory-file vendor
// ---------------------------------------------------------------------------

/// What a pull from the single-memory-file vendor writes into the canonical
/// tree: the memory file under a fixed name, and the native command
/// directory mirrored into the reserved `commands` subtree.
pub open spec fn memory_pull_spec(
    main: Option<Seq<char>>,
    command_files: Seq<GDoc>,
    commands_dir_exists: bool,
) -> Seq<GDoc> {
    let a = match main {
        Some(t) => seq![GDoc { path: "MEMORY.md"@, text: t }],
        None => Seq::<GDoc>::empty(),
    };
    if commands_dir_exists {
        a + prefix_docs(copy_spec(command_files, None), "commands/"@)
    } else {
        a
    }
}

pub fn pull_memory_plan(
    main: &Option<String>,
    command_files: &Vec<Doc>,
    commands_dir_exists: bool,
) -> (r: Result<Vec<Doc>, SyncError>)
    ensures
        r is Err <==> main is None && !commands_dir_exists,
        r is Err ==> (r->Err_0 matches SyncError::NothingFound { message } && message@
            == "No Memory configuration found. Expected MEMORY.md or .memory/commands directory."@),
        r is Ok ==> dv(r->Ok_0@) == memory_pull_spec(
            match main {
                Some(t) => Some(t@),
                None => None,
            },
            dv(command_files@),
            commands_dir_exists,
        ),
{
    let mut out: Vec<Doc> = Vec::new();
    let mut found = false;
    match main {
        Some(t) => {
            out.push(Doc { path: "MEMORY.md".to_owned(), text: t.clone() });
            found = true;
        },
        None => {},
    }
    let ghost head = dv(out@);
    if commands_dir_exists {
        let copied = copy_hierarchy(command_files, None);
        let prefixed = prefix_docs_exec("commands/", &copied);
        let mut j: usize = 0;
        while j < prefixed.len()
            invariant
                j <= prefixed@.len(),
                dv(out@) == head + dv(prefixed@).take(j as int),
            decreases prefixed@.len() - j,
        {
            let ghost prev = dv(out@);
            let nd = prefixed[j].clone();
            out.push(nd);
            proof {
                assert(dv(out@) =~= prev.push(dv(prefixed@)[j as int]));
                assert(dv(out@) =~= head + dv(prefixed@).take(j as int + 1));
            }
            j += 1;
        }
        found = true;
        proof {
            assert(dv(prefixed@).take(prefixed@.len() as int) =~= dv(prefixed@));
        }
    }
    if !found {
        return Err(
            SyncError::NothingFound {
                message:
                    "No Memory configuration found. Expected MEMORY.md or .memory/commands directory.".to_owned(),
            },
        );
    }
    proof {
        assert(dv(out@) =~= memory_pull_spec(
            match main {
                Some(t) => Some(t@),
                None => None,
            },
            dv(command_files@),
            commands_dir_exists,
        ));
    }
    Ok(out)
}

} // verus!
