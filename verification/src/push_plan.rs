//! Push planning: for each vendor, the exact files to write and directories
//! to replace, or the precondition error that stops the push.

use vstd::prelude::*;
use crate::doc::{Doc, GDoc, dv};
use crate::errors::SyncError;
use crate::utils::{combined_spec, copy_spec, read_and_combine_markdown_files, copy_hierarchy};
use crate::text::{trim_spec, trim_chars, str_chars, string_of, starts_with, str_starts_with,
    str_skip_prefix, str_eq, dec_of, usize_to_string};
use crate::cli::is_known_tool;

verus! {

/// The filesystem effects of one vendor's push: directories to remove first
/// (whole trees, only ever under force), then files to write, in order.
#[derive(Debug)]
pub struct PushPlan {
    pub remove_dirs: Vec<String>,
    pub writes: Vec<Doc>,
}

/// A snapshot of everything a push decision depends on; the caller gathers
/// it before any file is touched.
pub struct PushEnv {
    /// The files under the canonical directory, paths relative to it.
    pub files: Vec<Doc>,
    /// Overwrite vendor artifacts that already exist.
    pub force: bool,
    /// The project name resolved from the working directory.
    pub project_name: String,
    /// `.cursor/rules` exists.
    pub cursor_rules_exists: bool,
    /// `.cursorrules` exists.
    pub cursorrules_exists: bool,
    /// `MEMORY.md` exists.
    pub memory_main_exists: bool,
    /// `.memory/commands` exists.
    pub memory_commands_exists: bool,
    /// The canonical tree has a `commands` subdirectory.
    pub canonical_commands_exists: bool,
}

// ---------------------------------------------------------------------------
// Shared pieces
// ---------------------------------------------------------------------------

/// Documents re-rooted under a directory prefix.
pub open spec fn prefix_docs(s: Seq<GDoc>, pre: Seq<char>) -> Seq<GDoc> {
    s.map_values(|d: GDoc| GDoc { path: pre + d.path, text: d.text })
}

pub(crate) fn prefix_docs_exec(pre: &str, docs: &Vec<Doc>) -> (r: Vec<Doc>)
    ensures
        dv(r@) == prefix_docs(dv(docs@), pre@),
{
    let mut out: Vec<Doc> = Vec::new();
    proof {
        assert(dv(out@) =~~= prefix_docs(dv(docs@).take(0), pre@));
    }
    let mut i: usize = 0;
    while i < docs.len()
        invariant
            i <= docs@.len(),
            dv(out@) == prefix_docs(dv(docs@).take(i as int), pre@),
        decreases docs@.len() - i,
    {
        let ghost prev = dv(out@);
        let mut p = pre.to_owned();
        p.append(docs[i].path.as_str());
        let nd = Doc { path: p, text: docs[i].text.clone() };
        proof {
            assert(nd@.path == pre@ + dv(docs@)[i as int].path);
            assert(nd@.text == dv(docs@)[i as int].text);
        }
        out.push(nd);
        proof {
            assert(dv(out@) =~= prev.push(nd@));
            assert(dv(out@) =~~= prefix_docs(dv(docs@).take(i as int + 1), pre@));
        }
        i += 1;
    }
    proof {
        assert(dv(docs@).take(docs@.len() as int) =~= dv(docs@));
    }
    out
}

/// The documents lying under a directory prefix, with the prefix removed.
pub open spec fn strip_prefix_docs(s: Seq<GDoc>, pre: Seq<char>) -> Seq<GDoc>
    decreases s.len(),
{
    if s.len() == 0 {
        Seq::<GDoc>::empty()
    } else {
        let init = strip_prefix_docs(s.drop_last(), pre);
        if starts_with(s.last().path, pre) {
            init.push(GDoc { path: s.last().path.skip(pre.len() as int), text: s.last().text })
        } else {
            init
        }
    }
}

fn strip_prefix_docs_exec(docs: &Vec<Doc>, pre: &str) -> (r: Vec<Doc>)
    ensures
        dv(r@) == strip_prefix_docs(dv(docs@), pre@),
{
    let mut out: Vec<Doc> = Vec::new();
    proof {
        assert(dv(docs@).take(0) =~= Seq::<GDoc>::empty());
        assert(dv(out@) =~~= strip_prefix_docs(dv(docs@).take(0), pre@));
    }
    let pre_len = pre.unicode_len();
    let mut i: usize = 0;
    while i < docs.len()
        invariant
            i <= docs@.len(),
            pre_len == pre@.len(),
            dv(out@) == strip_prefix_docs(dv(docs@).take(i as int), pre@),
        decreases docs@.len() - i,
    {
        proof {
            assert(dv(docs@).take(i as int + 1).drop_last() =~= dv(docs@).take(i as int));
            assert(dv(docs@).take(i as int + 1).last() == dv(docs@)[i as int]);
        }
        if str_starts_with(docs[i].path.as_str(), pre) {
            let stripped = str_skip_prefix(docs[i].path.as_str(), pre_len);
            out.push(Doc { path: stripped, text: docs[i].text.clone() });
            proof {
                assert(dv(out@) =~~= strip_prefix_docs(dv(docs@).take(i as int), pre@).push(
                    GDoc {
                        path: dv(docs@)[i as int].path.skip(pre@.len() as int),
                        text: dv(docs@)[i as int].text,
                    },
                ));
            }
        }
        i += 1;
    }
    proof {
        assert(dv(docs@).take(docs@.len() as int) =~= dv(docs@));
    }
    out
}

/// The first document with a given path.
pub open spec fn find_doc(s: Seq<GDoc>, path: Seq<char>) -> Option<GDoc>
    decreases s.len(),
{
    if s.len() == 0 {
        None
    } else if s[0].path == path {
        Some(s[0])
    } else {
        find_doc(s.drop_first(), path)
    }
}

fn find_doc_exec(docs: &Vec<Doc>, path: &str) -> (r: Option<String>)
    ensures
        (match find_doc(dv(docs@), path@) {
            Some(d) => r matches Some(t) && t@ == d.text,
            None => r is None,
        }),
{
    proof {
        assert(dv(docs@).skip(0) =~= dv(docs@));
    }
    let mut i: usize = 0;
    while i < docs.len()
        invariant
            i <= docs@.len(),
            find_doc(dv(docs@), path@) == find_doc(dv(docs@).skip(i as int), path@),
        decreases docs@.len() - i,
    {
        proof {
            assert(dv(docs@).skip(i as int)[0] == dv(docs@)[i as int]);
            assert(dv(docs@).skip(i as int).drop_first() =~= dv(docs@).skip(i as int + 1));
        }
        if str_eq(docs[i].path.as_str(), path) {
            return Some(docs[i].text.clone());
        }
        i += 1;
    }
    None
}

// ---------------------------------------------------------------------------
// The rules-directory vendor
// ---------------------------------------------------------------------------

/// The text of the legacy single rules file, if one is to be written: the
/// dedicated override document verbatim when the canonical tree has one,
/// else the trimmed aggregate, else nothing.
pub open spec fn cursorrules_content(files: Seq<GDoc>) -> Option<Seq<char>> {
    match find_doc(files, "cursor-legacy.md"@) {
        Some(d) => Some(d.text),
        None => {
            let t = trim_spec(combined_spec(files));
            if t.len() == 0 {
                None
            } else {
                Some(t)
            }
        },
    }
}

pub open spec fn cursor_writes_spec(files: Seq<GDoc>) -> Seq<GDoc> {
    let rules = prefix_docs(copy_spec(files, Some("mdc"@)), ".cursor/rules/"@);
    match cursorrules_content(files) {
        Some(t) => rules.push(GDoc { path: ".cursorrules"@, text: t }),
        None => rules,
    }
}

/// Everything the rules-directory vendor's push promises.
pub open spec fn cursor_push_post(env: PushEnv, r: Result<PushPlan, SyncError>) -> bool {
    &&& (r is Err <==> !env.force && (env.cursor_rules_exists || env.cursorrules_exists))
    &&& (r is Err ==> (if env.cursor_rules_exists {
        r->Err_0 matches SyncError::DirExists { path } && path@ == ".cursor/rules"@
    } else {
        r->Err_0 matches SyncError::FileExists { path } && path@ == ".cursorrules"@
    }))
    &&& (r is Ok ==> {
        let plan = r->Ok_0;
        &&& plan.remove_dirs@.len() == (if env.cursor_rules_exists {
            1int
        } else {
            0int
        })
        &&& (env.cursor_rules_exists ==> plan.remove_dirs@[0]@ == ".cursor/rules"@)
        &&& dv(plan.writes@) == cursor_writes_spec(dv(env.files@))
    })
}

/// Plan the rules-directory vendor's push: the native rules directory is
/// regenerated from the canonical tree with the vendor extension, and the
/// legacy single file from the override document or the aggregate.
pub fn generate_cursor_files(env: &PushEnv) -> (r: Result<PushPlan, SyncError>)
    ensures
        cursor_push_post(*env, r),
{
    if env.cursor_rules_exists && !env.force {
        return Err(SyncError::DirExists { path: ".cursor/rules".to_owned() });
    }
    if env.cursorrules_exists && !env.force {
        return Err(SyncError::FileExists { path: ".cursorrules".to_owned() });
    }
    let mut remove_dirs: Vec<String> = Vec::new();
    if env.cursor_rules_exists {
        remove_dirs.push(".cursor/rules".to_owned());
    }
    let rules = copy_hierarchy(&env.files, Some("mdc"));
    let mut writes = prefix_docs_exec(".cursor/rules/", &rules);
    match find_doc_exec(&env.files, "cursor-legacy.md") {
        Some(text) => {
            writes.push(Doc { path: ".cursorrules".to_owned(), text });
            proof {
                assert(dv(writes@) =~= cursor_writes_spec(dv(env.files@)));
            }
        },
        None => {
            let combined = read_and_combine_markdown_files(&env.files);
            let chars = str_chars(combined.as_str());
            let trimmed = trim_chars(&chars);
            if trimmed.len() > 0 {
                writes.push(Doc { path: ".cursorrules".to_owned(), text: string_of(&trimmed) });
                proof {
                    assert(dv(writes@) =~= cursor_writes_spec(dv(env.files@)));
                }
            } else {
                proof {
                    assert(dv(writes@) =~= cursor_writes_spec(dv(env.files@)));
                }
            }
        },
    }
    Ok(PushPlan { remove_dirs, writes })
}

// ---------------------------------------------------------------------------
// The single-memory-file vendor
// ---------------------------------------------------------------------------

/// The memory file: a fixed project-identification header followed by the
/// aggregate of the canonical tree.
pub open spec fn memory_file_content(files: Seq<GDoc>, project: Seq<char>) -> Seq<char> {
    "# "@ + project + " - Agent Memory\n\n## プロジェクト情報\n- **プロジェクト名**: "@ + project
        + "\n\n## コマンド例\n```bash\n# プロジェクトのビルド\nnpm run build\n\n# テストの実行\nnpm test\n\n# 開発サーバーの起動\nnpm run dev\n```"@
        + combined_spec(files)
}

pub open spec fn memory_writes_spec(files: Seq<GDoc>, project: Seq<char>, with_commands: bool)
    -> Seq<GDoc> {
    let main = GDoc { path: "MEMORY.md"@, text: memory_file_content(files, project) };
    if with_commands {
        seq![main] + prefix_docs(
            copy_spec(strip_prefix_docs(files, "commands/"@), None),
            ".memory/commands/"@,
        )
    } else {
        seq![main]
    }
}

/// Everything the single-memory-file vendor's push promises.
pub open spec fn memory_push_post(env: PushEnv, r: Result<PushPlan, SyncError>) -> bool {
    &&& (r is Err <==> !env.force && (env.memory_main_exists || (env.canonical_commands_exists
        && env.memory_commands_exists)))
    &&& (r is Err ==> (if env.memory_main_exists {
        r->Err_0 matches SyncError::FileExists { path } && path@ == "MEMORY.md"@
    } else {
        r->Err_0 matches SyncError::DirExists { path } && path@ == ".memory/commands"@
    }))
    &&& (r is Ok ==> {
        let plan = r->Ok_0;
        &&& plan.remove_dirs@.len() == (if env.canonical_commands_exists
            && env.memory_commands_exists {
            1int
        } else {
            0int
        })
        &&& (env.canonical_commands_exists && env.memory_commands_exists
            ==> plan.remove_dirs@[0]@ == ".memory/commands"@)
        &&& dv(plan.writes@) == memory_writes_spec(
            dv(env.files@),
            env.project_name@,
            env.canonical_commands_exists,
        )
    })
}

/// Plan the single-memory-file vendor's push: one aggregated memory file,
/// and a mirror of the reserved command subtree.
pub fn generate_memory_files(env: &PushEnv) -> (r: Result<PushPlan, SyncError>)
    ensures
        memory_push_post(*env, r),
{
    if env.memory_main_exists && !env.force {
        return Err(SyncError::FileExists { path: "MEMORY.md".to_owned() });
    }
    if env.canonical_commands_exists && env.memory_commands_exists && !env.force {
        return Err(SyncError::DirExists { path: ".memory/commands".to_owned() });
    }
    let combined = read_and_combine_markdown_files(&env.files);
    let mut content = "# ".to_owned();
    content.append(env.project_name.as_str());
    content.append(" - Agent Memory\n\n## プロジェクト情報\n- **プロジェクト名**: ");
    content.append(env.project_name.as_str());
    content.append(
        "\n\n## コマンド例\n```bash\n# プロジェクトのビルド\nnpm run build\n\n# テストの実行\nnpm test\n\n# 開発サーバーの起動\nnpm run dev\n```",
    );
    content.append(combined.as_str());
    let mut writes: Vec<Doc> = Vec::new();
    writes.push(Doc { path: "MEMORY.md".to_owned(), text: content });
    let mut remove_dirs: Vec<String> = Vec::new();
    if env.canonical_commands_exists {
        if env.memory_commands_exists {
            remove_dirs.push(".memory/commands".to_owned());
        }
        let sub = strip_prefix_docs_exec(&env.files, "commands/");
        let copied = copy_hierarchy(&sub, None);
        let prefixed = prefix_docs_exec(".memory/commands/", &copied);
        let mut j: usize = 0;
        let ghost base = dv(writes@);
        while j < prefixed.len()
            invariant
                j <= prefixed@.len(),
                dv(writes@) == base + dv(prefixed@).take(j as int),
            decreases prefixed@.len() - j,
        {
            let ghost prev = dv(writes@);
            let nd = prefixed[j].clone();
            writes.push(nd);
            proof {
                assert(dv(writes@) =~= prev.push(dv(prefixed@)[j as int]));
                assert(dv(writes@) =~= base + dv(prefixed@).take(j as int + 1));
            }
            j += 1;
        }
        proof {
            assert(dv(prefixed@).take(prefixed@.len() as int) =~= dv(prefixed@));
            assert(dv(writes@) =~= memory_writes_spec(
                dv(env.files@),
                env.project_name@,
                env.canonical_commands_exists,
            ));
        }
    } else {
        proof {
            assert(dv(writes@) =~= memory_writes_spec(
                dv(env.files@),
                env.project_name@,
                env.canonical_commands_exists,
            ));
        }
    }
    Ok(PushPlan { remove_dirs, writes })
}

// ---------------------------------------------------------------------------
// The remote-knowledge vendor
// ---------------------------------------------------------------------------

/// The remote-knowledge vendor's push is not supported: it always fails,
/// whatever the canonical tree holds.
pub open spec fn devin_push_post(r: Result<PushPlan, SyncError>) -> bool {
    r is Err && r->Err_0 == SyncError::PushUnsupported
}

pub fn generate_devin_files(_env: &PushEnv) -> (r: Result<PushPlan, SyncError>)
    ensures
        devin_push_post(r),
{
    Err(SyncError::PushUnsupported)
}

// ---------------------------------------------------------------------------
// Dispatch and orchestration
// ---------------------------------------------------------------------------

/// Plan one vendor's push by name.
pub fn generate_tool_files(tool: &str, env: &PushEnv) -> (r: Result<PushPlan, SyncError>)
    ensures
        tool@ == "cursor"@ ==> cursor_push_post(*env, r),
        tool@ == "memory"@ ==> memory_push_post(*env, r),
        tool@ == "devin"@ ==> devin_push_post(r),
        tool@ != "cursor"@ && tool@ != "memory"@ && tool@ != "devin"@ ==> r is Err && (
        r->Err_0 matches SyncError::UnknownTool { tool: t } && t@ == tool@),
{
    proof {
        reveal_strlit("cursor");
        reveal_strlit("memory");
        reveal_strlit("devin");
        assert("cursor"@ != "memory"@) by {
            assert("cursor"@[1] != "memory"@[1]);
        }
        assert("cursor"@ != "devin"@) by {
            assert("cursor"@.len() != "devin"@.len());
        }
        assert("memory"@ != "devin"@) by {
            assert("memory"@.len() != "devin"@.len());
        }
    }
    if str_eq(tool, "cursor") {
        generate_cursor_files(env)
    } else if str_eq(tool, "memory") {
        generate_memory_files(env)
    } else if str_eq(tool, "devin") {
        generate_devin_files(env)
    } else {
        Err(SyncError::UnknownTool { tool: tool.to_owned() })
    }
}

/// Validate a push request and expand its target into the vendors to
/// process, in their fixed order.
pub fn push_begin(target: &str, config_dir: &str, config_dir_exists: bool) -> (r: Result<
    Vec<String>,
    SyncError,
>)
    ensures
        r is Ok <==> is_known_tool(target@) && config_dir_exists,
        !is_known_tool(target@) ==> (r->Err_0 matches SyncError::UnknownTool { tool } && tool@
            == target@),
        is_known_tool(target@) && !config_dir_exists ==> (r->Err_0 matches
            SyncError::MissingConfigDir { dir } && dir@ == config_dir@),
        r is Ok ==> {
            let ts = r->Ok_0;
            if target@ == "all"@ {
                ts@.len() == 3 && ts@[0]@ == "cursor"@ && ts@[1]@ == "memory"@ && ts@[2]@
                    == "devin"@
            } else {
                ts@.len() == 1 && ts@[0]@ == target@
            }
        },
{
    if !(str_eq(target, "cursor") || str_eq(target, "memory") || str_eq(target, "devin")
        || str_eq(target, "all")) {
        return Err(SyncError::UnknownTool { tool: target.to_owned() });
    }
    if !config_dir_exists {
        return Err(SyncError::MissingConfigDir { dir: config_dir.to_owned() });
    }
    let mut ts: Vec<String> = Vec::new();
    if str_eq(target, "all") {
        ts.push("cursor".to_owned());
        ts.push("memory".to_owned());
        ts.push("devin".to_owned());
    } else {
        ts.push(target.to_owned());
    }
    Ok(ts)
}

/// How many of a sequence of per-vendor outcomes succeeded.
pub open spec fn count_true(s: Seq<bool>) -> int
    decreases s.len(),
{
    if s.len() == 0 {
        0
    } else {
        count_true(s.drop_last()) + (if s.last() {
            1int
        } else {
            0int
        })
    }
}

/// Tally per-vendor outcomes into success and error counts.
pub fn push_counts(outcomes: &Vec<bool>) -> (r: (usize, usize))
    ensures
        r.0 == count_true(outcomes@),
        r.1 == outcomes@.len() - count_true(outcomes@),
{
    let mut ok: usize = 0;
    let mut bad: usize = 0;
    let mut i: usize = 0;
    proof {
        assert(outcomes@.take(0) =~= Seq::<bool>::empty());
    }
    while i < outcomes.len()
        invariant
            i <= outcomes@.len(),
            ok == count_true(outcomes@.take(i as int)),
            ok + bad == i,
        decreases outcomes@.len() - i,
    {
        proof {
            assert(outcomes@.take(i as int + 1).drop_last() =~= outcomes@.take(i as int));
            assert(outcomes@.take(i as int + 1).last() == outcomes@[i as int]);
        }
        if outcomes[i] {
            ok += 1;
        } else {
            bad += 1;
        }
        i += 1;
    }
    proof {
        assert(outcomes@.take(outcomes@.len() as int) =~= outcomes@);
    }
    (ok, bad)
}

/// The per-vendor success line of the push report.
pub fn push_success_message(tool: &str, n_files: usize) -> (r: String)
    ensures
        r@ == "✅ Generated "@ + tool@ + " configuration ("@ + dec_of(n_files as int)
            + " files)"@,
{
    let mut s = "✅ Generated ".to_owned();
    s.append(tool);
    s.append(" configuration (");
    let n = usize_to_string(n_files);
    s.append(n.as_str());
    s.append(" files)");
    s
}

/// The closing line of the push report: the batch succeeds as a whole even
/// when single vendors failed.
pub fn push_summary_message(success_count: usize, error_count: usize) -> (r: String)
    ensures
        error_count == 0 ==> r@ == "🎉 Successfully pushed to "@ + dec_of(success_count as int)
            + " tool(s)!"@,
        error_count != 0 ==> r@ == "⚠️  Push completed with "@ + dec_of(error_count as int)
            + " error(s)"@,
{
    if error_count == 0 {
        let mut s = "🎉 Successfully pushed to ".to_owned();
        let n = usize_to_string(success_count);
        s.append(n.as_str());
        s.append(" tool(s)!");
        s
    } else {
        let mut s = "⚠️  Push completed with ".to_owned();
        let n = usize_to_string(error_count);
        s.append(n.as_str());
        s.append(" error(s)");
        s
    }
}

} // verus!
