//! The building blocks shared by the vendor adapters: markdown filtering,
//! the deterministic aggregation of a canonical tree into one document, and
//! extension-rewriting copies of a file hierarchy.

use vstd::prelude::*;
use crate::doc::{Doc, GDoc, dv, sort_spec, sort_docs};
use crate::paths::{has_ext, has_segment, replace_ext, path_has_ext, path_has_segment,
    path_replace_ext, split_char};
use crate::title::{section_title, section_title_of};
use crate::errors::SyncError;
use crate::text::str_chars;
use crate::paths::split_chars;
use crate::text::string_of;

verus! {

pub open spec fn is_md(p: Seq<char>) -> bool {
    has_ext(p, "md"@)
}

// ---------------------------------------------------------------------------
// Finding markdown documents
// ---------------------------------------------------------------------------

pub open spec fn md_filter(s: Seq<GDoc>) -> Seq<GDoc>
    decreases s.len(),
{
    if s.len() == 0 {
        Seq::<GDoc>::empty()
    } else {
        let init = md_filter(s.drop_last());
        if is_md(s.last().path) {
            init.push(s.last())
        } else {
            init
        }
    }
}

/// The markdown documents of a listing, sorted by path.
pub fn find_markdown_files(files: &Vec<Doc>) -> (r: Vec<Doc>)
    ensures
        dv(r@) == sort_spec(md_filter(dv(files@))),
{
    let mut kept: Vec<Doc> = Vec::new();
    proof {
        assert(dv(files@).take(0) =~= Seq::<GDoc>::empty());
        assert(dv(kept@) =~= md_filter(dv(files@).take(0)));
    }
    let mut i: usize = 0;
    while i < files.len()
        invariant
            i <= files@.len(),
            dv(kept@) == md_filter(dv(files@).take(i as int)),
        decreases files@.len() - i,
    {
        proof {
            assert(dv(files@).take(i as int + 1).drop_last() =~= dv(files@).take(i as int));
            assert(dv(files@).take(i as int + 1).last() == dv(files@)[i as int]);
        }
        if path_has_ext(files[i].path.as_str(), "md") {
            kept.push(files[i].clone());
            proof {
                assert(dv(kept@) =~= md_filter(dv(files@).take(i as int)).push(
                    dv(files@)[i as int],
                ));
            }
        }
        i += 1;
    }
    proof {
        assert(dv(files@).take(files@.len() as int) =~= dv(files@));
    }
    sort_docs(&kept)
}

// ---------------------------------------------------------------------------
// Aggregation into one combined document
// ---------------------------------------------------------------------------

/// A document takes part in aggregation when it is markdown and no segment
/// of its path is the reserved `commands` subtree.
pub open spec fn keep_in_combined(d: GDoc) -> bool {
    is_md(d.path) && !has_segment(d.path, "commands"@)
}

pub open spec fn eligible(s: Seq<GDoc>) -> Seq<GDoc>
    decreases s.len(),
{
    if s.len() == 0 {
        Seq::<GDoc>::empty()
    } else {
        let init = eligible(s.drop_last());
        if keep_in_combined(s.last()) {
            init.push(s.last())
        } else {
            init
        }
    }
}

/// One aggregated section: a heading derived from the path, then the text.
pub open spec fn section_of(d: GDoc) -> Seq<char> {
    "\n## "@ + section_title(d.path) + "\n\n"@ + d.text + "\n"@
}

pub open spec fn sections_of(s: Seq<GDoc>) -> Seq<char>
    decreases s.len(),
{
    if s.len() == 0 {
        Seq::<char>::empty()
    } else {
        sections_of(s.drop_last()) + section_of(s.last())
    }
}

/// What aggregation returns: the eligible documents, sorted by path, each
/// rendered as a section.
pub open spec fn combined_spec(docs: Seq<GDoc>) -> Seq<char> {
    sections_of(sort_spec(eligible(docs)))
}

/// Aggregate a canonical listing into one combined markdown document, in
/// deterministic path order, excluding the reserved `commands` subtree.
pub fn read_and_combine_markdown_files(files: &Vec<Doc>) -> (r: String)
    ensures
        r@ == combined_spec(dv(files@)),
{
    let mut kept: Vec<Doc> = Vec::new();
    proof {
        assert(dv(files@).take(0) =~= Seq::<GDoc>::empty());
        assert(dv(kept@) =~= eligible(dv(files@).take(0)));
    }
    let mut i: usize = 0;
    while i < files.len()
        invariant
            i <= files@.len(),
            dv(kept@) == eligible(dv(files@).take(i as int)),
        decreases files@.len() - i,
    {
        proof {
            assert(dv(files@).take(i as int + 1).drop_last() =~= dv(files@).take(i as int));
            assert(dv(files@).take(i as int + 1).last() == dv(files@)[i as int]);
        }
        if path_has_ext(files[i].path.as_str(), "md") && !path_has_segment(
            files[i].path.as_str(),
            "commands",
        ) {
            kept.push(files[i].clone());
            proof {
                assert(dv(kept@) =~= eligible(dv(files@).take(i as int)).push(
                    dv(files@)[i as int],
                ));
            }
        }
        i += 1;
    }
    proof {
        assert(dv(files@).take(files@.len() as int) =~= dv(files@));
    }
    let sorted = sort_docs(&kept);
    let ghost ss = dv(sorted@);
    let mut r = String::new();
    proof {
        assert(r@ =~= sections_of(ss.take(0)));
    }
    let mut k: usize = 0;
    while k < sorted.len()
        invariant
            k <= sorted@.len(),
            ss == dv(sorted@),
            r@ == sections_of(ss.take(k as int)),
        decreases sorted@.len() - k,
    {
        proof {
            assert(ss.take(k as int + 1).drop_last() =~= ss.take(k as int));
            assert(ss.take(k as int + 1).last() == ss[k as int]);
        }
        r.append("\n## ");
        let t = section_title_of(sorted[k].path.as_str());
        r.append(t.as_str());
        r.append("\n\n");
        r.append(sorted[k].text.as_str());
        r.append("\n");
        proof {
            assert(r@ =~= sections_of(ss.take(k as int)) + section_of(ss[k as int]));
        }
        k += 1;
    }
    proof {
        assert(ss.take(sorted@.len() as int) =~= ss);
    }
    r
}

// ---------------------------------------------------------------------------
// Hierarchy copies
// ---------------------------------------------------------------------------

pub open spec fn rewrite_doc(d: GDoc, change: Option<Seq<char>>) -> GDoc {
    match change {
        Some(e) => GDoc { path: replace_ext(d.path, e), text: d.text },
        None => d,
    }
}

pub open spec fn copy_spec(s: Seq<GDoc>, change: Option<Seq<char>>) -> Seq<GDoc>
    decreases s.len(),
{
    if s.len() == 0 {
        Seq::<GDoc>::empty()
    } else {
        let init = copy_spec(s.drop_last(), change);
        if is_md(s.last().path) {
            init.push(rewrite_doc(s.last(), change))
        } else {
            init
        }
    }
}

/// Plan a structural copy of the markdown files of a hierarchy, optionally
/// rewriting their extension; text is carried over unchanged.
pub fn copy_hierarchy(files: &Vec<Doc>, change_extension: Option<&str>) -> (r: Vec<Doc>)
    ensures
        dv(r@) == copy_spec(
            dv(files@),
            match change_extension {
                Some(e) => Some(e@),
                None => None,
            },
        ),
{
    let ghost change: Option<Seq<char>> = match change_extension {
        Some(e) => Some(e@),
        None => None,
    };
    let mut out: Vec<Doc> = Vec::new();
    proof {
        assert(dv(files@).take(0) =~= Seq::<GDoc>::empty());
        assert(dv(out@) =~= copy_spec(dv(files@).take(0), change));
    }
    let mut i: usize = 0;
    while i < files.len()
        invariant
            i <= files@.len(),
            change == (match change_extension {
                Some(e) => Some(e@),
                None => None::<Seq<char>>,
            }),
            dv(out@) == copy_spec(dv(files@).take(i as int), change),
        decreases files@.len() - i,
    {
        proof {
            assert(dv(files@).take(i as int + 1).drop_last() =~= dv(files@).take(i as int));
            assert(dv(files@).take(i as int + 1).last() == dv(files@)[i as int]);
        }
        if path_has_ext(files[i].path.as_str(), "md") {
            let nd = match change_extension {
                Some(e) => Doc {
                    path: path_replace_ext(files[i].path.as_str(), e),
                    text: files[i].text.clone(),
                },
                None => files[i].clone(),
            };
            out.push(nd);
            proof {
                assert(dv(out@) =~= copy_spec(dv(files@).take(i as int), change).push(
                    rewrite_doc(dv(files@)[i as int], change),
                ));
            }
        }
        i += 1;
    }
    proof {
        assert(dv(files@).take(files@.len() as int) =~= dv(files@));
    }
    out
}

pub open spec fn copy_ext_spec(s: Seq<GDoc>, from: Seq<char>, to: Seq<char>) -> Seq<GDoc>
    decreases s.len(),
{
    if s.len() == 0 {
        Seq::<GDoc>::empty()
    } else {
        let init = copy_ext_spec(s.drop_last(), from, to);
        if has_ext(s.last().path, from) {
            init.push(GDoc { path: replace_ext(s.last().path, to), text: s.last().text })
        } else {
            init
        }
    }
}

/// Plan a structural copy of the files bearing one extension, rewriting it
/// to another; text is carried over unchanged.
pub fn copy_hierarchy_with_extension_change(files: &Vec<Doc>, from_ext: &str, to_ext: &str) -> (r:
    Vec<Doc>)
    ensures
        dv(r@) == copy_ext_spec(dv(files@), from_ext@, to_ext@),
{
    let mut out: Vec<Doc> = Vec::new();
    proof {
        assert(dv(files@).take(0) =~= Seq::<GDoc>::empty());
        assert(dv(out@) =~= copy_ext_spec(dv(files@).take(0), from_ext@, to_ext@));
    }
    let mut i: usize = 0;
    while i < files.len()
        invariant
            i <= files@.len(),
            dv(out@) == copy_ext_spec(dv(files@).take(i as int), from_ext@, to_ext@),
        decreases files@.len() - i,
    {
        proof {
            assert(dv(files@).take(i as int + 1).drop_last() =~= dv(files@).take(i as int));
            assert(dv(files@).take(i as int + 1).last() == dv(files@)[i as int]);
        }
        if path_has_ext(files[i].path.as_str(), from_ext) {
            let nd = Doc {
                path: path_replace_ext(files[i].path.as_str(), to_ext),
                text: files[i].text.clone(),
            };
            out.push(nd);
            proof {
                assert(dv(out@) =~= copy_ext_spec(dv(files@).take(i as int), from_ext@, to_ext@)
                    .push(
                    GDoc {
                        path: replace_ext(dv(files@)[i as int].path, to_ext@),
                        text: dv(files@)[i as int].text,
                    },
                ));
            }
        }
        i += 1;
    }
    proof {
        assert(dv(files@).take(files@.len() as int) =~= dv(files@));
    }
    out
}

// ---------------------------------------------------------------------------
// Canonical directory presence, and the project name
// ---------------------------------------------------------------------------

/// Refuse to work without a canonical directory.
pub fn ensure_config_exists(config_dir: &str, dir_exists: bool) -> (r: Result<(), SyncError>)
    ensures
        r is Ok <==> dir_exists,
        !dir_exists ==> (r->Err_0 matches SyncError::MissingConfigDir { dir } && dir@
            == config_dir@),
{
    if dir_exists {
        Ok(())
    } else {
        Err(SyncError::MissingConfigDir { dir: config_dir.to_owned() })
    }
}

/// The last real segment of a slash-separated directory path, if there is
/// one: empty segments and `.` are passed over; `..` hides the name.
pub open spec fn last_normal_segment(parts: Seq<Seq<char>>) -> Option<Seq<char>>
    decreases parts.len(),
{
    if parts.len() == 0 {
        None
    } else if parts.last() == Seq::<char>::empty() || parts.last() == "."@ {
        last_normal_segment(parts.drop_last())
    } else if parts.last() == ".."@ {
        None
    } else {
        Some(parts.last())
    }
}

pub open spec fn project_name_spec(cwd: Seq<char>) -> Seq<char> {
    match last_normal_segment(split_char(cwd, '/')) {
        Some(s) => s,
        None => "Project"@,
    }
}

/// The project name shown in generated headers: the final path segment of
/// the working directory, or `Project` when there is none.
pub fn get_project_name(cwd: &str) -> (r: String)
    ensures
        r@ == project_name_spec(cwd@),
{
    let chars = str_chars(cwd);
    let parts = split_chars(&chars, '/');
    let ghost pv = parts.deep_view();
    let dot = str_chars(".");
    let dotdot = str_chars("..");
    let mut j: usize = parts.len();
    proof {
        assert(pv.take(pv.len() as int) =~= pv);
    }
    while j > 0
        invariant
            j <= parts@.len(),
            pv == parts.deep_view(),
            pv == split_char(cwd@, '/'),
            dot@ == "."@,
            dotdot@ == ".."@,
            last_normal_segment(pv) == last_normal_segment(pv.take(j as int)),
        decreases j,
    {
        proof {
            assert(pv.take(j as int).last() == pv[j - 1]);
            assert(pv.take(j as int).drop_last() =~= pv.take(j as int - 1));
            assert(parts.deep_view()[j - 1] =~= parts@[j - 1]@);
        }
        let part = &parts[j - 1];
        let is_empty = part.len() == 0;
        proof {
            if pv[j - 1].len() == 0 {
                assert(pv[j - 1] =~= Seq::<char>::empty());
            }
        }
        if is_empty || crate::text::chars_eq(part, &dot) {
            j -= 1;
        } else if crate::text::chars_eq(part, &dotdot) {
            proof {
                assert(pv.take(j as int).last() == part@);
                assert(part@ == ".."@);
                assert(last_normal_segment(pv.take(j as int)) is None);
            }
            return "Project".to_owned();
        } else {
            proof {
                assert(pv.take(j as int).last() == part@);
                assert(last_normal_segment(pv.take(j as int)) == Some(part@));
            }
            return string_of(part);
        }
    }
    proof {
        assert(pv.take(0) =~= Seq::<Seq<char>>::empty());
    }
    "Project".to_owned()
}

} // verus!
