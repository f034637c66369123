//! The library's laws: what aggregation, the push preconditions, the pull
//! preconditions and the rules-directory round trip guarantee, proved from
//! the contracts of the functions they speak of.

use vstd::prelude::*;
use vstd::seq_lib::group_to_multiset_ensures;
use vstd::seq_lib::lemma_multiset_commutative;
use crate::text::lex_le;
use crate::doc::{GDoc, doc_le, insert_sorted, sort_spec};
use crate::utils::{eligible, keep_in_combined, combined_spec, sections_of, copy_spec,
    copy_ext_spec, is_md};
use crate::paths::{rfind_dot, replace_ext, has_ext, ext_of, lemma_rfind_dot_range};
use crate::push_plan::{PushEnv, PushPlan, cursor_push_post, memory_push_post, prefix_docs,
    strip_prefix_docs};
use crate::pull_plan::{pull_precheck_post, cursor_pull_spec};
use crate::cli::is_known_tool;
use crate::errors::SyncError;
use crate::vendor::Tool;

verus! {

// ---------------------------------------------------------------------------
// The path order is total and transitive
// ---------------------------------------------------------------------------

pub proof fn lemma_lex_le_total(a: Seq<char>, b: Seq<char>)
    ensures
        lex_le(a, b) || lex_le(b, a),
    decreases a.len(),
{
    if a.len() > 0 && b.len() > 0 && (a[0] as u32) == (b[0] as u32) {
        lemma_lex_le_total(a.drop_first(), b.drop_first());
    }
}

pub proof fn lemma_lex_le_trans(a: Seq<char>, b: Seq<char>, c: Seq<char>)
    requires
        lex_le(a, b),
        lex_le(b, c),
    ensures
        lex_le(a, c),
    decreases a.len(),
{
    if a.len() > 0 && b.len() > 0 && c.len() > 0 && (a[0] as u32) == (b[0] as u32) && (b[0] as u32)
        == (c[0] as u32) {
        lemma_lex_le_trans(a.drop_first(), b.drop_first(), c.drop_first());
    }
}

/// Documents in weakly increasing path order.
pub open spec fn sorted_docs(s: Seq<GDoc>) -> bool {
    forall|i: int, j: int| 0 <= i < j < s.len() ==> doc_le(#[trigger] s[i], #[trigger] s[j])
}

// ---------------------------------------------------------------------------
// Sorting is a permutation and sorts
// ---------------------------------------------------------------------------

pub proof fn lemma_insert_sorted_multiset(d: GDoc, s: Seq<GDoc>)
    ensures
        insert_sorted(d, s).to_multiset() == s.to_multiset().insert(d),
    decreases s.len(),
{
    broadcast use group_to_multiset_ensures;

    if s.len() == 0 {
        assert(seq![d] =~= Seq::<GDoc>::empty().push(d));
        assert(insert_sorted(d, s).to_multiset() =~= s.to_multiset().insert(d));
    } else if doc_le(d, s[0]) {
        lemma_multiset_commutative(seq![d], s);
        assert(seq![d] =~= Seq::<GDoc>::empty().push(d));
        assert((seq![d] + s).to_multiset() =~= s.to_multiset().insert(d));
    } else {
        lemma_insert_sorted_multiset(d, s.drop_first());
        lemma_multiset_commutative(seq![s[0]], insert_sorted(d, s.drop_first()));
        lemma_multiset_commutative(seq![s[0]], s.drop_first());
        assert(s =~= seq![s[0]] + s.drop_first());
        assert((seq![s[0]] + insert_sorted(d, s.drop_first())).to_multiset() =~= s.to_multiset()
            .insert(d));
    }
}

pub proof fn lemma_sort_spec_multiset(s: Seq<GDoc>)
    ensures
        sort_spec(s).to_multiset() == s.to_multiset(),
    decreases s.len(),
{
    broadcast use group_to_multiset_ensures;

    if s.len() > 0 {
        lemma_sort_spec_multiset(s.drop_last());
        lemma_insert_sorted_multiset(s.last(), sort_spec(s.drop_last()));
        assert(s =~= s.drop_last().push(s.last()));
        assert(sort_spec(s).to_multiset() =~= s.to_multiset());
    }
}

proof fn lemma_insert_sorted_sorted(d: GDoc, s: Seq<GDoc>)
    requires
        sorted_docs(s),
    ensures
        sorted_docs(insert_sorted(d, s)),
    decreases s.len(),
{
    broadcast use group_to_multiset_ensures;

    if s.len() == 0 {
    } else if doc_le(d, s[0]) {
        let r = seq![d] + s;
        assert forall|i: int, j: int| 0 <= i < j < r.len() implies doc_le(r[i], r[j]) by {
            if i == 0 {
                if j > 1 {
                    lemma_lex_le_trans(d.path, s[0].path, s[j - 1].path);
                }
            }
        }
    } else {
        lemma_lex_le_total(d.path, s[0].path);
        assert(doc_le(s[0], d));
        assert(sorted_docs(s.drop_first()));
        lemma_insert_sorted_sorted(d, s.drop_first());
        lemma_insert_sorted_multiset(d, s.drop_first());
        let t = insert_sorted(d, s.drop_first());
        let r = seq![s[0]] + t;
        assert forall|i: int, j: int| 0 <= i < j < r.len() implies doc_le(r[i], r[j]) by {
            if i == 0 {
                let x = r[j];
                assert(t[j - 1] == x);
                assert(t.contains(x));
                assert(t.to_multiset().count(x) > 0);
                if x == d {
                    assert(doc_le(s[0], d));
                } else {
                    assert(s.drop_first().to_multiset().count(x) > 0);
                    assert(s.drop_first().contains(x));
                    let k = choose|k: int|
                        0 <= k < s.drop_first().len() && s.drop_first()[k] == x;
                    assert(s[k + 1] == x);
                    assert(doc_le(s[0], s[k + 1]));
                }
            }
        }
    }
}

pub proof fn lemma_sort_spec_sorted(s: Seq<GDoc>)
    ensures
        sorted_docs(sort_spec(s)),
    decreases s.len(),
{
    if s.len() > 0 {
        lemma_sort_spec_sorted(s.drop_last());
        lemma_insert_sorted_sorted(s.last(), sort_spec(s.drop_last()));
    }
}

// ---------------------------------------------------------------------------
// What the aggregate walks: each eligible document once, nothing else,
// in path order
// ---------------------------------------------------------------------------

proof fn lemma_eligible_count(docs: Seq<GDoc>, d: GDoc)
    ensures
        eligible(docs).to_multiset().count(d) == (if keep_in_combined(d) {
            docs.to_multiset().count(d)
        } else {
            0nat
        }),
    decreases docs.len(),
{
    broadcast use group_to_multiset_ensures;

    if docs.len() == 0 {
        assert(eligible(docs).to_multiset().count(d) == 0) by {
            assert(!eligible(docs).contains(d));
        }
        assert(docs.to_multiset().count(d) == 0) by {
            assert(!docs.contains(d));
        }
    } else {
        lemma_eligible_count(docs.drop_last(), d);
        assert(docs =~= docs.drop_last().push(docs.last()));
        assert(docs.to_multiset() =~= docs.drop_last().to_multiset().insert(docs.last()));
    }
}

/// Aggregation covers exactly the markdown documents outside the reserved
/// `commands` subtree: each such document is walked once, every other
/// document not at all, and the walk is in lexicographic path order.
pub proof fn lemma_combine_includes_excludes(docs: Seq<GDoc>)
    ensures
        combined_spec(docs) == sections_of(sort_spec(eligible(docs))),
        sorted_docs(sort_spec(eligible(docs))),
        forall|d: GDoc|
            #[trigger] sort_spec(eligible(docs)).to_multiset().count(d) == (if keep_in_combined(
                d,
            ) {
                docs.to_multiset().count(d)
            } else {
                0nat
            }),
{
    lemma_sort_spec_sorted(eligible(docs));
    lemma_sort_spec_multiset(eligible(docs));
    assert forall|d: GDoc|
        #[trigger] sort_spec(eligible(docs)).to_multiset().count(d) == (if keep_in_combined(d) {
            docs.to_multiset().count(d)
        } else {
            0nat
        }) by {
        lemma_eligible_count(docs, d);
    }
}

/// Aggregation is deterministic: two runs over the same documents yield
/// byte-identical output.
pub proof fn lemma_combine_idempotent(docs: Seq<GDoc>, first: Seq<char>, second: Seq<char>)
    requires
        first == combined_spec(docs),
        second == combined_spec(docs),
    ensures
        first == second,
{
}

// ---------------------------------------------------------------------------
// The rules-directory round trip
// ---------------------------------------------------------------------------

proof fn lemma_rfind_dot_append(stem: Seq<char>, ext: Seq<char>)
    requires
        stem.len() > 0,
        stem.last() != '/',
        forall|k: int| 0 <= k < ext.len() ==> ext[k] != '.' && ext[k] != '/',
    ensures
        rfind_dot(stem + seq!['.'] + ext) == Some(stem.len() as int),
    decreases ext.len(),
{
    let s = stem + seq!['.'] + ext;
    if ext.len() == 0 {
        assert(s.last() == '.');
        assert(s.len() >= 2);
        assert(s[s.len() - 2] == stem.last());
    } else {
        lemma_rfind_dot_append(stem, ext.drop_last());
        assert(s.last() == ext.last());
        assert(s.drop_last() =~= stem + seq!['.'] + ext.drop_last());
    }
}

proof fn lemma_replace_ext_roundtrip(p: Seq<char>)
    requires
        is_md(p),
    ensures
        has_ext(replace_ext(p, "mdc"@), "mdc"@),
        replace_ext(replace_ext(p, "mdc"@), "md"@) == p,
{
    reveal_strlit("md");
    reveal_strlit("mdc");
    lemma_rfind_dot_range(p);
    let i = rfind_dot(p)->0;
    let stem = p.take(i);
    assert(stem.last() == p[i - 1]);
    assert(forall|k: int| 0 <= k < "mdc"@.len() ==> "mdc"@[k] != '.' && "mdc"@[k] != '/');
    lemma_rfind_dot_append(stem, "mdc"@);
    let q = replace_ext(p, "mdc"@);
    assert(q == stem + seq!['.'] + "mdc"@);
    assert(q.take(stem.len() as int) =~= stem);
    assert(ext_of(q) == Some(q.skip(stem.len() as int + 1)));
    assert(q.skip(stem.len() as int + 1) =~= "mdc"@);
    assert(replace_ext(q, "md"@) == stem + seq!['.'] + "md"@);
    assert(stem + seq!['.'] + "md"@ =~= p) by {
        assert(ext_of(p) == Some(p.skip(i + 1)));
        assert(p.skip(i + 1) == "md"@);
        assert(p[i] == '.');
    }
}

/// Pushing the rules-directory vendor from a tree of markdown documents and
/// pulling the result back yields the original documents: bodies unchanged,
/// extensions normalized to markdown.
pub proof fn lemma_rules_roundtrip(docs: Seq<GDoc>)
    requires
        forall|i: int| 0 <= i < docs.len() ==> is_md(#[trigger] docs[i].path),
    ensures
        copy_ext_spec(copy_spec(docs, Some("mdc"@)), "mdc"@, "md"@) == docs,
    decreases docs.len(),
{
    if docs.len() == 0 {
        assert(copy_ext_spec(copy_spec(docs, Some("mdc"@)), "mdc"@, "md"@) =~= docs);
    } else {
        lemma_rules_roundtrip(docs.drop_last());
        let d = docs.last();
        lemma_replace_ext_roundtrip(d.path);
        let pushed = copy_spec(docs, Some("mdc"@));
        assert(pushed == copy_spec(docs.drop_last(), Some("mdc"@)).push(
            GDoc { path: replace_ext(d.path, "mdc"@), text: d.text },
        ));
        assert(pushed.drop_last() =~= copy_spec(docs.drop_last(), Some("mdc"@)));
        assert(copy_ext_spec(pushed, "mdc"@, "md"@) == copy_ext_spec(
            pushed.drop_last(),
            "mdc"@,
            "md"@,
        ).push(GDoc { path: replace_ext(replace_ext(d.path, "mdc"@), "md"@), text: d.text }));
        assert(GDoc { path: replace_ext(replace_ext(d.path, "mdc"@), "md"@), text: d.text } =~= d);
        assert(copy_ext_spec(pushed, "mdc"@, "md"@) =~= docs);
    }
}

/// Re-rooting documents under a directory and listing that directory again
/// gives the documents back unchanged.
pub proof fn lemma_prefix_strip_roundtrip(s: Seq<GDoc>, pre: Seq<char>)
    ensures
        strip_prefix_docs(prefix_docs(s, pre), pre) == s,
    decreases s.len(),
{
    if s.len() == 0 {
        assert(strip_prefix_docs(prefix_docs(s, pre), pre) =~= s);
    } else {
        lemma_prefix_strip_roundtrip(s.drop_last(), pre);
        let p = prefix_docs(s, pre);
        let d = s.last();
        assert(p.last() == GDoc { path: pre + d.path, text: d.text });
        assert(p.drop_last() =~~= prefix_docs(s.drop_last(), pre));
        assert((pre + d.path).take(pre.len() as int) =~= pre);
        assert((pre + d.path).skip(pre.len() as int) =~= d.path);
        assert(strip_prefix_docs(p, pre) =~~= s);
    }
}

/// The full rules-directory round trip at the vendor level: the documents
/// that a push lays down under the native rules directory, listed back out
/// of that directory and pulled, are the canonical documents again.
pub proof fn lemma_cursor_vendor_roundtrip(docs: Seq<GDoc>)
    requires
        forall|i: int| 0 <= i < docs.len() ==> is_md(#[trigger] docs[i].path),
    ensures
        cursor_pull_spec(
            strip_prefix_docs(
                prefix_docs(copy_spec(docs, Some("mdc"@)), ".cursor/rules/"@),
                ".cursor/rules/"@,
            ),
            true,
            None,
        ) == docs,
{
    lemma_prefix_strip_roundtrip(copy_spec(docs, Some("mdc"@)), ".cursor/rules/"@);
    lemma_rules_roundtrip(docs);
}

// ---------------------------------------------------------------------------
// Push preconditions and force
// ---------------------------------------------------------------------------

/// With a native artifact present, the rules-directory push fails exactly
/// when force is not given; with force it succeeds and replaces the
/// artifact.
pub proof fn lemma_cursor_push_force(env: PushEnv, r: Result<PushPlan, SyncError>)
    requires
        cursor_push_post(env, r),
        env.cursor_rules_exists || env.cursorrules_exists,
    ensures
        r is Err <==> !env.force,
        env.force && env.cursor_rules_exists ==> r->Ok_0.remove_dirs@.len() == 1,
{
}

/// With a native artifact present, the single-memory-file push fails
/// exactly when force is not given; with force it succeeds.
pub proof fn lemma_memory_push_force(env: PushEnv, r: Result<PushPlan, SyncError>)
    requires
        memory_push_post(env, r),
        env.memory_main_exists || (env.canonical_commands_exists && env.memory_commands_exists),
    ensures
        r is Err <==> !env.force,
{
}

// ---------------------------------------------------------------------------
// Pull preconditions
// ---------------------------------------------------------------------------

/// A non-merge pull into a canonical directory that already holds files
/// fails before any adapter runs, whatever known vendor it names.
pub proof fn lemma_pull_needs_merge(
    from: Seq<char>,
    config_dir: Seq<char>,
    target_exists: bool,
    file_count: usize,
    r: Result<Tool, SyncError>,
)
    requires
        pull_precheck_post(from, config_dir, false, target_exists, file_count, r),
        is_known_tool(from),
        target_exists,
        file_count > 0,
    ensures
        r is Err,
        r->Err_0 matches SyncError::NeedMerge { dir, count } && dir@ == config_dir && count
            == file_count,
{
}

} // verus!
