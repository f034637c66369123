//! The document model: a file as a relative path plus its text, and a
//! verified, deterministic sort by path.

use vstd::prelude::*;
use crate::text::{lex_le, str_le};

verus! {

/// A file held in memory: a relative, slash-separated path and its text.
#[derive(Debug)]
pub struct Doc {
    pub path: String,
    pub text: String,
}

/// The mathematical image of a [`Doc`].
#[verifier::ext_equal]
pub struct GDoc {
    pub path: Seq<char>,
    pub text: Seq<char>,
}

impl View for Doc {
    type V = GDoc;

    open spec fn view(&self) -> GDoc {
        GDoc { path: self.path@, text: self.text@ }
    }
}

impl Clone for Doc {
    fn clone(&self) -> (r: Self)
        ensures
            r@ == self@,
    {
        Doc { path: self.path.clone(), text: self.text.clone() }
    }
}

impl Doc {
    pub fn new(path: &str, text: &str) -> (r: Doc)
        ensures
            r@.path == path@,
            r@.text == text@,
    {
        Doc { path: path.to_owned(), text: text.to_owned() }
    }
}

/// The sequence of document images behind a sequence of documents.
pub open spec fn dv(s: Seq<Doc>) -> Seq<GDoc> {
    s.map_values(|d: Doc| d@)
}

/// Order documents by path.
pub open spec fn doc_le(a: GDoc, b: GDoc) -> bool {
    lex_le(a.path, b.path)
}

/// Insert a document before the first element it precedes or equals.
pub open spec fn insert_sorted(d: GDoc, s: Seq<GDoc>) -> Seq<GDoc>
    decreases s.len(),
{
    if s.len() == 0 {
        seq![d]
    } else if doc_le(d, s[0]) {
        seq![d] + s
    } else {
        seq![s[0]] + insert_sorted(d, s.drop_first())
    }
}

/// Insertion sort, stable in the order of first appearance.
pub open spec fn sort_spec(s: Seq<GDoc>) -> Seq<GDoc>
    decreases s.len(),
{
    if s.len() == 0 {
        Seq::<GDoc>::empty()
    } else {
        insert_sorted(s.last(), sort_spec(s.drop_last()))
    }
}

proof fn lemma_insert_sorted_at(d: GDoc, s: Seq<GDoc>, j: int)
    requires
        0 <= j <= s.len(),
        forall|k: int| 0 <= k < j ==> !doc_le(d, s[k]),
        j < s.len() ==> doc_le(d, s[j]),
    ensures
        insert_sorted(d, s) == s.insert(j, d),
    decreases j,
{
    if j == 0 {
        if s.len() == 0 {
            assert(insert_sorted(d, s) =~= s.insert(0, d));
        } else {
            assert(seq![d] + s =~= s.insert(0, d));
        }
    } else {
        lemma_insert_sorted_at(d, s.drop_first(), j - 1);
        assert(seq![s[0]] + s.drop_first().insert(j - 1, d) =~= s.insert(j, d));
    }
}

fn insert_doc(out: &mut Vec<Doc>, d: Doc)
    ensures
        dv(final(out)@) == insert_sorted(d@, dv(old(out)@)),
{
    let mut j: usize = 0;
    while j < out.len() && !str_le(d.path.as_str(), out[j].path.as_str())
        invariant
            j <= out@.len(),
            out@ == old(out)@,
            forall|k: int| 0 <= k < j ==> !doc_le(d@, dv(out@)[k]),
        decreases out@.len() - j,
    {
        j += 1;
    }
    proof {
        lemma_insert_sorted_at(d@, dv(out@), j as int);
    }
    out.insert(j, d);
    proof {
        assert(dv(final(out)@) =~= dv(old(out)@).insert(j as int, d@));
    }
}

/// Sort documents by path, lexicographically, keeping the relative order of
/// equal paths.
pub fn sort_docs(docs: &Vec<Doc>) -> (r: Vec<Doc>)
    ensures
        dv(r@) == sort_spec(dv(docs@)),
{
    let mut out: Vec<Doc> = Vec::new();
    proof {
        assert(dv(docs@).take(0) =~= Seq::<GDoc>::empty());
        assert(dv(out@) =~= sort_spec(dv(docs@).take(0)));
    }
    let mut i: usize = 0;
    while i < docs.len()
        invariant
            i <= docs@.len(),
            dv(out@) == sort_spec(dv(docs@).take(i as int)),
        decreases docs@.len() - i,
    {
        let d = docs[i].clone();
        insert_doc(&mut out, d);
        proof {
            assert(dv(docs@).take(i as int + 1).drop_last() =~= dv(docs@).take(i as int));
            assert(dv(docs@).take(i as int + 1).last() == dv(docs@)[i as int]);
        }
        i += 1;
    }
    proof {
        assert(dv(docs@).take(docs@.len() as int) =~= dv(docs@));
    }
    out
}

} // verus!
