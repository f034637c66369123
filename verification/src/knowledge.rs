//! The remote-knowledge vendor's logic: relevance filtering against the
//! working directory's folder names, filename sanitizing, and the rendering
//! of each remote record as a canonical document.

use vstd::prelude::*;
use crate::doc::{Doc, GDoc, dv};
use crate::errors::SyncError;
use crate::text::{lower_of, lowercase, is_substring, contains_chars, str_chars, string_of,
    trim_spec, trim_chars, chars_eq, dec_of, u64_to_string, usize_to_string, push_char};
use crate::paths::{split_char, split_chars};

verus! {

/// A calendar timestamp in UTC, as plain fields.
#[derive(Clone, Copy, PartialEq, Eq, Structural, Debug)]
pub struct Timestamp {
    pub year: u64,
    pub month: u64,
    pub day: u64,
    pub hour: u64,
    pub minute: u64,
    pub second: u64,
}

/// One record of the remote knowledge base, as plain values.
pub struct Knowledge {
    pub id: String,
    pub name: String,
    pub body: String,
    pub trigger_description: String,
    pub parent_folder_id: Option<String>,
    pub created_at: Timestamp,
}

/// The mathematical image of a [`Knowledge`] record.
#[verifier::ext_equal]
pub struct GKnowledge {
    pub id: Seq<char>,
    pub name: Seq<char>,
    pub body: Seq<char>,
    pub trigger_description: Seq<char>,
    pub parent_folder_id: Option<Seq<char>>,
    pub created_at: Timestamp,
}

impl View for Knowledge {
    type V = GKnowledge;

    open spec fn view(&self) -> GKnowledge {
        GKnowledge {
            id: self.id@,
            name: self.name@,
            body: self.body@,
            trigger_description: self.trigger_description@,
            parent_folder_id: match self.parent_folder_id {
                Some(s) => Some(s@),
                None => None,
            },
            created_at: self.created_at,
        }
    }
}

impl Clone for Knowledge {
    fn clone(&self) -> (r: Self)
        ensures
            r@ == self@,
    {
        Knowledge {
            id: self.id.clone(),
            name: self.name.clone(),
            body: self.body.clone(),
            trigger_description: self.trigger_description.clone(),
            parent_folder_id: match &self.parent_folder_id {
                Some(s) => Some(s.clone()),
                None => None,
            },
            created_at: self.created_at,
        }
    }
}

pub open spec fn kv(s: Seq<Knowledge>) -> Seq<GKnowledge> {
    s.map_values(|k: Knowledge| k@)
}

// ---------------------------------------------------------------------------
// Filename sanitizing
// ---------------------------------------------------------------------------

/// Filesystem-unsafe characters become underscores.
pub open spec fn sanitize_char(c: char) -> char {
    if c == '/' || c == '\\' || c == ':' || c == '*' || c == '?' || c == '"' || c == '<' || c
        == '>' || c == '|' {
        '_'
    } else {
        c
    }
}

pub open spec fn sanitize_spec(s: Seq<char>) -> Seq<char> {
    trim_spec(s.map_values(|c: char| sanitize_char(c)))
}

/// A record name made safe for use as a filename.
pub fn sanitize_filename(name: &str) -> (r: String)
    ensures
        r@ == sanitize_spec(name@),
{
    let chars = str_chars(name);
    let mut mapped: Vec<char> = Vec::new();
    proof {
        assert(mapped@ =~= chars@.map_values(|c: char| sanitize_char(c)).take(0));
    }
    let mut i: usize = 0;
    while i < chars.len()
        invariant
            i <= chars@.len(),
            mapped@ == chars@.map_values(|c: char| sanitize_char(c)).take(i as int),
        decreases chars@.len() - i,
    {
        let c = chars[i];
        if c == '/' || c == '\\' || c == ':' || c == '*' || c == '?' || c == '"' || c == '<' || c
            == '>' || c == '|' {
            mapped.push('_');
        } else {
            mapped.push(c);
        }
        proof {
            assert(mapped@ =~= chars@.map_values(|c: char| sanitize_char(c)).take(i as int + 1));
        }
        i += 1;
    }
    proof {
        let m = chars@.map_values(|c: char| sanitize_char(c));
        assert(m.take(m.len() as int) =~= m);
    }
    let trimmed = trim_chars(&mapped);
    string_of(&trimmed)
}

// ---------------------------------------------------------------------------
// Folder names of the working directory
// ---------------------------------------------------------------------------

/// The real path segments, with empty ones and the relative markers left
/// out.
pub open spec fn normal_segments(parts: Seq<Seq<char>>) -> Seq<Seq<char>>
    decreases parts.len(),
{
    if parts.len() == 0 {
        Seq::<Seq<char>>::empty()
    } else {
        let init = normal_segments(parts.drop_last());
        if parts.last().len() > 0 && parts.last() != "."@ && parts.last() != ".."@ {
            init.push(parts.last())
        } else {
            init
        }
    }
}

/// The lowercase names of the working directory's path segments.
pub open spec fn folder_names_spec(cwd: Seq<char>) -> Seq<Seq<char>> {
    normal_segments(split_char(cwd, '/')).map_values(|s: Seq<char>| lower_of(s))
}

pub fn get_folder_names(cwd: &str) -> (r: Vec<String>)
    ensures
        r.deep_view() == folder_names_spec(cwd@),
{
    let chars = str_chars(cwd);
    let parts = split_chars(&chars, '/');
    let ghost pv = parts.deep_view();
    let dot = str_chars(".");
    let dotdot = str_chars("..");
    let mut r: Vec<String> = Vec::new();
    proof {
        assert(pv.take(0) =~= Seq::<Seq<char>>::empty());
        assert(r.deep_view() =~~= normal_segments(pv.take(0)).map_values(
            |s: Seq<char>| lower_of(s),
        ));
    }
    let mut i: usize = 0;
    while i < parts.len()
        invariant
            i <= parts@.len(),
            pv == parts.deep_view(),
            pv == split_char(cwd@, '/'),
            dot@ == "."@,
            dotdot@ == ".."@,
            r.deep_view() == normal_segments(pv.take(i as int)).map_values(
                |s: Seq<char>| lower_of(s),
            ),
        decreases parts@.len() - i,
    {
        proof {
            assert(pv.take(i as int + 1).drop_last() =~= pv.take(i as int));
            assert(pv.take(i as int + 1).last() == pv[i as int]);
            assert(parts.deep_view()[i as int] =~= parts@[i as int]@);
        }
        let part = &parts[i];
        proof {
            if pv[i as int].len() == 0 {
                assert(pv[i as int] =~= Seq::<char>::empty());
            }
        }
        if part.len() > 0 && !chars_eq(part, &dot) && !chars_eq(part, &dotdot) {
            let s = string_of(part);
            let low = lowercase(s.as_str());
            let ghost prev = r.deep_view();
            r.push(low);
            proof {
                assert(low.deep_view() == lower_of(pv[i as int]));
                assert(r.deep_view() =~~= prev.push(lower_of(pv[i as int])));
                assert(normal_segments(pv.take(i as int + 1)) =~= normal_segments(
                    pv.take(i as int),
                ).push(pv[i as int]));
                assert(r.deep_view() =~~= normal_segments(pv.take(i as int + 1)).map_values(
                    |s: Seq<char>| lower_of(s),
                ));
            }
        } else {
            proof {
                if pv[i as int].len() == 0 {
                    assert(pv[i as int] == Seq::<char>::empty());
                }
                assert(normal_segments(pv.take(i as int + 1)) == normal_segments(
                    pv.take(i as int),
                ));
            }
        }
        i += 1;
    }
    proof {
        assert(pv.take(pv.len() as int) =~= pv);
    }
    r
}

// ---------------------------------------------------------------------------
// Relevance
// ---------------------------------------------------------------------------

/// A record is relevant when any folder name occurs, case-insensitively, in
/// its trigger description, name or body.
pub open spec fn relevant_spec(k: GKnowledge, names: Seq<Seq<char>>) -> bool {
    exists|i: int|
        0 <= i < names.len() && (is_substring(lower_of(k.trigger_description), #[trigger] names[i])
            || is_substring(lower_of(k.name), names[i]) || is_substring(lower_of(k.body), names[i]))
}

pub fn is_relevant_to_project(k: &Knowledge, folder_names: &Vec<String>) -> (r: bool)
    ensures
        r == relevant_spec(k@, folder_names.deep_view()),
{
    let trig = lowercase(k.trigger_description.as_str());
    let name = lowercase(k.name.as_str());
    let body = lowercase(k.body.as_str());
    let trig_c = str_chars(trig.as_str());
    let name_c = str_chars(name.as_str());
    let body_c = str_chars(body.as_str());
    let ghost names = folder_names.deep_view();
    let mut i: usize = 0;
    while i < folder_names.len()
        invariant
            i <= folder_names@.len(),
            names == folder_names.deep_view(),
            trig_c@ == lower_of(k.trigger_description@),
            name_c@ == lower_of(k.name@),
            body_c@ == lower_of(k.body@),
            forall|j: int|
                0 <= j < i ==> !(is_substring(lower_of(k@.trigger_description), #[trigger] names[j])
                    || is_substring(lower_of(k@.name), names[j]) || is_substring(
                    lower_of(k@.body),
                    names[j],
                )),
        decreases folder_names@.len() - i,
    {
        let nc = str_chars(folder_names[i].as_str());
        proof {
            assert(names[i as int] == folder_names@[i as int]@);
        }
        if contains_chars(&trig_c, &nc) || contains_chars(&name_c, &nc) || contains_chars(
            &body_c,
            &nc,
        ) {
            return true;
        }
        i += 1;
    }
    proof {
        assert(!relevant_spec(k@, names)) by {
            if relevant_spec(k@, names) {
                let j = choose|j: int|
                    0 <= j < names.len() && (is_substring(
                        lower_of(k@.trigger_description),
                        #[trigger] names[j],
                    ) || is_substring(lower_of(k@.name), names[j]) || is_substring(
                        lower_of(k@.body),
                        names[j],
                    ));
                assert(0 <= j < i);
            }
        }
    }
    false
}

// ---------------------------------------------------------------------------
// Timestamp rendering
// ---------------------------------------------------------------------------

pub open spec fn pad2(n: int) -> Seq<char> {
    if n < 10 {
        seq!['0'] + dec_of(n)
    } else {
        dec_of(n)
    }
}

pub open spec fn pad4(n: int) -> Seq<char> {
    if n < 10 {
        seq!['0', '0', '0'] + dec_of(n)
    } else if n < 100 {
        seq!['0', '0'] + dec_of(n)
    } else if n < 1000 {
        seq!['0'] + dec_of(n)
    } else {
        dec_of(n)
    }
}

/// `YYYY-MM-DD HH:MM:SS UTC`.
pub open spec fn timestamp_spec(t: Timestamp) -> Seq<char> {
    pad4(t.year as int) + seq!['-'] + pad2(t.month as int) + seq!['-'] + pad2(t.day as int)
        + seq![' '] + pad2(t.hour as int) + seq![':'] + pad2(t.minute as int) + seq![':'] + pad2(
        t.second as int,
    ) + " UTC"@
}

fn push_pad2(s: &mut String, n: u64)
    ensures
        final(s)@ == old(s)@ + pad2(n as int),
{
    let ghost base = s@;
    if n < 10 {
        push_char(s, '0');
        let d = u64_to_string(n);
        s.append(d.as_str());
        proof {
            assert(base.push('0') + dec_of(n as int) =~= base + (seq!['0'] + dec_of(n as int)));
        }
    } else {
        let d = u64_to_string(n);
        s.append(d.as_str());
    }
}

fn push_pad4(s: &mut String, n: u64)
    ensures
        final(s)@ == old(s)@ + pad4(n as int),
{
    let ghost base = s@;
    let d = u64_to_string(n);
    if n < 10 {
        s.append("000");
        s.append(d.as_str());
        proof {
            assert((base + "000"@) + dec_of(n as int) =~= base + (seq!['0', '0', '0'] + dec_of(
                n as int,
            ))) by {
                reveal_strlit("000");
            }
        }
    } else if n < 100 {
        s.append("00");
        s.append(d.as_str());
        proof {
            assert((base + "00"@) + dec_of(n as int) =~= base + (seq!['0', '0'] + dec_of(
                n as int,
            ))) by {
                reveal_strlit("00");
            }
        }
    } else if n < 1000 {
        s.append("0");
        s.append(d.as_str());
        proof {
            assert((base + "0"@) + dec_of(n as int) =~= base + (seq!['0'] + dec_of(n as int)))
                by {
                reveal_strlit("0");
            }
        }
    } else {
        s.append(d.as_str());
    }
}

pub fn format_timestamp(t: &Timestamp) -> (r: String)
    ensures
        r@ == timestamp_spec(*t),
{
    let mut s = String::new();
    push_pad4(&mut s, t.year);
    push_char(&mut s, '-');
    push_pad2(&mut s, t.month);
    push_char(&mut s, '-');
    push_pad2(&mut s, t.day);
    push_char(&mut s, ' ');
    push_pad2(&mut s, t.hour);
    push_char(&mut s, ':');
    push_pad2(&mut s, t.minute);
    push_char(&mut s, ':');
    push_pad2(&mut s, t.second);
    s.append(" UTC");
    proof {
        assert(s@ =~= timestamp_spec(*t));
    }
    s
}

// ---------------------------------------------------------------------------
// Rendering one record as a canonical document
// ---------------------------------------------------------------------------

/// The document body: the record name as a heading, the vendor metadata as
/// comment lines, then the raw body text.
pub open spec fn knowledge_content_spec(k: GKnowledge) -> Seq<char> {
    "# "@ + k.name + "\n\n<!-- Devin Knowledge ID: "@ + k.id + " -->\n<!-- Trigger: "@
        + k.trigger_description + " -->\n<!-- Created: "@ + timestamp_spec(k.created_at)
        + " -->\n\n"@ + k.body + "\n"@
}

pub fn knowledge_file_content(k: &Knowledge) -> (r: String)
    ensures
        r@ == knowledge_content_spec(k@),
{
    let mut s = "# ".to_owned();
    s.append(k.name.as_str());
    s.append("\n\n<!-- Devin Knowledge ID: ");
    s.append(k.id.as_str());
    s.append(" -->\n<!-- Trigger: ");
    s.append(k.trigger_description.as_str());
    s.append(" -->\n<!-- Created: ");
    let ts = format_timestamp(&k.created_at);
    s.append(ts.as_str());
    s.append(" -->\n\n");
    s.append(k.body.as_str());
    s.append("\n");
    s
}

/// Where one record lands in the canonical tree, and with what text.
pub open spec fn knowledge_doc_spec(k: GKnowledge) -> GDoc {
    GDoc { path: "devin/"@ + sanitize_spec(k.name) + ".md"@, text: knowledge_content_spec(k) }
}

pub open spec fn relevant_filter(items: Seq<GKnowledge>, names: Seq<Seq<char>>) -> Seq<GKnowledge>
    decreases items.len(),
{
    if items.len() == 0 {
        Seq::<GKnowledge>::empty()
    } else {
        let init = relevant_filter(items.drop_last(), names);
        if relevant_spec(items.last(), names) {
            init.push(items.last())
        } else {
            init
        }
    }
}

/// What a pull from the remote-knowledge vendor writes: one document per
/// relevant record, in the order the service returned them.
pub open spec fn devin_pull_spec(items: Seq<GKnowledge>, names: Seq<Seq<char>>) -> Seq<GDoc> {
    relevant_filter(items, names).map_values(|k: GKnowledge| knowledge_doc_spec(k))
}

pub fn pull_devin_plan(items: &Vec<Knowledge>, folder_names: &Vec<String>) -> (r: Vec<Doc>)
    ensures
        dv(r@) == devin_pull_spec(kv(items@), folder_names.deep_view()),
{
    let ghost names = folder_names.deep_view();
    let mut out: Vec<Doc> = Vec::new();
    proof {
        assert(kv(items@).take(0) =~= Seq::<GKnowledge>::empty());
        assert(dv(out@) =~~= devin_pull_spec(kv(items@).take(0), names));
    }
    let mut i: usize = 0;
    while i < items.len()
        invariant
            i <= items@.len(),
            names == folder_names.deep_view(),
            dv(out@) == devin_pull_spec(kv(items@).take(i as int), names),
        decreases items@.len() - i,
    {
        proof {
            assert(kv(items@).take(i as int + 1).drop_last() =~= kv(items@).take(i as int));
            assert(kv(items@).take(i as int + 1).last() == kv(items@)[i as int]);
        }
        if is_relevant_to_project(&items[i], folder_names) {
            let mut path = "devin/".to_owned();
            let safe = sanitize_filename(items[i].name.as_str());
            path.append(safe.as_str());
            path.append(".md");
            let text = knowledge_file_content(&items[i]);
            let ghost prev = dv(out@);
            let nd = Doc { path, text };
            proof {
                assert(nd@ =~~= knowledge_doc_spec(kv(items@)[i as int]));
            }
            out.push(nd);
            proof {
                assert(dv(out@) =~= prev.push(nd@));
                assert(dv(out@) =~~= devin_pull_spec(kv(items@).take(i as int + 1), names));
            }
        } else {
            proof {
                assert(dv(out@) =~~= devin_pull_spec(kv(items@).take(i as int + 1), names));
            }
        }
        i += 1;
    }
    proof {
        assert(kv(items@).take(kv(items@).len() as int) =~= kv(items@));
    }
    out
}

// ---------------------------------------------------------------------------
// Client configuration and reporting
// ---------------------------------------------------------------------------

/// The remote client needs the access credential; without it the pull stops
/// with a configuration error.
pub fn devin_client_init(api_key: Option<String>) -> (r: Result<String, SyncError>)
    ensures
        r is Ok <==> api_key is Some,
        r matches Ok(key) ==> api_key matches Some(given) && key@ == given@,
        r is Err ==> (r->Err_0 matches SyncError::Config { message } && message@
            == "DEVIN_API_KEY environment variable not set"@),
{
    match api_key {
        Some(key) => Ok(key),
        None => Err(
            SyncError::Config { message: "DEVIN_API_KEY environment variable not set".to_owned() },
        ),
    }
}

/// The closing line of the remote pull: how many records were written, out
/// of how many the service returned.
pub fn pull_devin_summary(pulled: usize, total: usize) -> (r: String)
    ensures
        r@ == "✅ Pulled "@ + dec_of(pulled as int) + " files from Devin (filtered from "@
            + dec_of(total as int) + " total)"@,
{
    let mut s = "✅ Pulled ".to_owned();
    let p = usize_to_string(pulled);
    s.append(p.as_str());
    s.append(" files from Devin (filtered from ");
    let t = usize_to_string(total);
    s.append(t.as_str());
    s.append(" total)");
    s
}

} // verus!
