//! Relative, slash-separated paths: splitting into segments, testing for a
//! reserved segment, and file-extension queries and rewriting.

use vstd::prelude::*;
use crate::text::{str_chars, string_of, chars_eq, push_char};

verus! {

// ---------------------------------------------------------------------------
// Splitting into segments
// ---------------------------------------------------------------------------

/// Split on a separator, keeping empty parts; the result always has at least
/// one element.
pub open spec fn split_char(s: Seq<char>, sep: char) -> Seq<Seq<char>>
    decreases s.len(),
{
    if s.len() == 0 {
        seq![Seq::<char>::empty()]
    } else if s.last() == sep {
        split_char(s.drop_last(), sep).push(Seq::<char>::empty())
    } else {
        let r = split_char(s.drop_last(), sep);
        r.update(r.len() - 1, r.last().push(s.last()))
    }
}

pub fn split_chars(v: &Vec<char>, sep: char) -> (r: Vec<Vec<char>>)
    ensures
        r.deep_view() == split_char(v@, sep),
{
    let mut r: Vec<Vec<char>> = Vec::new();
    r.push(Vec::new());
    proof {
        assert(v@.take(0) =~= Seq::<char>::empty());
        assert(r.deep_view() =~~= split_char(v@.take(0), sep));
    }
    let mut i: usize = 0;
    while i < v.len()
        invariant
            i <= v@.len(),
            r.deep_view() == split_char(v@.take(i as int), sep),
            r@.len() >= 1,
        decreases v@.len() - i,
    {
        let c = v[i];
        proof {
            assert(v@.take(i as int + 1).drop_last() =~= v@.take(i as int));
            assert(v@.take(i as int + 1).last() == v@[i as int]);
        }
        if c == sep {
            r.push(Vec::new());
            proof {
                assert(r.deep_view() =~~= split_char(v@.take(i as int), sep).push(
                    Seq::<char>::empty(),
                ));
            }
        } else {
            let mut w = r.pop().unwrap();
            w.push(c);
            r.push(w);
            proof {
                let prev = split_char(v@.take(i as int), sep);
                assert(r.deep_view() =~~= prev.update(prev.len() - 1, prev.last().push(c)));
            }
        }
        i += 1;
    }
    proof {
        assert(v@.take(v@.len() as int) =~= v@);
    }
    r
}

/// Whether some slash-separated segment of `p` equals `seg`.
pub open spec fn has_segment(p: Seq<char>, seg: Seq<char>) -> bool {
    split_char(p, '/').contains(seg)
}

pub fn path_has_segment(path: &str, seg: &str) -> (r: bool)
    ensures
        r == has_segment(path@, seg@),
{
    let chars = str_chars(path);
    let parts = split_chars(&chars, '/');
    let segc = str_chars(seg);
    let mut i: usize = 0;
    while i < parts.len()
        invariant
            i <= parts@.len(),
            parts.deep_view() == split_char(path@, '/'),
            segc@ == seg@,
            forall|k: int| 0 <= k < i ==> parts.deep_view()[k] != seg@,
        decreases parts@.len() - i,
    {
        proof {
            assert(parts.deep_view()[i as int] =~= parts@[i as int]@);
        }
        if chars_eq(&parts[i], &segc) {
            proof {
                assert(parts.deep_view()[i as int] == seg@);
            }
            return true;
        }
        i += 1;
    }
    proof {
        assert(!has_segment(path@, seg@)) by {
            if has_segment(path@, seg@) {
                let k = choose|k: int|
                    0 <= k < split_char(path@, '/').len() && split_char(path@, '/')[k] == seg@;
                assert(parts.deep_view()[k] == seg@);
            }
        }
    }
    false
}

// ---------------------------------------------------------------------------
// Extensions
// ---------------------------------------------------------------------------

/// The index of the dot that starts the extension of the final segment of
/// `p`, if the final segment has one. A dot that begins the segment does not
/// start an extension.
pub open spec fn rfind_dot(p: Seq<char>) -> Option<int>
    decreases p.len(),
{
    if p.len() == 0 {
        None
    } else if p.last() == '/' {
        None
    } else if p.last() == '.' {
        if p.len() == 1 || p[p.len() - 2] == '/' {
            None
        } else {
            Some((p.len() - 1) as int)
        }
    } else {
        rfind_dot(p.drop_last())
    }
}

pub proof fn lemma_rfind_dot_range(p: Seq<char>)
    ensures
        match rfind_dot(p) {
            Some(i) => 1 <= i < p.len() && p[i] == '.' && p[i - 1] != '/',
            None => true,
        },
    decreases p.len(),
{
    if p.len() > 0 && p.last() != '/' && p.last() != '.' {
        lemma_rfind_dot_range(p.drop_last());
    }
}

/// The path without its extension (and without the dot before it).
pub open spec fn strip_ext(p: Seq<char>) -> Seq<char> {
    match rfind_dot(p) {
        Some(i) => p.take(i),
        None => p,
    }
}

/// The path with its extension replaced (or appended) by `ext`.
pub open spec fn replace_ext(p: Seq<char>, ext: Seq<char>) -> Seq<char> {
    strip_ext(p) + seq!['.'] + ext
}

/// The extension of the final segment, without its dot.
pub open spec fn ext_of(p: Seq<char>) -> Option<Seq<char>> {
    match rfind_dot(p) {
        Some(i) => Some(p.skip(i + 1)),
        None => None,
    }
}

pub open spec fn has_ext(p: Seq<char>, ext: Seq<char>) -> bool {
    ext_of(p) == Some(ext)
}

fn rfind_dot_chars(v: &Vec<char>) -> (r: Option<usize>)
    ensures
        rfind_dot(v@) == (match r {
            Some(j) => Some(j as int),
            None => None::<int>,
        }),
{
    let mut j: usize = v.len();
    proof {
        assert(v@.take(v@.len() as int) =~= v@);
    }
    while j > 0
        invariant
            j <= v@.len(),
            rfind_dot(v@) == rfind_dot(v@.take(j as int)),
        decreases j,
    {
        let c = v[j - 1];
        proof {
            assert(v@.take(j as int).last() == v@[j - 1]);
            assert(v@.take(j as int).drop_last() =~= v@.take(j as int - 1));
        }
        if c == '/' {
            return None;
        }
        if c == '.' {
            if j == 1 || v[j - 2] == '/' {
                return None;
            }
            return Some(j - 1);
        }
        j -= 1;
    }
    None
}

pub fn path_has_ext(path: &str, ext: &str) -> (r: bool)
    ensures
        r == has_ext(path@, ext@),
{
    let chars = str_chars(path);
    proof {
        lemma_rfind_dot_range(chars@);
    }
    match rfind_dot_chars(&chars) {
        None => false,
        Some(j) => {
            let n = chars.len();
            let extc = str_chars(ext);
            let mut i: usize = j + 1;
            let mut tail: Vec<char> = Vec::new();
            while i < n
                invariant
                    j + 1 <= i <= n,
                    n == chars@.len(),
                    tail@ == chars@.subrange(j + 1, i as int),
                decreases n - i,
            {
                tail.push(chars[i]);
                proof {
                    assert(chars@.subrange(j + 1, i as int).push(chars@[i as int]) =~= chars@
                        .subrange(j + 1, i as int + 1));
                }
                i += 1;
            }
            proof {
                assert(chars@.subrange(j + 1, n as int) =~= chars@.skip(j + 1));
            }
            chars_eq(&tail, &extc)
        },
    }
}

pub fn path_strip_ext(path: &str) -> (r: String)
    ensures
        r@ == strip_ext(path@),
{
    let chars = str_chars(path);
    proof {
        lemma_rfind_dot_range(chars@);
    }
    match rfind_dot_chars(&chars) {
        None => {
            let r = string_of(&chars);
            r
        },
        Some(j) => {
            let mut out: Vec<char> = Vec::new();
            let mut i: usize = 0;
            while i < j
                invariant
                    i <= j,
                    j < chars@.len(),
                    out@ == chars@.take(i as int),
                decreases j - i,
            {
                out.push(chars[i]);
                proof {
                    assert(chars@.take(i as int).push(chars@[i as int]) =~= chars@.take(
                        i as int + 1,
                    ));
                }
                i += 1;
            }
            string_of(&out)
        },
    }
}

pub fn path_replace_ext(path: &str, ext: &str) -> (r: String)
    ensures
        r@ == replace_ext(path@, ext@),
{
    let mut r = path_strip_ext(path);
    push_char(&mut r, '.');
    r.append(ext);
    proof {
        assert(strip_ext(path@).push('.') =~= strip_ext(path@) + seq!['.']);
    }
    r
}

} // verus!
