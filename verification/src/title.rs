//! Section titles: a document's relative path with its extension stripped,
//! separators spelled ` / `, hyphens as spaces, and each word capitalized on
//! its first character.

use vstd::prelude::*;
use crate::text::{is_ws, is_ws_char, upper_of, uppercase_char, str_chars, push_char};
use crate::paths::{strip_ext, path_strip_ext};

verus! {

/// Path separators become ` / `, hyphens become spaces.
pub open spec fn expand_char(c: char) -> Seq<char> {
    if c == '/' {
        seq![' ', '/', ' ']
    } else if c == '-' {
        seq![' ']
    } else {
        seq![c]
    }
}

pub open spec fn expand(s: Seq<char>) -> Seq<char>
    decreases s.len(),
{
    if s.len() == 0 {
        Seq::<char>::empty()
    } else {
        expand(s.drop_last()) + expand_char(s.last())
    }
}

/// The whitespace-delimited words of `s`, in order, each non-empty run of
/// non-whitespace characters making one word.
pub open spec fn words_of(s: Seq<char>) -> Seq<Seq<char>>
    decreases s.len(),
{
    if s.len() == 0 {
        Seq::<Seq<char>>::empty()
    } else if is_ws(s.last()) {
        words_of(s.drop_last())
    } else if s.len() == 1 || is_ws(s[s.len() - 2]) {
        words_of(s.drop_last()).push(seq![s.last()])
    } else {
        let r = words_of(s.drop_last());
        r.update(r.len() - 1, r.last().push(s.last()))
    }
}

proof fn lemma_words_nonempty(s: Seq<char>)
    requires
        s.len() > 0,
        !is_ws(s.last()),
    ensures
        words_of(s).len() >= 1,
    decreases s.len(),
{
    if s.len() == 1 || is_ws(s[s.len() - 2]) {
    } else {
        lemma_words_nonempty(s.drop_last());
    }
}

/// The word with its first character capitalized.
pub open spec fn cap_word(w: Seq<char>) -> Seq<char> {
    if w.len() == 0 {
        w
    } else {
        upper_of(w[0]) + w.drop_first()
    }
}

/// The words joined by single spaces.
pub open spec fn join_words(ws: Seq<Seq<char>>) -> Seq<char>
    decreases ws.len(),
{
    if ws.len() == 0 {
        Seq::<char>::empty()
    } else if ws.len() == 1 {
        ws[0]
    } else {
        join_words(ws.drop_last()) + seq![' '] + ws.last()
    }
}

/// The section heading derived from a document path.
pub open spec fn section_title(p: Seq<char>) -> Seq<char> {
    join_words(words_of(expand(strip_ext(p))).map_values(|w: Seq<char>| cap_word(w)))
}

fn expand_chars(chars: &Vec<char>) -> (r: Vec<char>)
    ensures
        r@ == expand(chars@),
{
    let mut ex: Vec<char> = Vec::new();
    proof {
        assert(chars@.take(0) =~= Seq::<char>::empty());
    }
    let mut i: usize = 0;
    while i < chars.len()
        invariant
            i <= chars@.len(),
            ex@ == expand(chars@.take(i as int)),
        decreases chars@.len() - i,
    {
        let c = chars[i];
        proof {
            assert(chars@.take(i as int + 1).drop_last() =~= chars@.take(i as int));
            assert(chars@.take(i as int + 1).last() == chars@[i as int]);
        }
        if c == '/' {
            ex.push(' ');
            ex.push('/');
            ex.push(' ');
            proof {
                assert(ex@ =~= expand(chars@.take(i as int)) + expand_char(c));
            }
        } else if c == '-' {
            ex.push(' ');
            proof {
                assert(ex@ =~= expand(chars@.take(i as int)) + expand_char(c));
            }
        } else {
            ex.push(c);
            proof {
                assert(ex@ =~= expand(chars@.take(i as int)) + expand_char(c));
            }
        }
        i += 1;
    }
    proof {
        assert(chars@.take(chars@.len() as int) =~= chars@);
    }
    ex
}

fn split_words(ex: &Vec<char>) -> (r: Vec<Vec<char>>)
    ensures
        r.deep_view() == words_of(ex@),
{
    let mut words: Vec<Vec<char>> = Vec::new();
    proof {
        assert(ex@.take(0) =~= Seq::<char>::empty());
        assert(words.deep_view() =~~= words_of(ex@.take(0)));
    }
    let mut i: usize = 0;
    while i < ex.len()
        invariant
            i <= ex@.len(),
            words.deep_view() == words_of(ex@.take(i as int)),
        decreases ex@.len() - i,
    {
        let c = ex[i];
        proof {
            assert(ex@.take(i as int + 1).drop_last() =~= ex@.take(i as int));
            assert(ex@.take(i as int + 1).last() == ex@[i as int]);
        }
        if is_ws_char(c) {
        } else if i == 0 || is_ws_char(ex[i - 1]) {
            let mut w: Vec<char> = Vec::new();
            w.push(c);
            words.push(w);
            proof {
                assert(words.deep_view() =~~= words_of(ex@.take(i as int)).push(seq![c]));
            }
        } else {
            proof {
                lemma_words_nonempty(ex@.take(i as int));
            }
            let mut w = words.pop().unwrap();
            w.push(c);
            words.push(w);
            proof {
                let prev = words_of(ex@.take(i as int));
                assert(words.deep_view() =~~= prev.update(prev.len() - 1, prev.last().push(c)));
            }
        }
        i += 1;
    }
    proof {
        assert(ex@.take(ex@.len() as int) =~= ex@);
    }
    words
}

pub fn section_title_of(path: &str) -> (r: String)
    ensures
        r@ == section_title(path@),
{
    let stripped = path_strip_ext(path);
    let chars = str_chars(stripped.as_str());
    let ex = expand_chars(&chars);
    let words = split_words(&ex);
    let ghost mapped = words.deep_view().map_values(|w: Seq<char>| cap_word(w));
    let mut r = String::new();
    proof {
        assert(join_words(mapped.take(0)) =~= Seq::<char>::empty());
    }
    let mut k: usize = 0;
    while k < words.len()
        invariant
            k <= words@.len(),
            mapped == words.deep_view().map_values(|w: Seq<char>| cap_word(w)),
            words.deep_view() == words_of(expand(strip_ext(path@))),
            r@ == join_words(mapped.take(k as int)),
        decreases words@.len() - k,
    {
        proof {
            assert(mapped.take(k as int + 1).drop_last() =~= mapped.take(k as int));
            assert(mapped.take(k as int + 1).last() == mapped[k as int]);
            assert(words.deep_view()[k as int] =~= words@[k as int]@);
        }
        if k > 0 {
            push_char(&mut r, ' ');
        }
        let w = &words[k];
        let n = w.len();
        if n > 0 {
            let up = uppercase_char(w[0]);
            r.append(up.as_str());
            let mut t: usize = 1;
            let ghost base = r@;
            while t < n
                invariant
                    1 <= t <= n,
                    n == w@.len(),
                    r@ == base + w@.subrange(1, t as int),
                decreases n - t,
            {
                push_char(&mut r, w[t]);
                proof {
                    assert(base + w@.subrange(1, t as int).push(w@[t as int]) =~= base + w@
                        .subrange(1, t as int + 1));
                    assert((base + w@.subrange(1, t as int)).push(w@[t as int]) =~= base + w@
                        .subrange(1, t as int).push(w@[t as int]));
                }
                t += 1;
            }
            proof {
                assert(w@.subrange(1, n as int) =~= w@.drop_first());
                assert(cap_word(words.deep_view()[k as int]) =~= upper_of(w@[0]) + w@
                    .drop_first());
            }
        } else {
            proof {
                assert(cap_word(words.deep_view()[k as int]) =~= Seq::<char>::empty());
            }
        }
        proof {
            if k == 0 {
                assert(r@ =~= join_words(mapped.take(1)));
            } else {
                assert(r@ =~= join_words(mapped.take(k as int)) + seq![' '] + mapped[k as int]);
            }
        }
        k += 1;
    }
    proof {
        assert(mapped.take(words@.len() as int) =~= mapped);
    }
    r
}

} // verus!
