use vstd::prelude::*;

use crate::tokenizer::{split_words, views, words};

verus! {

/// `t` is a prefix of `w`.
pub open spec fn is_prefix(t: Seq<char>, w: Seq<char>) -> bool {
    t.len() <= w.len() && w.subrange(0, t.len() as int) == t
}

/// Some word of `text` begins with `t`.
pub open spec fn has_word_with_prefix(text: Seq<char>, t: Seq<char>) -> bool {
    exists|k: int| 0 <= k < words(text).len() && is_prefix(t, #[trigger] words(text)[k])
}

/// Some word of `text` begins with one of the tokens `ts`.
pub open spec fn matches_any(text: Seq<char>, ts: Seq<Seq<char>>) -> bool {
    exists|j: int| 0 <= j < ts.len() && has_word_with_prefix(text, #[trigger] ts[j])
}

/// Whether `w` begins with `t`.
pub fn starts_with(w: &str, t: &str) -> (r: bool)
    ensures
        r == is_prefix(t@, w@),
{
    let n = t.unicode_len();
    let m = w.unicode_len();
    if n > m {
        return false;
    }
    let mut i: usize = 0;
    while i < n
        invariant
            n == t@.len(),
            m == w@.len(),
            n <= m,
            i <= n,
            forall|k: int| 0 <= k < i ==> w@[k] == t@[k],
        decreases n - i,
    {
        if w.get_char(i) != t.get_char(i) {
            assert(w@.subrange(0, n as int)[i as int] != t@[i as int]);
            return false;
        }
        i = i + 1;
    }
    assert(w@.subrange(0, n as int) =~= t@);
    true
}

/// Whether some word of `text` begins with one of `terms`.
pub fn text_matches(text: &str, terms: &Vec<String>) -> (r: bool)
    ensures
        r == matches_any(text@, views(terms@)),
{
    let ws = split_words(text);
    let ghost ts = views(terms@);
    let mut j: usize = 0;
    while j < terms.len()
        invariant
            j <= terms.len(),
            ts == views(terms@),
            views(ws@) == words(text@),
            forall|jj: int| 0 <= jj < j ==> !has_word_with_prefix(text@, #[trigger] ts[jj]),
        decreases terms.len() - j,
    {
        let mut k: usize = 0;
        while k < ws.len()
            invariant
                j < terms.len(),
                k <= ws.len(),
                ts == views(terms@),
                views(ws@) == words(text@),
                forall|kk: int| 0 <= kk < k ==> !is_prefix(ts[j as int], #[trigger] words(text@)[kk]),
            decreases ws.len() - k,
        {
            if starts_with(ws[k].as_str(), terms[j].as_str()) {
                assert(words(text@)[k as int] == ws@[k as int]@);
                assert(has_word_with_prefix(text@, ts[j as int]));
                return true;
            }
            assert(words(text@)[k as int] == ws@[k as int]@);
            k = k + 1;
        }
        j = j + 1;
    }
    false
}

} // verus!
