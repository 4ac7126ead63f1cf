use vstd::prelude::*;

verus! {

/// The characters that `char::is_whitespace` accepts (Unicode `White_Space`).
pub open spec fn is_space(c: char) -> bool {
    ||| c == '\t'
    ||| c == '\n'
    ||| c == '\u{0B}'
    ||| c == '\u{0C}'
    ||| c == '\r'
    ||| c == ' '
    ||| c == '\u{85}'
    ||| c == '\u{A0}'
    ||| c == '\u{1680}'
    ||| ('\u{2000}' <= c && c <= '\u{200A}')
    ||| c == '\u{2028}'
    ||| c == '\u{2029}'
    ||| c == '\u{202F}'
    ||| c == '\u{205F}'
    ||| c == '\u{3000}'
}

/// The word collected so far, as a sequence of zero or one words.
pub open spec fn emit(cur: Seq<char>) -> Seq<Seq<char>> {
    if cur.len() == 0 {
        Seq::empty()
    } else {
        seq![cur]
    }
}

/// The words of `s` from position `i` on, where `cur` is the part of a word
/// already read before `i`.
pub open spec fn words_from(s: Seq<char>, i: int, cur: Seq<char>) -> Seq<Seq<char>>
    decreases s.len() - i,
{
    if i < 0 || i >= s.len() {
        emit(cur)
    } else if is_space(s[i]) {
        emit(cur) + words_from(s, i + 1, Seq::empty())
    } else {
        words_from(s, i + 1, cur.push(s[i]))
    }
}

/// The maximal runs of non-whitespace characters of `s`, in order.
pub open spec fn words(s: Seq<char>) -> Seq<Seq<char>> {
    words_from(s, 0, Seq::empty())
}

pub open spec fn views(v: Seq<String>) -> Seq<Seq<char>> {
    v.map_values(|w: String| w@)
}

/// Whether `c` is whitespace, as `char::is_whitespace` decides it.
pub fn is_whitespace_char(c: char) -> (r: bool)
    ensures
        r == is_space(c),
{
    c == '\t' || c == '\n' || c == '\u{0B}' || c == '\u{0C}' || c == '\r' || c == ' '
        || c == '\u{85}' || c == '\u{A0}' || c == '\u{1680}' || ('\u{2000}' <= c && c
        <= '\u{200A}') || c == '\u{2028}' || c == '\u{2029}' || c == '\u{202F}' || c
        == '\u{205F}' || c == '\u{3000}'
}

/// Splits `s` on whitespace into its words, dropping empty pieces.
pub fn split_words(s: &str) -> (r: Vec<String>)
    ensures
        views(r@) == words(s@),
{
    let n = s.unicode_len();
    let mut out: Vec<String> = Vec::new();
    let mut start: usize = 0;
    let mut i: usize = 0;
    assert(views(out@) =~= Seq::<Seq<char>>::empty());
    assert(s@.subrange(0, 0) =~= Seq::<char>::empty());
    assert(Seq::<Seq<char>>::empty() + words(s@) =~= words(s@));
    while i < n
        invariant
            n == s@.len(),
            start <= i <= n,
            views(out@) + words_from(s@, i as int, s@.subrange(start as int, i as int)) == words(
                s@,
            ),
        decreases n - i,
    {
        let c = s.get_char(i);
        if is_whitespace_char(c) {
            let ghost before = views(out@);
            if start < i {
                let w = s.substring_char(start, i);
                out.push(String::from_str(w));
                assert(views(out@) =~= before + emit(s@.subrange(start as int, i as int)));
            } else {
                assert(views(out@) =~= before + emit(s@.subrange(start as int, i as int)));
            }
            start = i + 1;
            assert(s@.subrange(start as int, start as int) =~= Seq::<char>::empty());
        } else {
            assert(s@.subrange(start as int, i as int).push(c) =~= s@.subrange(
                start as int,
                i + 1,
            ));
        }
        i = i + 1;
    }
    let ghost before = views(out@);
    if start < n {
        let w = s.substring_char(start, n);
        out.push(String::from_str(w));
    }
    assert(views(out@) =~= before + emit(s@.subrange(start as int, n as int)));
    out
}

/// How a search phrase constrains the text of a record.
pub enum PhraseModel {
    Absent,
    EmptyPresent,
    Tokens(Seq<Seq<char>>),
}

/// A tokenized search phrase: no phrase, a phrase without words, or its words.
pub enum Phrase {
    Absent,
    EmptyPresent,
    Tokens(Vec<String>),
}

impl View for Phrase {
    type V = PhraseModel;

    open spec fn view(&self) -> PhraseModel {
        match self {
            Phrase::Absent => PhraseModel::Absent,
            Phrase::EmptyPresent => PhraseModel::EmptyPresent,
            Phrase::Tokens(ws) => PhraseModel::Tokens(views(ws@)),
        }
    }
}

/// The phrase state of an optional raw phrase.
pub open spec fn phrase_of(q: Option<Seq<char>>) -> PhraseModel {
    match q {
        None => PhraseModel::Absent,
        Some(s) => if words(s).len() == 0 {
            PhraseModel::EmptyPresent
        } else {
            PhraseModel::Tokens(words(s))
        },
    }
}

/// Turns an optional raw phrase into its phrase state.
pub fn tokenize(q: &Option<String>) -> (r: Phrase)
    ensures
        r@ == phrase_of(q.deep_view()),
{
    match q {
        None => Phrase::Absent,
        Some(s) => {
            let ws = split_words(s.as_str());
            if ws.len() == 0 {
                Phrase::EmptyPresent
            } else {
                Phrase::Tokens(ws)
            }
        },
    }
}

/// Characters that the text-search query language treats specially inside a
/// quoted lexeme: the quote itself and the backslash.
pub open spec fn needs_escape(c: char) -> bool {
    c == '\'' || c == '\\'
}

pub open spec fn escape_char(c: char) -> Seq<char> {
    if needs_escape(c) {
        seq![c, c]
    } else {
        seq![c]
    }
}

/// `t` with each quote and backslash doubled.
pub open spec fn escape(t: Seq<char>) -> Seq<char>
    decreases t.len(),
{
    if t.len() == 0 {
        Seq::empty()
    } else {
        escape_char(t[0]) + escape(t.drop_first())
    }
}

/// A token as a quoted lexeme that matches every word it is a prefix of.
pub open spec fn term(t: Seq<char>) -> Seq<char> {
    seq!['\''] + escape(t) + seq!['\'', ':', '*']
}

/// The tokens as prefix terms, joined by the OR operator.
pub open spec fn ts_query(ts: Seq<Seq<char>>) -> Seq<char>
    decreases ts.len(),
{
    if ts.len() == 0 {
        Seq::empty()
    } else if ts.len() == 1 {
        term(ts[0])
    } else {
        ts_query(ts.drop_last()) + seq![' ', '|', ' '] + term(ts.last())
    }
}

pub proof fn lemma_escape_push(t: Seq<char>, c: char)
    ensures
        escape(t.push(c)) == escape(t) + escape_char(c),
    decreases t.len(),
{
    if t.len() == 0 {
        assert(seq![c].drop_first() =~= Seq::<char>::empty());
        assert(escape(seq![c].drop_first()) =~= Seq::<char>::empty());
        assert(escape(seq![c]) =~= escape_char(c));
        assert(t.push(c) =~= seq![c]);
    } else {
        assert(t.push(c).drop_first() =~= t.drop_first().push(c));
        lemma_escape_push(t.drop_first(), c);
        assert(escape(t.push(c)) =~= escape(t) + escape_char(c));
    }
}

/// Escapes one token: doubles each quote and backslash.
pub fn escape_token(t: &str) -> (r: String)
    ensures
        r@ == escape(t@),
{
    let n = t.unicode_len();
    let mut out = String::new();
    let mut i: usize = 0;
    while i < n
        invariant
            n == t@.len(),
            i <= n,
            out@ == escape(t@.subrange(0, i as int)),
        decreases n - i,
    {
        let c = t.get_char(i);
        let piece = t.substring_char(i, i + 1);
        assert(piece@ =~= seq![c]);
        proof {
            lemma_escape_push(t@.subrange(0, i as int), c);
            assert(t@.subrange(0, i as int).push(c) =~= t@.subrange(0, i + 1));
        }
        if c == '\'' || c == '\\' {
            out.append(piece);
        }
        out.append(piece);
        i = i + 1;
    }
    assert(t@.subrange(0, n as int) =~= t@);
    out
}

/// Renders tokens as a text-search query that matches any word having one of
/// the tokens as a prefix.
pub fn ts_query_terms(ts: &Vec<String>) -> (r: String)
    ensures
        r@ == ts_query(views(ts@)),
{
    let mut out = String::new();
    let mut i: usize = 0;
    while i < ts.len()
        invariant
            i <= ts.len(),
            out@ == ts_query(views(ts@).subrange(0, i as int)),
        decreases ts.len() - i,
    {
        proof {
            reveal_strlit("'");
            reveal_strlit("':*");
            reveal_strlit(" | ");
        }
        let ghost prev = views(ts@).subrange(0, i as int);
        let ghost next = views(ts@).subrange(0, i + 1);
        assert(next.drop_last() =~= prev);
        if i > 0 {
            out.append(" | ");
        }
        out.append("'");
        let e = escape_token(ts[i].as_str());
        out.append(e.as_str());
        out.append("':*");
        assert(next.last() == ts@[i as int]@);
        if i == 0 {
            assert(out@ =~= term(next.last()));
        } else {
            assert(out@ =~= ts_query(prev) + seq![' ', '|', ' '] + term(next.last()));
        }
        i = i + 1;
    }
    assert(views(ts@).subrange(0, ts.len() as int) =~= views(ts@));
    out
}

/// Puts `c` in front of a lexeme read by `read_quoted`, which used `k` more
/// characters.
pub open spec fn read_more(c: char, r: Option<(Seq<char>, int)>, k: int) -> Option<
    (Seq<char>, int),
> {
    match r {
        Some((d, n)) => Some((seq![c] + d, n + k)),
        None => None,
    }
}

/// Reads the inside of a quoted lexeme of the text-search query language from
/// the start of `s` (just after the opening quote): a backslash takes the next
/// character as it is, two quotes stand for one, and a single quote closes the
/// lexeme. Gives the lexeme and the number of characters used, closing quote
/// included, or `None` where `s` ends first.
pub open spec fn read_quoted(s: Seq<char>) -> Option<(Seq<char>, int)>
    decreases s.len(),
{
    if s.len() == 0 {
        None
    } else if s[0] == '\\' {
        if s.len() < 2 {
            None
        } else {
            read_more(s[1], read_quoted(s.subrange(2, s.len() as int)), 2)
        }
    } else if s[0] == '\'' {
        if s.len() >= 2 && s[1] == '\'' {
            read_more('\'', read_quoted(s.subrange(2, s.len() as int)), 2)
        } else {
            Some((Seq::empty(), 1))
        }
    } else {
        read_more(s[0], read_quoted(s.drop_first()), 1)
    }
}

/// Reads a text-search query made of quoted prefix terms joined by ` | `, as
/// `ts_query` writes them: gives the tokens, or `None` where `s` has another
/// shape.
pub open spec fn read_terms(s: Seq<char>) -> Option<Seq<Seq<char>>>
    decreases s.len(),
{
    if s.len() == 0 || s[0] != '\'' {
        None
    } else {
        match read_quoted(s.drop_first()) {
            None => None,
            Some((t, n)) => if n < 0 || n + 1 > s.len() {
                None
            } else {
                let after = s.subrange(n + 1, s.len() as int);
                if after.len() < 2 || after[0] != ':' || after[1] != '*' {
                    None
                } else if after.len() == 2 {
                    Some(seq![t])
                } else if after.len() >= 5 && after[2] == ' ' && after[3] == '|' && after[4] == ' ' {
                    match read_terms(after.subrange(5, after.len() as int)) {
                        Some(ts) => Some(seq![t] + ts),
                        None => None,
                    }
                } else {
                    None
                }
            },
        }
    }
}

} // verus!
