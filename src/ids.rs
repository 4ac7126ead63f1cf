use vstd::prelude::*;

verus! {

pub open spec fn is_digit(c: char) -> bool {
    '0' <= c && c <= '9'
}

pub open spec fn all_digits(d: Seq<char>) -> bool {
    forall|k: int| 0 <= k < d.len() ==> is_digit(#[trigger] d[k])
}

/// The value of a sequence of decimal digits.
pub open spec fn digits_value(d: Seq<char>) -> int
    decreases d.len(),
{
    if d.len() == 0 {
        0
    } else {
        10 * digits_value(d.drop_last()) + (d.last() as u32 - '0' as u32)
    }
}

/// The decimal integer that `i32::from_str` reads from `f`: an optional sign,
/// then one or more ASCII digits, with a value in the range of `i32`.
pub open spec fn parse_i32(f: Seq<char>) -> Option<i32> {
    let signed = f.len() > 0 && (f[0] == '-' || f[0] == '+');
    let d = if signed {
        f.drop_first()
    } else {
        f
    };
    let v = if f.len() > 0 && f[0] == '-' {
        -digits_value(d)
    } else {
        digits_value(d)
    };
    if d.len() == 0 || !all_digits(d) || v < i32::MIN || v > i32::MAX {
        None
    } else {
        Some(v as i32)
    }
}

/// The comma-separated fields of `s` from position `i` on, where `cur` is the
/// part of the current field read before `i`.
pub open spec fn fields_from(s: Seq<char>, i: int, cur: Seq<char>) -> Seq<Seq<char>>
    decreases s.len() - i,
{
    if i < 0 || i >= s.len() {
        seq![cur]
    } else if s[i] == ',' {
        seq![cur] + fields_from(s, i + 1, Seq::empty())
    } else {
        fields_from(s, i + 1, cur.push(s[i]))
    }
}

/// The pieces of `s` between commas (one piece for a string without commas).
pub open spec fn fields(s: Seq<char>) -> Seq<Seq<char>> {
    fields_from(s, 0, Seq::empty())
}

pub open spec fn parsed(f: Seq<char>) -> Seq<i32> {
    match parse_i32(f) {
        Some(v) => seq![v],
        None => Seq::empty(),
    }
}

/// The fields that parse as integers, parsed, in order; the others are dropped.
pub open spec fn parsed_ids(fs: Seq<Seq<char>>) -> Seq<i32>
    decreases fs.len(),
{
    if fs.len() == 0 {
        Seq::empty()
    } else {
        parsed(fs[0]) + parsed_ids(fs.drop_first())
    }
}

/// The identifiers requested by a comma-separated list.
pub open spec fn ids_of(s: Seq<char>) -> Seq<i32> {
    parsed_ids(fields(s))
}

proof fn lemma_digits_value_nonneg(d: Seq<char>)
    requires
        all_digits(d),
    ensures
        digits_value(d) >= 0,
    decreases d.len(),
{
    if d.len() > 0 {
        assert(is_digit(d[d.len() - 1]));
        lemma_digits_value_nonneg(d.drop_last());
    }
}

proof fn lemma_digits_value_prefix(d: Seq<char>, j: int)
    requires
        all_digits(d),
        0 <= j <= d.len(),
    ensures
        digits_value(d.subrange(0, j)) <= digits_value(d),
    decreases d.len(),
{
    if j == d.len() {
        assert(d.subrange(0, j) =~= d);
    } else {
        assert(d.drop_last().subrange(0, j) =~= d.subrange(0, j));
        assert(is_digit(d[d.len() - 1]));
        lemma_digits_value_prefix(d.drop_last(), j);
        lemma_digits_value_nonneg(d.drop_last());
    }
}

/// Parses the characters of `s` from `from` up to `to` as `i32::from_str` does.
pub fn parse_i32_field(s: &str, from: usize, to: usize) -> (r: Option<i32>)
    requires
        from <= to <= s@.len(),
    ensures
        r == parse_i32(s@.subrange(from as int, to as int)),
{
    let ghost f = s@.subrange(from as int, to as int);
    if from == to {
        return None;
    }
    let c0 = s.get_char(from);
    let neg = c0 == '-';
    let start = if c0 == '-' || c0 == '+' {
        from + 1
    } else {
        from
    };
    let ghost d = s@.subrange(start as int, to as int);
    assert(c0 == '-' || c0 == '+' ==> d =~= f.drop_first());
    assert(!(c0 == '-' || c0 == '+') ==> d =~= f);
    if start == to {
        return None;
    }
    let mut v: i64 = 0;
    let mut i: usize = start;
    assert(s@.subrange(start as int, start as int) =~= Seq::<char>::empty());
    while i < to
        invariant
            start <= i <= to <= s@.len(),
            d == s@.subrange(start as int, to as int),
            f == s@.subrange(from as int, to as int),
            f.len() > 0 && f[0] == c0,
            neg == (c0 == '-'),
            c0 == '-' || c0 == '+' ==> d == f.drop_first(),
            !(c0 == '-' || c0 == '+') ==> d == f,
            all_digits(s@.subrange(start as int, i as int)),
            v == digits_value(s@.subrange(start as int, i as int)),
            0 <= v <= 2147483648,
        decreases to - i,
    {
        let c = s.get_char(i);
        let ghost p = s@.subrange(start as int, i as int);
        let ghost q = s@.subrange(start as int, i + 1);
        assert(q.drop_last() =~= p);
        assert(q.last() == c);
        if !('0' <= c && c <= '9') {
            assert(d[i - start] == c);
            return None;
        }
        assert(all_digits(q));
        v = v * 10 + (c as u32 - '0' as u32) as i64;
        i = i + 1;
        if v > 2147483648 {
            proof {
                if all_digits(d) {
                    assert(d.subrange(0, q.len() as int) =~= q);
                    lemma_digits_value_prefix(d, q.len() as int);
                }
            }
            assert(!all_digits(d) || digits_value(d) > 2147483648);
            return None;
        }
    }
    assert(s@.subrange(start as int, i as int) =~= d);
    if neg {
        v = -v;
    }
    if v < -2147483648 || v > 2147483647 {
        None
    } else {
        Some(v as i32)
    }
}

/// The integers of a comma-separated list, in order; a piece that does not
/// parse as an `i32` is dropped.
pub fn parse_id_list(s: &str) -> (r: Vec<i32>)
    ensures
        r@ == ids_of(s@),
{
    let n = s.unicode_len();
    let mut out: Vec<i32> = Vec::new();
    let mut start: usize = 0;
    let mut i: usize = 0;
    assert(s@.subrange(0, 0) =~= Seq::<char>::empty());
    assert(out@ + ids_of(s@) =~= ids_of(s@));
    while i < n
        invariant
            n == s@.len(),
            start <= i <= n,
            out@ + parsed_ids(fields_from(s@, i as int, s@.subrange(start as int, i as int)))
                == ids_of(s@),
        decreases n - i,
    {
        let c = s.get_char(i);
        let ghost cur = s@.subrange(start as int, i as int);
        if c == ',' {
            let ghost rest = fields_from(s@, i + 1, Seq::empty());
            assert((seq![cur] + rest)[0] == cur);
            assert((seq![cur] + rest).drop_first() =~= rest);
            let ghost before = out@;
            match parse_i32_field(s, start, i) {
                Some(v) => out.push(v),
                None => {},
            }
            assert(out@ =~= before + parsed(cur));
            start = i + 1;
            assert(s@.subrange(start as int, start as int) =~= Seq::<char>::empty());
        } else {
            assert(cur.push(c) =~= s@.subrange(start as int, i + 1));
        }
        i = i + 1;
    }
    let ghost cur = s@.subrange(start as int, n as int);
    assert(seq![cur].drop_first() =~= Seq::<Seq<char>>::empty());
    assert(parsed_ids(Seq::<Seq<char>>::empty()) == Seq::<i32>::empty());
    assert(parsed_ids(seq![cur]) =~= parsed(cur));
    assert(fields_from(s@, n as int, cur) == seq![cur]);
    let ghost before = out@;
    match parse_i32_field(s, start, n) {
        Some(v) => out.push(v),
        None => {},
    }
    assert(out@ =~= before + parsed(cur));
    out
}

} // verus!
