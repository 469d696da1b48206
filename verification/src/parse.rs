use vstd::prelude::*;

verus! {

/// The pieces of `s` between the separators, as `str::split` gives them: one more
/// piece than there are separators, empty pieces kept.
pub open spec fn split_on(s: Seq<u8>, sep: u8) -> Seq<Seq<u8>>
    decreases s.len(),
{
    if s.len() == 0 {
        seq![Seq::<u8>::empty()]
    } else {
        let rest = split_on(s.drop_last(), sep);
        if s.last() == sep {
            rest.push(Seq::<u8>::empty())
        } else {
            rest.update(rest.len() - 1, rest.last().push(s.last()))
        }
    }
}

proof fn lemma_split_nonempty(s: Seq<u8>, sep: u8)
    ensures
        split_on(s, sep).len() >= 1,
    decreases s.len(),
{
    if s.len() > 0 {
        lemma_split_nonempty(s.drop_last(), sep);
    }
}

pub proof fn lemma_split_on_len(s: Seq<u8>, sep: u8)
    ensures
        split_on(s, sep).len() >= 1,
{
    lemma_split_nonempty(s, sep);
}

/// The views of a vector of byte vectors.
pub open spec fn views(v: Seq<Vec<u8>>) -> Seq<Seq<u8>> {
    v.map_values(|x: Vec<u8>| x@)
}

/// Splits bytes at each separator, as `split_on` says.
pub fn split_bytes(s: &[u8], sep: u8) -> (r: Vec<Vec<u8>>)
    ensures
        views(r@) == split_on(s@, sep),
        r@.len() >= 1,
{
    let mut out: Vec<Vec<u8>> = Vec::new();
    let mut cur: Vec<u8> = Vec::new();
    let mut i: usize = 0;
    proof {
        assert(s@.take(0) =~= Seq::<u8>::empty());
        assert(views(out@).push(cur@) =~= split_on(s@.take(0), sep));
    }
    while i < s.len()
        invariant
            i <= s@.len(),
            views(out@).push(cur@) == split_on(s@.take(i as int), sep),
        decreases s@.len() - i,
    {
        let b = s[i];
        proof {
            assert(s@.take(i + 1).drop_last() =~= s@.take(i as int));
            assert(s@.take(i + 1).last() == b);
        }
        let ghost before_out = views(out@);
        let ghost before_cur = cur@;
        if b == sep {
            let piece = cur;
            out.push(piece);
            cur = Vec::new();
            proof {
                assert(views(out@) =~= before_out.push(before_cur));
                assert(views(out@).push(cur@) =~= before_out.push(before_cur).push(Seq::<u8>::empty()));
            }
        } else {
            cur.push(b);
            proof {
                assert(views(out@) =~= before_out);
                assert(views(out@).push(cur@) =~= before_out.push(before_cur).update(
                    before_out.len() as int,
                    before_cur.push(b),
                ));
            }
        }
        i = i + 1;
    }
    let ghost before_out = views(out@);
    out.push(cur);
    proof {
        assert(s@.take(s@.len() as int) =~= s@);
        assert(views(out@) =~= before_out.push(out@[out@.len() - 1]@));
    }
    out
}

pub open spec fn is_digit(b: u8) -> bool {
    48 <= b <= 57
}

pub open spec fn all_digits(s: Seq<u8>) -> bool {
    forall|i: int| 0 <= i < s.len() ==> is_digit(#[trigger] s[i])
}

/// The number that decimal digits write.
pub open spec fn digits_value(s: Seq<u8>) -> nat
    decreases s.len(),
{
    if s.len() == 0 {
        0
    } else {
        digits_value(s.drop_last()) * 10 + (s.last() - 48) as nat
    }
}

/// An unsigned number as `str::parse` reads it for an unsigned integer type whose
/// largest value is `max`: an optional `+`, then at least one decimal digit, the
/// value at most `max`.
pub open spec fn parse_uint(s: Seq<u8>, max: int) -> Option<nat> {
    let d = if s.len() > 0 && s[0] == 43 {
        s.drop_first()
    } else {
        s
    };
    if d.len() > 0 && all_digits(d) && digits_value(d) <= max {
        Some(digits_value(d))
    } else {
        None
    }
}

proof fn lemma_digits_prefix(s: Seq<u8>, i: int)
    requires
        all_digits(s),
        0 <= i <= s.len(),
    ensures
        digits_value(s.take(i)) <= digits_value(s),
    decreases s.len() - i,
{
    if i < s.len() {
        lemma_digits_prefix(s, i + 1);
        assert(s.take(i + 1).drop_last() =~= s.take(i));
    } else {
        assert(s.take(i) =~= s);
    }
}

/// Reads an unsigned number, as `parse_uint` says.
pub fn parse_unsigned(s: &[u8], max: usize) -> (r: Option<usize>)
    ensures
        match parse_uint(s@, max as int) {
            Some(v) => r == Some(v as usize),
            None => r is None,
        },
{
    let mut start: usize = 0;
    if s.len() > 0 && s[0] == 43u8 {
        start = 1;
    }
    let ghost d = if s@.len() > 0 && s@[0] == 43 {
        s@.drop_first()
    } else {
        s@
    };
    proof {
        assert(d =~= s@.subrange(start as int, s@.len() as int));
    }
    if start >= s.len() {
        return None;
    }
    let mut v: usize = 0;
    let mut i: usize = start;
    while i < s.len()
        invariant
            start <= i <= s@.len(),
            d == s@.subrange(start as int, s@.len() as int),
            d == (if s@.len() > 0 && s@[0] == 43 {
                s@.drop_first()
            } else {
                s@
            }),
            all_digits(d.take(i - start)),
            v == digits_value(d.take(i - start)),
            v <= max,
        decreases s@.len() - i,
    {
        let b = s[i];
        proof {
            assert(d.take(i - start + 1).drop_last() =~= d.take(i - start));
            assert(d.take(i - start + 1).last() == b);
        }
        if b < 48u8 || b > 57u8 {
            proof {
                assert(d[i - start] == b);
                assert(!is_digit(d[i - start]));
            }
            return None;
        }
        let digit = (b - 48u8) as usize;
        proof {
            assert(d[i - start] == b);
            assert(digits_value(d.take(i - start + 1)) == digits_value(d.take(i - start)) * 10 + digit);
        }
        if digit > max {
            proof {
                if all_digits(d) {
                    lemma_digits_prefix(d, i - start + 1);
                }
            }
            return None;
        }
        if v > (max - digit) / 10 {
            proof {
                assert(v * 10 + digit > max) by (nonlinear_arith)
                    requires
                        v > (max - digit) / 10,
                        digit <= max,
                ;
                if all_digits(d) {
                    lemma_digits_prefix(d, i - start + 1);
                }
            }
            return None;
        }
        proof {
            assert(v * 10 + digit <= max) by (nonlinear_arith)
                requires
                    v <= (max - digit) / 10,
                    digit <= max,
            ;
            assert(all_digits(d.take(i - start + 1)));
        }
        v = v * 10 + digit;
        i = i + 1;
    }
    proof {
        assert(d.take(i - start) =~= d);
    }
    Some(v)
}

/// The decimal digits of a number, without leading zeros.
pub fn format_unsigned(v: usize) -> (r: Vec<u8>)
    ensures
        r@.len() >= 1,
        all_digits(r@),
        digits_value(r@) == v,
        r@.len() > 1 ==> r@[0] != 48,
        v > 0 ==> r@[0] != 48,
    decreases v,
{
    if v < 10 {
        let mut r: Vec<u8> = Vec::new();
        r.push(48u8 + v as u8);
        proof {
            assert(r@.drop_last() =~= Seq::<u8>::empty());
            assert(r@.last() == 48 + v);
            assert(digits_value(Seq::<u8>::empty()) == 0);
            assert(digits_value(r@) == digits_value(r@.drop_last()) * 10 + (r@.last() - 48) as nat);
        }
        r
    } else {
        let mut r = format_unsigned(v / 10);
        let ghost before = r@;
        r.push(48u8 + (v % 10) as u8);
        proof {
            assert(r@.drop_last() =~= before);
            assert(r@.last() == 48 + v % 10);
            assert(r@[0] == before[0]);
            assert(v / 10 > 0);
        }
        r
    }
}

/// Writing a number and reading it back gives the number.
pub proof fn lemma_format_then_parse(digits: Seq<u8>, v: nat, max: int)
    requires
        digits.len() >= 1,
        all_digits(digits),
        digits_value(digits) == v,
        v <= max,
    ensures
        parse_uint(digits, max) == Some(v),
{
}

/// Digits of zero without a leading zero are the single digit `0`.
pub proof fn lemma_zero_digits(d: Seq<u8>)
    requires
        all_digits(d),
        d.len() >= 1,
        d.len() > 1 ==> d[0] != 48u8,
        digits_value(d) == 0,
    ensures
        d == seq![48u8],
{
    if d.len() > 1 {
        lemma_leading_digit_bound(d);
    }
    assert(d.drop_last() =~= Seq::<u8>::empty());
    assert(d =~= seq![48u8]);
}

/// Digits that start with a nonzero digit write a nonzero number.
pub proof fn lemma_leading_digit_bound(s: Seq<u8>)
    requires
        s.len() >= 1,
        all_digits(s),
        s[0] != 48,
    ensures
        digits_value(s) > 0,
    decreases s.len(),
{
    if s.len() > 1 {
        assert(s.drop_last()[0] == s[0]);
        lemma_leading_digit_bound(s.drop_last());
    } else {
        assert(s.drop_last() =~= Seq::<u8>::empty());
    }
}

} // verus!
