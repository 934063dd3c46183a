use vstd::prelude::*;

verus! {

pub open spec fn is_digit(c: char) -> bool {
    '0' as int <= c as int <= '9' as int
}

/// The value of a string of decimal digits.
pub open spec fn digits_value(s: Seq<char>) -> int
    decreases s.len(),
{
    if s.len() == 0 {
        0
    } else {
        digits_value(s.drop_last()) * 10 + (s.last() as int - '0' as int)
    }
}

/// The digits of a decimal number, after an optional leading `+`.
pub open spec fn decimal_digits(s: Seq<char>) -> Seq<char> {
    if s.len() > 0 && s[0] == '+' {
        s.subrange(1, s.len() as int)
    } else {
        s
    }
}

/// The number that `s` spells in decimal, after an optional `+`, if it fits
/// a `usize`: what `usize::from_str` accepts.
pub open spec fn decimal_number(s: Seq<char>) -> Option<int> {
    let ds = decimal_digits(s);
    if ds.len() > 0 && (forall|i: int| 0 <= i < ds.len() ==> is_digit(ds[i])) && digits_value(ds)
        <= usize::MAX {
        Some(digits_value(ds))
    } else {
        None
    }
}

/// Parses a non-negative decimal number: digits after an optional `+`.
pub fn parse_decimal(s: &String) -> (r: Option<usize>)
    ensures
        match r {
            Some(n) => decimal_number(s@) == Some(n as int),
            None => decimal_number(s@) is None,
        },
{
    let text = s.as_str();
    let len = text.unicode_len();
    let mut i: usize = 0;
    if len > 0 && text.get_char(0) == '+' {
        i = 1;
    }
    let start = i;
    let ghost ds = decimal_digits(s@);
    assert(ds =~= s@.subrange(start as int, len as int));
    if i >= len {
        assert(ds.len() == 0);
        return None;
    }
    let mut value: usize = 0;
    assert(s@.subrange(start as int, i as int) =~= Seq::<char>::empty());
    while i < len
        invariant
            start <= i <= len,
            len == s@.len(),
            text@ == s@,
            ds =~= s@.subrange(start as int, len as int),
            ds == decimal_digits(s@),
            forall|k: int| start <= k < i ==> is_digit(s@[k]),
            value as int == digits_value(s@.subrange(start as int, i as int)),
        decreases len - i,
    {
        let c = text.get_char(i);
        if (c as u32) < ('0' as u32) || (c as u32) > ('9' as u32) {
            assert(ds[i - start] == s@[i as int]);
            assert(!is_digit(ds[i - start]));
            return None;
        }
        let digit = (c as u32 - '0' as u32) as usize;
        assert(s@.subrange(start as int, i + 1).drop_last() =~= s@.subrange(start as int, i as int));
        if value > (usize::MAX - digit) / 10 {
            proof {
                let p = s@.subrange(start as int, i + 1);
                assert(p.last() == c);
                assert(digits_value(p) == value * 10 + digit);
                assert(value * 10 + digit > usize::MAX) by (nonlinear_arith)
                    requires
                        value > (usize::MAX - digit) / 10,
                        digit <= 9,
                ;
                if forall|k: int| 0 <= k < ds.len() ==> is_digit(ds[k]) {
                    assert(p =~= ds.subrange(0, p.len() as int));
                    lemma_digits_bound(p, ds);
                }
            }
            return None;
        }
        value = value * 10 + digit;
        i = i + 1;
    }
    assert(s@.subrange(start as int, i as int) =~= ds);
    Some(value)
}

/// A prefix of a digit string is worth no more than the whole.
proof fn lemma_digits_bound(p: Seq<char>, ds: Seq<char>)
    requires
        p.len() <= ds.len(),
        p =~= ds.subrange(0, p.len() as int),
        forall|i: int| 0 <= i < ds.len() ==> is_digit(ds[i]),
    ensures
        digits_value(p) <= digits_value(ds),
    decreases ds.len(),
{
    if p.len() < ds.len() {
        let front = ds.drop_last();
        assert(front.subrange(0, p.len() as int) =~= p);
        assert forall|i: int| 0 <= i < front.len() implies is_digit(front[i]) by {
            assert(front[i] == ds[i]);
        }
        lemma_digits_bound(p, front);
        lemma_digits_nonneg(front);
        assert(is_digit(ds[ds.len() - 1]));
        assert(digits_value(ds) == digits_value(front) * 10 + (ds.last() as int - '0' as int));
    } else {
        assert(p =~= ds);
    }
}

proof fn lemma_digits_nonneg(ds: Seq<char>)
    requires
        forall|i: int| 0 <= i < ds.len() ==> is_digit(ds[i]),
    ensures
        digits_value(ds) >= 0,
    decreases ds.len(),
{
    if ds.len() > 0 {
        let front = ds.drop_last();
        assert forall|i: int| 0 <= i < front.len() implies is_digit(front[i]) by {
            assert(front[i] == ds[i]);
        }
        lemma_digits_nonneg(front);
        assert(is_digit(ds[ds.len() - 1]));
    }
}

} // verus!
