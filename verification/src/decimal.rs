//! Decimal digits: reading unsigned integers the way `str::parse` does, and
//! writing integers as ASCII decimal text.
use vstd::prelude::*;
use vstd::string::StringExecFns;

verus! {

/// An ASCII decimal digit.
pub open spec fn is_digit(b: u8) -> bool {
    48 <= b <= 57
}

/// Every byte of `s` is an ASCII decimal digit.
pub open spec fn all_digits(s: Seq<u8>) -> bool {
    forall|i: int| 0 <= i < s.len() ==> is_digit(#[trigger] s[i])
}

/// The number that the digit string `s` denotes (most significant digit first).
pub open spec fn digits_value(s: Seq<u8>) -> nat
    decreases s.len(),
{
    if s.len() == 0 {
        0
    } else {
        digits_value(s.drop_last()) * 10 + (s.last() - 48) as nat
    }
}

/// What `str::parse` of an unsigned integer type reads from `s`, before the
/// range check of the type: an optional `+`, then one or more decimal digits.
pub open spec fn unsigned_text_value(s: Seq<u8>) -> Option<nat> {
    let body = if s.len() > 0 && s[0] == 43 {
        s.drop_first()
    } else {
        s
    };
    if body.len() > 0 && all_digits(body) {
        Some(digits_value(body))
    } else {
        None
    }
}

/// What `str::parse::<T>` of an unsigned integer type `T` whose largest value
/// is `max` gives for the bytes `s`.
pub open spec fn parse_unsigned_spec(s: Seq<u8>, max: nat) -> Option<nat> {
    match unsigned_text_value(s) {
        Some(v) => if v <= max {
            Some(v)
        } else {
            None
        },
        None => None,
    }
}

proof fn lemma_digits_value_push(s: Seq<u8>, d: u8)
    ensures
        digits_value(s.push(d)) == digits_value(s) * 10 + (d - 48) as nat,
{
    assert(s.push(d).drop_last() =~= s);
}

proof fn lemma_digits_value_monotone(s: Seq<u8>, t: Seq<u8>)
    requires
        all_digits(t),
    ensures
        digits_value(s + t) >= digits_value(s),
    decreases t.len(),
{
    if t.len() > 0 {
        let st = s + t;
        assert(st.drop_last() =~= s + t.drop_last());
        assert(all_digits(t.drop_last()));
        lemma_digits_value_monotone(s, t.drop_last());
        assert(is_digit(t.last()));
    }
}

/// Reads an unsigned decimal number the way `str::parse` does for an unsigned
/// type whose largest value is `max`: an optional `+` sign, then at least one
/// ASCII digit, and nothing else; a value above `max` is refused.
pub fn parse_unsigned(s: &[u8], max: u64) -> (r: Option<u64>)
    ensures
        match parse_unsigned_spec(s@, max as nat) {
            Some(v) => r == Some(v as u64),
            None => r is None,
        },
{
    let start: usize = if s.len() > 0 && s[0] == 43 { 1 } else { 0 };
    let ghost body = if s@.len() > 0 && s@[0] == 43 { s@.drop_first() } else { s@ };
    assert(body =~= s@.subrange(start as int, s@.len() as int));
    if start >= s.len() {
        return None;
    }
    let mut value: u64 = 0;
    let mut i: usize = start;
    while i < s.len()
        invariant
            start <= i <= s.len(),
            body == (if s@.len() > 0 && s@[0] == 43 { s@.drop_first() } else { s@ }),
            body =~= s@.subrange(start as int, s@.len() as int),
            all_digits(s@.subrange(start as int, i as int)),
            value == digits_value(s@.subrange(start as int, i as int)),
            value <= max,
        decreases s.len() - i,
    {
        let c = s[i];
        if c < 48 || c > 57 {
            assert(!is_digit(body[i - start]));
            assert(!all_digits(body));
            assert(unsigned_text_value(s@) is None);
            return None;
        }
        let d = (c - 48) as u64;
        proof {
            let pre = s@.subrange(start as int, i as int);
            assert(s@.subrange(start as int, i + 1) =~= pre.push(c));
            lemma_digits_value_push(pre, c);
        }
        if d > max || value > (max - d) / 10 {
            proof {
                assert(value * 10 + d > max) by (nonlinear_arith)
                    requires
                        d > max || value > (max - d) / 10,
                        d <= max ==> value > (max - d) / 10,
                ;
                let full = s@.subrange(start as int, i + 1);
                let rest = s@.subrange(i + 1, s@.len() as int);
                assert(body =~= full + rest);
                if all_digits(body) {
                    assert forall|j: int| 0 <= j < rest.len() implies is_digit(#[trigger] rest[j]) by {
                        assert(rest[j] == body[full.len() + j]);
                    }
                    lemma_digits_value_monotone(full, rest);
                }
            }
            return None;
        }
        proof {
            assert(value * 10 + d <= max) by (nonlinear_arith)
                requires
                    value <= (max - d) / 10,
                    d <= 9,
                    value <= max,
            ;
        }
        value = value * 10 + d;
        i += 1;
    }
    Some(value)
}

/// The ASCII decimal text of `n`, without leading zeros (`0` for zero).
pub open spec fn decimal(n: nat) -> Seq<u8>
    decreases n,
{
    if n < 10 {
        seq![(48 + n) as u8]
    } else {
        decimal(n / 10).push((48 + n % 10) as u8)
    }
}

/// The ASCII decimal text of a signed number, with a leading `-` when negative.
pub open spec fn signed_decimal(n: int) -> Seq<u8> {
    if n < 0 {
        seq![45u8] + decimal((-n) as nat)
    } else {
        decimal(n as nat)
    }
}

/// Every byte of the decimal text of `n` is an ASCII digit.
pub proof fn lemma_decimal_digits(n: nat)
    ensures
        forall|k: int| 0 <= k < decimal(n).len() ==> 48 <= #[trigger] decimal(n)[k] <= 57,
    decreases n,
{
    if n >= 10 {
        lemma_decimal_digits(n / 10);
        let d = decimal(n / 10);
        assert(decimal(n) == d.push((48 + n % 10) as u8));
        assert forall|k: int| 0 <= k < decimal(n).len() implies 48 <= #[trigger] decimal(n)[k] <= 57 by {
            if k < d.len() {
                assert(decimal(n)[k] == d[k]);
            }
        }
    }
}

/// Every byte of the signed decimal text of `n` is `-` or an ASCII digit.
pub proof fn lemma_signed_decimal_bytes(n: int)
    ensures
        forall|k: int| 0 <= k < signed_decimal(n).len() ==> #[trigger] signed_decimal(n)[k] == 45 || (48
            <= signed_decimal(n)[k] <= 57),
{
    if n < 0 {
        lemma_decimal_digits((-n) as nat);
        assert forall|k: int| 0 <= k < signed_decimal(n).len() implies #[trigger] signed_decimal(n)[k] == 45 || (48
            <= signed_decimal(n)[k] <= 57) by {
            if k > 0 {
                assert(signed_decimal(n)[k] == decimal((-n) as nat)[k - 1]);
            }
        }
    } else {
        lemma_decimal_digits(n as nat);
    }
}

/// Appends the ASCII decimal text of `n` to `out`.
pub fn push_decimal(out: &mut Vec<u8>, n: u64)
    ensures
        final(out)@ == old(out)@ + decimal(n as nat),
    decreases n,
{
    if n < 10 {
        out.push((48 + n) as u8);
        assert(decimal(n as nat) =~= seq![(48 + n) as u8]);
    } else {
        push_decimal(out, n / 10);
        out.push((48 + n % 10) as u8);
        assert(decimal(n as nat) =~= decimal((n / 10) as nat).push((48 + n % 10) as u8));
    }
}

/// Appends the ASCII decimal text of the signed number `n` to `out`.
pub fn push_signed_decimal(out: &mut Vec<u8>, n: i64)
    ensures
        final(out)@ == old(out)@ + signed_decimal(n as int),
{
    if n < 0 {
        out.push(45u8);
        let m: u64 = if n == i64::MIN { 9223372036854775808u64 } else { (-n) as u64 };
        push_decimal(out, m);
    } else {
        push_decimal(out, n as u64);
    }
}

/// The decimal text of `n`, as characters.
pub open spec fn decimal_chars(n: int) -> Seq<char> {
    signed_decimal(n).map_values(|b: u8| b as char)
}

/// Appends the decimal text of `n`.
pub fn append_decimal(s: &mut String, n: i64)
    ensures
        final(s)@ == old(s)@ + decimal_chars(n as int),
{
    let mut digits: Vec<u8> = Vec::new();
    push_signed_decimal(&mut digits, n);
    assert(digits@ =~= signed_decimal(n as int));
    proof {
        crate::decimal::lemma_signed_decimal_bytes(n as int);
    }
    let ghost ds = digits@;
    let mut i: usize = 0;
    while i < digits.len()
        invariant
            0 <= i <= digits.len(),
            ds == digits@,
            ds == signed_decimal(n as int),
            forall|k: int| 0 <= k < ds.len() ==> ds[k] == 45 || (48 <= ds[k] <= 57),
            s@ == old(s)@ + ds.take(i as int).map_values(|b: u8| b as char),
        decreases digits.len() - i,
    {
        let d = digits[i];
        let piece: &str = match d {
            45 => "-",
            48 => "0",
            49 => "1",
            50 => "2",
            51 => "3",
            52 => "4",
            53 => "5",
            54 => "6",
            55 => "7",
            56 => "8",
            _ => "9",
        };
        proof {
            reveal_strlit("-");
            reveal_strlit("0");
            reveal_strlit("1");
            reveal_strlit("2");
            reveal_strlit("3");
            reveal_strlit("4");
            reveal_strlit("5");
            reveal_strlit("6");
            reveal_strlit("7");
            reveal_strlit("8");
            reveal_strlit("9");
            assert(piece@ =~= seq![d as char]);
        }
        s.append(piece);
        assert(ds.take(i + 1).map_values(|b: u8| b as char) =~= ds.take(i as int).map_values(|b: u8| b as char).push(
            d as char,
        ));
        i += 1;
    }
    assert(ds.take(ds.len() as int) =~= ds);
}

/// The decimal text of a number reads back as that number: what
/// `push_decimal` writes, `parse_unsigned` reads, for any bound the number
/// is within.
pub proof fn law_decimal_round_trip(n: nat, max: nat)
    requires
        n <= max,
    ensures
        parse_unsigned_spec(decimal(n), max) == Some(n),
{
    lemma_decimal_value(n);
    lemma_decimal_digits(n);
    assert(all_digits(decimal(n)));
    assert(decimal(n)[0] != 43);
}

/// The digits of `decimal(n)` denote `n`.
proof fn lemma_decimal_value(n: nat)
    ensures
        digits_value(decimal(n)) == n,
        decimal(n).len() > 0,
    decreases n,
{
    if n < 10 {
        assert(decimal(n) =~= seq![(48 + n) as u8]);
        assert(decimal(n).drop_last() =~= Seq::<u8>::empty());
        assert(digits_value(Seq::<u8>::empty()) == 0);
        assert(decimal(n).last() == (48 + n) as u8);
        assert(digits_value(decimal(n)) == digits_value(decimal(n).drop_last()) * 10 + (decimal(n).last() - 48) as nat);
    } else {
        assert(decimal(n) == decimal(n / 10).push((48 + n % 10) as u8));
        lemma_decimal_value(n / 10);
        lemma_digits_value_push(decimal(n / 10), (48 + n % 10) as u8);
        vstd::arithmetic::div_mod::lemma_fundamental_div_mod(n as int, 10);
        assert(((48 + n % 10) as u8 - 48) as nat == n % 10);
    }
}

} // verus!
