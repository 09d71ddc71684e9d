//! Decimal text of unsigned integers: writing one (as `{}` formats it) and
//! reading one back (as `str::parse::<u32>` does).
use vstd::prelude::*;
use crate::text::chars_of;

verus! {

/// The ASCII digit of a value below ten.
pub open spec fn digit_char(d: nat) -> char {
    ((d + 48) as u32) as char
}

pub open spec fn is_digit(c: char) -> bool {
    '0' <= c && c <= '9'
}

/// The value of an ASCII digit.
pub open spec fn digit_value(c: char) -> nat {
    ((c as u32) - 48) as nat
}

/// The decimal text of `n`, without sign or leading zeros.
pub open spec fn decimal(n: nat) -> Seq<char>
    decreases n,
{
    if n < 10 {
        seq![digit_char(n)]
    } else {
        decimal(n / 10).push(digit_char(n % 10))
    }
}

pub open spec fn all_digits(s: Seq<char>) -> bool {
    forall|i: int| 0 <= i < s.len() ==> is_digit(#[trigger] s[i])
}

/// The value of a run of decimal digits, most significant first.
pub open spec fn digits_value(s: Seq<char>) -> nat
    decreases s.len(),
{
    if s.len() == 0 {
        0
    } else {
        digits_value(s.drop_last()) * 10 + digit_value(s.last())
    }
}

/// What `str::parse::<u32>` gives: an optional `+`, then at least one ASCII
/// digit and nothing else, of a value that fits in 32 bits.
pub open spec fn parse_u32(s: Seq<char>) -> Option<u32> {
    let d = if s.len() > 0 && s[0] == '+' {
        s.drop_first()
    } else {
        s
    };
    if d.len() > 0 && all_digits(d) && digits_value(d) <= u32::MAX {
        Some(digits_value(d) as u32)
    } else {
        None
    }
}

pub proof fn lemma_digits_value_prefix(d: Seq<char>, j: int)
    requires
        0 <= j <= d.len(),
        all_digits(d),
    ensures
        digits_value(d.take(j)) <= digits_value(d),
    decreases d.len(),
{
    if j < d.len() {
        assert(d.drop_last().take(j) == d.take(j));
        assert(is_digit(d[d.len() - 1]));
        lemma_digits_value_prefix(d.drop_last(), j);
    } else {
        assert(d.take(j) == d);
    }
}

/// The decimal text of `n` is digits only, starts with a digit, and reads
/// back as `n`.
pub proof fn lemma_decimal_digits(n: nat)
    ensures
        decimal(n).len() > 0,
        all_digits(decimal(n)),
        digits_value(decimal(n)) == n,
    decreases n,
{
    if n < 10 {
        let s = decimal(n);
        assert(s.drop_last() =~= Seq::<char>::empty());
        assert(digit_value(digit_char(n)) == n);
        assert(digits_value(s.drop_last()) == 0);
    } else {
        lemma_decimal_digits(n / 10);
        let s = decimal(n);
        assert(s.drop_last() == decimal(n / 10));
        assert(s.last() == digit_char(n % 10));
        assert(digit_value(digit_char(n % 10)) == n % 10);
        assert(digits_value(s) == digits_value(decimal(n / 10)) * 10 + n % 10);
        assert forall|i: int| 0 <= i < s.len() implies is_digit(#[trigger] s[i]) by {
            if i < s.len() - 1 {
                assert(s[i] == decimal(n / 10)[i]);
            }
        }
    }
}

/// Reading back what `format_decimal` writes gives the number again.
pub proof fn lemma_parse_decimal(n: u32)
    ensures
        parse_u32(decimal(n as nat)) == Some(n),
{
    lemma_decimal_digits(n as nat);
    assert(is_digit(decimal(n as nat)[0]));
}

fn digit_str(d: u64) -> (r: &'static str)
    requires
        d < 10,
    ensures
        r@ == seq![digit_char(d as nat)],
{
    proof {
        reveal_strlit("0");
        reveal_strlit("1");
        reveal_strlit("2");
        reveal_strlit("3");
        reveal_strlit("4");
        reveal_strlit("5");
        reveal_strlit("6");
        reveal_strlit("7");
        reveal_strlit("8");
        reveal_strlit("9");
    }
    match d {
        0 => "0",
        1 => "1",
        2 => "2",
        3 => "3",
        4 => "4",
        5 => "5",
        6 => "6",
        7 => "7",
        8 => "8",
        _ => "9",
    }
}

/// The decimal text of `n`, as `format!("{}", n)` writes it.
pub fn format_decimal(n: u64) -> (r: String)
    ensures
        r@ == decimal(n as nat),
    decreases n,
{
    if n < 10 {
        String::from_str(digit_str(n))
    } else {
        let mut r = format_decimal(n / 10);
        r.append(digit_str(n % 10));
        r
    }
}

/// `s.parse::<u32>().ok()`.
pub fn parse_decimal_u32(s: &str) -> (r: Option<u32>)
    ensures
        r == parse_u32(s@),
{
    let v = chars_of(s);
    let n = v.len();
    let start: usize = if n > 0 && v[0] == '+' {
        1
    } else {
        0
    };
    let ghost d = if s@.len() > 0 && s@[0] == '+' {
        s@.drop_first()
    } else {
        s@
    };
    assert(d == v@.skip(start as int));
    if start == n {
        return None;
    }
    let mut acc: u64 = 0;
    let mut k: usize = start;
    while k < n
        invariant
            start <= k <= n == v.len(),
            d == v@.skip(start as int),
            v@ == s@,
            d == (if s@.len() > 0 && s@[0] == '+' {
                s@.drop_first()
            } else {
                s@
            }),
            acc as nat == digits_value(d.take(k - start)),
            all_digits(d.take(k - start)),
            acc <= u32::MAX,
        decreases n - k,
    {
        let c = v[k];
        if !('0' <= c && c <= '9') {
            assert(d[k - start] == c);
            assert(!is_digit(d[k - start]));
            assert(!all_digits(d));
            return None;
        }
        let ghost j = k - start;
        assert(d.take(j + 1).drop_last() == d.take(j));
        assert(d.take(j + 1).last() == c);
        acc = acc * 10 + ((c as u64) - 48);
        assert forall|i: int| 0 <= i < j + 1 implies is_digit(#[trigger] d.take(j + 1)[i]) by {
            if i < j {
                assert(d.take(j + 1)[i] == d.take(j)[i]);
            }
        }
        k = k + 1;
        if acc > 4294967295 {
            proof {
                if all_digits(d) {
                    lemma_digits_value_prefix(d, k - start);
                } else {
                    let i = choose|i: int| 0 <= i < d.len() && !is_digit(#[trigger] d[i]);
                }
            }
            return None;
        }
    }
    assert(d.take(n - start) == d);
    Some(acc as u32)
}

} // verus!
