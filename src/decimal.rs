//! Decimal text of integers, both ways, as std writes and reads it: an
//! optional sign, then one or more ASCII digits.
use vstd::prelude::*;
use vstd::string::*;

verus! {

pub open spec fn is_digit(c: char) -> bool {
    '0' <= c <= '9'
}

pub open spec fn digits_value(s: Seq<char>) -> int
    decreases s.len(),
{
    if s.len() == 0 {
        0
    } else {
        10 * digits_value(s.drop_last()) + (s.last() as int - '0' as int)
    }
}

pub open spec fn all_digits(s: Seq<char>) -> bool {
    forall|k: int| 0 <= k < s.len() ==> is_digit(#[trigger] s[k])
}

/// The digits after an optional leading sign.
pub open spec fn unsigned_part(s: Seq<char>) -> Seq<char> {
    if s.len() > 0 && (s[0] == '-' || s[0] == '+') {
        s.subrange(1, s.len() as int)
    } else {
        s
    }
}

/// The integer a text spells, where it spells one that fits in an `i64`.
pub open spec fn decimal_value(s: Seq<char>) -> Option<i64> {
    let body = unsigned_part(s);
    let v = if s.len() > 0 && s[0] == '-' { -digits_value(body) } else { digits_value(body) };
    if body.len() > 0 && all_digits(body) && i64::MIN <= v <= i64::MAX {
        Some(v as i64)
    } else {
        None
    }
}

proof fn lemma_digits_grow(s: Seq<char>, i: int, j: int)
    requires
        0 <= i <= j <= s.len(),
        all_digits(s),
    ensures
        0 <= digits_value(s.subrange(0, i)) <= digits_value(s.subrange(0, j)),
    decreases j,
{
    if j > 0 {
        let p = s.subrange(0, j);
        assert(p.drop_last() == s.subrange(0, j - 1));
        assert(is_digit(s[j - 1]));
        if i < j {
            lemma_digits_grow(s, i, j - 1);
        } else {
            lemma_digits_grow(s, j - 1, j - 1);
        }
    } else {
        assert(s.subrange(0, 0).len() == 0);
    }
}

/// The integer `s` spells, or `None` where it spells none that fits an
/// `i64`; `i64::from_str` reads the same texts the same way.
pub fn parse_i64(s: &str) -> (r: Option<i64>)
    ensures
        r == decimal_value(s@),
{
    let n = s.unicode_len();
    if n == 0 {
        return None;
    }
    let first = s.get_char(0);
    let neg = first == '-';
    let start: usize = if neg || first == '+' { 1 } else { 0 };
    let ghost body = unsigned_part(s@);
    assert(body == s@.subrange(start as int, n as int));
    if start >= n {
        return None;
    }
    let mut acc: i128 = 0;
    let mut i: usize = start;
    assert(body.subrange(0, 0).len() == 0);
    while i < n
        invariant
            n == s@.len(),
            start <= i <= n,
            body == s@.subrange(start as int, n as int),
            body == unsigned_part(s@),
            neg == (s@[0] == '-'),
            forall|k: int| 0 <= k < i - start ==> is_digit(#[trigger] body[k]),
            acc == digits_value(body.subrange(0, i - start)),
            0 <= acc <= 0x8000_0000_0000_0000,
        decreases n - i,
    {
        let c = s.get_char(i);
        assert(c == body[i - start]);
        if !(c >= '0' && c <= '9') {
            assert(!all_digits(body));
            return None;
        }
        proof {
            assert(body.subrange(0, i - start + 1).drop_last() == body.subrange(0, i - start));
        }
        acc = acc * 10 + ((c as u32) as i128 - 48);
        if acc > 0x8000_0000_0000_0000 {
            proof {
                if all_digits(body) {
                    lemma_digits_grow(body, i - start + 1, body.len() as int);
                    assert(body.subrange(0, body.len() as int) == body);
                }
            }
            return None;
        }
        i = i + 1;
    }
    assert(body.subrange(0, n - start) == body);
    if neg {
        Some((-acc) as i64)
    } else if acc <= 0x7fff_ffff_ffff_ffff {
        Some(acc as i64)
    } else {
        None
    }
}

pub open spec fn digit_text(d: int) -> Seq<char> {
    if d == 0 { "0"@ }
    else if d == 1 { "1"@ }
    else if d == 2 { "2"@ }
    else if d == 3 { "3"@ }
    else if d == 4 { "4"@ }
    else if d == 5 { "5"@ }
    else if d == 6 { "6"@ }
    else if d == 7 { "7"@ }
    else if d == 8 { "8"@ }
    else { "9"@ }
}

/// The decimal digits of a natural number, without leading zeros.
pub open spec fn nat_text(n: nat) -> Seq<char>
    decreases n,
{
    if n < 10 {
        digit_text(n as int)
    } else {
        nat_text(n / 10) + digit_text((n % 10) as int)
    }
}

/// The decimal text of an integer, with a `-` where it is negative.
pub open spec fn int_text(n: int) -> Seq<char> {
    if n < 0 {
        "-"@ + nat_text((-n) as nat)
    } else {
        nat_text(n as nat)
    }
}

fn digit_str(d: u64) -> (r: &'static str)
    requires
        d < 10,
    ensures
        r@ == digit_text(d as int),
{
    match d {
        0 => "0",
        1 => "1",
        2 => "2",
        3 => "3",
        4 => "4",
        5 => "5",
        6 => "6",
        7 => "7",
        8 => "8",
        _ => "9",
    }
}

fn format_u64(n: u64) -> (r: String)
    ensures
        r@ == nat_text(n as nat),
    decreases n,
{
    if n < 10 {
        String::from_str(digit_str(n))
    } else {
        let mut r = format_u64(n / 10);
        r.append(digit_str(n % 10));
        r
    }
}

/// The decimal text of `n`, as `i64::to_string` writes it.
pub fn format_i64(n: i64) -> (r: String)
    ensures
        r@ == int_text(n as int),
{
    if n < 0 {
        let m: u64 = (-(n as i128)) as u64;
        let digits = format_u64(m);
        String::from_str("-").concat(digits.as_str())
    } else {
        format_u64(n as u64)
    }
}


proof fn lemma_digit_text(d: int)
    requires
        0 <= d < 10,
    ensures
        digit_text(d).len() == 1,
        is_digit(digit_text(d)[0]),
        digit_text(d)[0] as int - '0' as int == d,
{
    reveal_strlit("0");
    reveal_strlit("1");
    reveal_strlit("2");
    reveal_strlit("3");
    reveal_strlit("4");
    reveal_strlit("5");
    reveal_strlit("6");
    reveal_strlit("7");
    reveal_strlit("8");
    reveal_strlit("9");
}

proof fn lemma_nat_text(n: nat)
    ensures
        nat_text(n).len() > 0,
        all_digits(nat_text(n)),
        digits_value(nat_text(n)) == n,
    decreases n,
{
    if n < 10 {
        lemma_digit_text(n as int);
        let s = nat_text(n);
        assert(s.drop_last() =~= Seq::<char>::empty());
        assert(digits_value(s.drop_last()) == 0);
        assert(s.last() == s[0]);
        assert(digits_value(s) == 10 * digits_value(s.drop_last()) + (s.last() as int - '0' as int));
    } else {
        lemma_nat_text(n / 10);
        lemma_digit_text((n % 10) as int);
        let s = nat_text(n);
        let p = nat_text(n / 10);
        assert(s.drop_last() =~= p);
        assert(s.last() == digit_text((n % 10) as int)[0]);
        assert(digits_value(s) == 10 * digits_value(s.drop_last()) + (s.last() as int - '0' as int));
        vstd::arithmetic::div_mod::lemma_fundamental_div_mod(n as int, 10);
        assert forall|k: int| 0 <= k < s.len() implies is_digit(#[trigger] s[k]) by {
            if k < p.len() {
                assert(s[k] == p[k]);
            }
        }
    }
}

/// Reading back the decimal text of an integer gives the integer.
pub proof fn decimal_text_reads_back(n: i64)
    ensures
        decimal_value(int_text(n as int)) == Some(n),
{
    if n < 0 {
        let m = (-(n as int)) as nat;
        lemma_nat_text(m);
        reveal_strlit("-");
        let s = int_text(n as int);
        assert(unsigned_part(s) =~= nat_text(m));
    } else {
        lemma_nat_text(n as nat);
        lemma_digit_text(0);
        let s = int_text(n as int);
        assert(is_digit(s[0]));
        assert(unsigned_part(s) == s);
    }
}

/// Distinct integers have distinct decimal texts.
pub proof fn decimal_text_is_injective(a: i64, b: i64)
    requires
        a != b,
    ensures
        int_text(a as int) != int_text(b as int),
{
    decimal_text_reads_back(a);
    decimal_text_reads_back(b);
}

} // verus!
