use vstd::prelude::*;

verus! {

/// The characters of `s`, in order.
pub fn chars_of(s: &str) -> (out: Vec<char>)
    ensures
        out@ == s@,
{
    let mut out: Vec<char> = Vec::new();
    for c in it: s.chars()
        invariant
            out@ == it.seq().take(it.index() as int),
            it.seq() == s@,
    {
        out.push(c);
    }
    out
}

/// `String::push`, for which vstd has no specification: the contract claims
/// that afterwards `s` is what it was with `c` appended.
#[verifier::external_body]
pub(crate) fn push_char(s: &mut String, c: char)
    ensures
        final(s)@ == old(s)@.push(c),
{
    s.push(c);
}

/// The ASCII digit character for a value below ten.
pub open spec fn digit_char(d: nat) -> char {
    (48 + d) as char
}

/// The decimal digits of `n`, most significant first, without leading zeros.
pub open spec fn decimal(n: nat) -> Seq<char>
    decreases n,
{
    if n < 10 {
        seq![digit_char(n)]
    } else {
        decimal(n / 10).push(digit_char(n % 10))
    }
}

fn digit(d: u64) -> (c: char)
    requires
        d < 10,
    ensures
        c == digit_char(d as nat),
{
    let b: u8 = 48u8 + (d as u8);
    b as char
}

/// Appends the decimal digits of `n` to `s`.
pub fn push_decimal(s: &mut String, n: u64)
    ensures
        final(s)@ == old(s)@ + decimal(n as nat),
    decreases n,
{
    if n >= 10 {
        push_decimal(s, n / 10);
    }
    push_char(s, digit(n % 10));
}

/// The decimal representation of `n`.
pub fn decimal_string(n: u64) -> (out: String)
    ensures
        out@ == decimal(n as nat),
{
    let mut out = String::new();
    push_decimal(&mut out, n);
    out
}

pub open spec fn is_digit(c: char) -> bool {
    '0' <= c <= '9'
}

pub open spec fn digit_value(c: char) -> nat {
    (c as int - 48) as nat
}

pub open spec fn all_digits(s: Seq<char>) -> bool {
    forall|i: int| 0 <= i < s.len() ==> is_digit(#[trigger] s[i])
}

/// The number that a string of decimal digits denotes.
pub open spec fn digits_value(s: Seq<char>) -> nat
    decreases s.len(),
{
    if s.len() == 0 {
        0
    } else {
        digits_value(s.drop_last()) * 10 + digit_value(s.last())
    }
}

/// What `str::parse::<u64>` gives: an optional `+`, then one or more decimal
/// digits whose value fits in 64 bits.
pub open spec fn parse_u64_spec(s: Seq<char>) -> Option<u64> {
    let d = if s.len() > 0 && s[0] == '+' { s.drop_first() } else { s };
    if d.len() > 0 && all_digits(d) && digits_value(d) <= u64::MAX {
        Some(digits_value(d) as u64)
    } else {
        None
    }
}

/// Parses an unsigned 64-bit decimal number, as `str::parse::<u64>` does.
pub fn parse_u64(s: &str) -> (r: Option<u64>)
    ensures
        r == parse_u64_spec(s@),
{
    let cs = chars_of(s);
    parse_u64_chars(&cs)
}

/// Parses a decimal number held as characters, as `str::parse::<u64>` does.
pub fn parse_u64_chars(cs: &Vec<char>) -> (r: Option<u64>)
    ensures
        r == parse_u64_spec(cs@),
{
    let ghost s = cs@;
    let start: usize = if cs.len() > 0 && cs[0] == '+' { 1 } else { 0 };
    let ghost d = if s.len() > 0 && s[0] == '+' { s.drop_first() } else { s };
    assert(d == cs@.subrange(start as int, cs@.len() as int));
    if start == cs.len() {
        return None;
    }
    let mut value: u64 = 0;
    let mut i: usize = start;
    while i < cs.len()
        invariant
            start <= i <= cs.len(),
            cs@ == s,
            d == (if s.len() > 0 && s[0] == '+' { s.drop_first() } else { s }),
            d == cs@.subrange(start as int, cs@.len() as int),
            all_digits(cs@.subrange(start as int, i as int)),
            value == digits_value(cs@.subrange(start as int, i as int)),
        decreases cs.len() - i,
    {
        let c = cs[i];
        assert(cs@.subrange(start as int, i + 1).drop_last() == cs@.subrange(start as int, i as int));
        if !('0' <= c && c <= '9') {
            proof {
                let k: int = i - start;
                assert(d[k] == c);
                assert(!is_digit(d[k]));
                assert(!all_digits(d));
            }
            return None;
        }
        let dv: u64 = (c as u64) - 48;
        proof {
            let p = cs@.subrange(start as int, i + 1);
            let q = cs@.subrange(start as int, i as int);
            assert(p.drop_last() == q);
            assert(p.last() == c);
            assert forall|j: int| 0 <= j < p.len() implies is_digit(#[trigger] p[j]) by {
                if j < p.len() - 1 {
                    assert(p[j] == q[j]);
                }
            }
            assert(digits_value(p) == value * 10 + dv);
        }
        match value.checked_mul(10) {
            None => {
                proof {
                    lemma_overflow_rejected(d, cs@, start as int, i as int);
                }
                return None;
            },
            Some(v10) => match v10.checked_add(dv) {
                None => {
                    proof {
                        lemma_overflow_rejected(d, cs@, start as int, i as int);
                    }
                    return None;
                },
                Some(v) => {
                    value = v;
                },
            },
        }
        i = i + 1;
    }
    assert(cs@.subrange(start as int, cs@.len() as int) == d);
    Some(value)
}

proof fn lemma_overflow_rejected(d: Seq<char>, cs: Seq<char>, start: int, i: int)
    requires
        0 <= start <= i < cs.len(),
        d == cs.subrange(start, cs.len() as int),
        all_digits(cs.subrange(start, i + 1)),
        digits_value(cs.subrange(start, i + 1)) > u64::MAX,
    ensures
        !(all_digits(d) && digits_value(d) <= u64::MAX),
{
    if all_digits(d) {
        assert(d.take(i + 1 - start) == cs.subrange(start, i + 1));
        lemma_digits_value_monotone(d, (i + 1 - start) as nat);
    }
}

/// A longer digit string never denotes less than its prefix.
proof fn lemma_digits_value_monotone(s: Seq<char>, k: nat)
    requires
        k <= s.len(),
        all_digits(s),
    ensures
        digits_value(s.take(k as int)) <= digits_value(s),
    decreases s.len() - k,
{
    if k < s.len() {
        lemma_digits_value_monotone(s, k + 1);
        assert(s.take((k + 1) as int).drop_last() == s.take(k as int));
    } else {
        assert(s.take(k as int) == s);
    }
}

/// All digits of `decimal(n)` are decimal digits, and they denote `n`.
pub proof fn lemma_decimal_digits(n: nat)
    ensures
        decimal(n).len() > 0,
        all_digits(decimal(n)),
        digits_value(decimal(n)) == n,
    decreases n,
{
    assert(digit_value(digit_char(n % 10)) == n % 10);
    if n >= 10 {
        lemma_decimal_digits(n / 10);
        let d = decimal(n);
        assert(d.drop_last() == decimal(n / 10));
        assert(d.last() == digit_char(n % 10));
        assert(digits_value(d) == digits_value(decimal(n / 10)) * 10 + n % 10);
        assert((n / 10) * 10 + n % 10 == n);
        assert forall|i: int| 0 <= i < d.len() implies is_digit(#[trigger] d[i]) by {
            if i < d.len() - 1 {
                assert(d[i] == decimal(n / 10)[i]);
            }
        }
    } else {
        let d = decimal(n);
        assert(d.drop_last() =~= Seq::<char>::empty());
        assert(digits_value(d.drop_last()) == 0);
        assert(d.last() == digit_char(n));
        assert(n % 10 == n);
        assert(digits_value(d) == n);
    }
}

/// Writing a number in decimal and reading it back gives the number again.
pub proof fn law_decimal_round_trip(n: u64)
    ensures
        parse_u64_spec(decimal(n as nat)) == Some(n),
{
    lemma_decimal_digits(n as nat);
    assert(is_digit(decimal(n as nat)[0]));
}

} // verus!

verus! {

/// `lit` occurs in `t` at position `i`.
pub open spec fn has_at(t: Seq<char>, i: int, lit: Seq<char>) -> bool {
    0 <= i && i + lit.len() <= t.len() && t.subrange(i, i + lit.len()) == lit
}

/// No line break in `t` between positions `a` (included) and `b` (excluded).
pub open spec fn no_newline(t: Seq<char>, a: int, b: int) -> bool {
    forall|k: int| a <= k < b ==> #[trigger] t[k] != '\n'
}

/// Whether `lit` occurs in `t` at position `i`.
pub fn matches_at(t: &Vec<char>, i: usize, lit: &Vec<char>) -> (b: bool)
    ensures
        b == has_at(t@, i as int, lit@),
{
    if i > t.len() || lit.len() > t.len() - i {
        return false;
    }
    let mut k: usize = 0;
    while k < lit.len()
        invariant
            k <= lit.len(),
            i + lit.len() <= t.len(),
            t@.subrange(i as int, i + k) == lit@.take(k as int),
        decreases lit.len() - k,
    {
        if t[i + k] != lit[k] {
            assert(t@.subrange(i as int, i + lit.len())[k as int] != lit@[k as int]);
            return false;
        }
        assert(t@.subrange(i as int, i + k + 1) == t@.subrange(i as int, i + k).push(t@[i + k]));
        assert(lit@.take(k + 1) == lit@.take(k as int).push(lit@[k as int]));
        k = k + 1;
    }
    assert(lit@.take(lit.len() as int) == lit@);
    true
}

/// The characters of `t` from `a` (included) to `b` (excluded), as a string.
pub fn string_of_range(t: &Vec<char>, a: usize, b: usize) -> (s: String)
    requires
        a <= b <= t.len(),
    ensures
        s@ == t@.subrange(a as int, b as int),
{
    let mut s = String::new();
    let mut k: usize = a;
    while k < b
        invariant
            a <= k <= b <= t.len(),
            s@ == t@.subrange(a as int, k as int),
        decreases b - k,
    {
        push_char(&mut s, t[k]);
        assert(t@.subrange(a as int, k + 1) == t@.subrange(a as int, k as int).push(t@[k as int]));
        k = k + 1;
    }
    s
}

} // verus!
