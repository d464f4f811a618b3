//! Decimal text of unsigned 32-bit numbers: the integer literals of the
//! source language are read with `parse_u32` and written back with
//! `u32_to_decimal`.
use vstd::prelude::*;
use vstd::string::StringExecFns;
use vstd::string::StrSliceExecFns;

verus! {

pub open spec fn is_digit(c: char) -> bool {
    '0' <= c && c <= '9'
}

/// The number a decimal digit stands for.
pub open spec fn digit_value(c: char) -> nat {
    (c as int - '0' as int) as nat
}

/// The decimal digit that stands for `d` (for `d < 10`).
pub open spec fn digit_char(d: nat) -> char {
    seq!['0', '1', '2', '3', '4', '5', '6', '7', '8', '9'][d as int]
}

pub open spec fn all_digits(s: Seq<char>) -> bool {
    forall|i: int| 0 <= i < s.len() ==> is_digit(#[trigger] s[i])
}

/// The value of a string of decimal digits, most significant first.
pub open spec fn digits_value(s: Seq<char>) -> nat
    decreases s.len(),
{
    if s.len() == 0 {
        0
    } else {
        digits_value(s.drop_last()) * 10 + digit_value(s.last())
    }
}

/// What is left of a number's text once an optional leading `+` is removed.
pub open spec fn unsigned_digits(s: Seq<char>) -> Seq<char> {
    if s.len() > 0 && s[0] == '+' {
        s.drop_first()
    } else {
        s
    }
}

/// How the standard library reads a `u32` from text: an optional `+`, then
/// one or more decimal digits whose value fits in 32 bits.
pub open spec fn spec_parse_u32(s: Seq<char>) -> Option<u32> {
    let d = unsigned_digits(s);
    if d.len() > 0 && all_digits(d) && digits_value(d) <= u32::MAX {
        Some(digits_value(d) as u32)
    } else {
        None
    }
}

/// The shortest decimal text of `n`, as `to_string` writes it.
pub open spec fn decimal(n: nat) -> Seq<char>
    decreases n,
{
    if n < 10 {
        seq![digit_char(n)]
    } else {
        decimal(n / 10).push(digit_char(n % 10))
    }
}

pub proof fn lemma_digit_char(d: nat)
    requires
        d < 10,
    ensures
        is_digit(digit_char(d)),
        digit_value(digit_char(d)) == d,
        digit_char(d) != '+',
{
}

/// A longer run of digits never has a smaller value than its prefixes.
pub proof fn lemma_prefix_value_le(s: Seq<char>, k: int)
    requires
        all_digits(s),
        0 <= k <= s.len(),
    ensures
        digits_value(s.take(k)) <= digits_value(s),
    decreases s.len(),
{
    if k < s.len() {
        let t = s.drop_last();
        assert(t.take(k) =~= s.take(k));
        lemma_prefix_value_le(t, k);
    } else {
        assert(s.take(k) =~= s);
    }
}

/// The decimal text of a number is made of digits, starts with a digit and
/// reads back as the number.
pub proof fn lemma_decimal(n: nat)
    ensures
        decimal(n).len() > 0,
        all_digits(decimal(n)),
        digits_value(decimal(n)) == n,
        is_digit(decimal(n)[0]),
    decreases n,
{
    if n < 10 {
        lemma_digit_char(n);
        let s = decimal(n);
        assert(s.drop_last() =~= Seq::<char>::empty());
        assert(digits_value(Seq::<char>::empty()) == 0);
    } else {
        lemma_decimal(n / 10);
        lemma_digit_char(n % 10);
        let s = decimal(n);
        assert(s.drop_last() =~= decimal(n / 10));
        assert(n == (n / 10) * 10 + n % 10) by (nonlinear_arith);
        assert(s.last() == digit_char(n % 10));
        assert forall|i: int| 0 <= i < s.len() implies is_digit(#[trigger] s[i]) by {
            if i < s.len() - 1 {
                assert(s[i] == decimal(n / 10)[i]);
            }
        }
    }
}

/// Writing a number in decimal and reading it back gives the number.
pub proof fn lemma_parse_decimal(n: u32)
    ensures
        spec_parse_u32(decimal(n as nat)) == Some(n),
{
    lemma_decimal(n as nat);
}

/// Reads a `u32` from its decimal text, as `str::parse::<u32>` does:
/// `None` exactly where the text is not an optional `+` followed by digits
/// whose value fits in 32 bits.
pub fn parse_u32(s: &str) -> (r: Option<u32>)
    ensures
        r == spec_parse_u32(s@),
{
    let n = s.unicode_len();
    let mut start: usize = 0;
    if n > 0 && s.get_char(0) == '+' {
        start = 1;
    }
    let ghost d = unsigned_digits(s@);
    assert(d =~= s@.subrange(start as int, n as int));
    if start == n {
        return None;
    }
    let mut acc: u32 = 0;
    let mut j: usize = start;
    while j < n
        invariant
            n == s@.len(),
            start <= j <= n,
            start < n,
            d =~= s@.subrange(start as int, n as int),
            d == unsigned_digits(s@),
            all_digits(d.take(j - start)),
            acc as nat == digits_value(d.take(j - start)),
        decreases n - j,
    {
        let c = s.get_char(j);
        proof {
            assert(c == d[j - start]);
        }
        if !('0' <= c && c <= '9') {
            assert(!all_digits(d));
            return None;
        }
        let digit: u32 = (c as u32) - 48;
        let next: u64 = (acc as u64) * 10 + (digit as u64);
        let ghost pre = d.take(j - start);
        let ghost post = d.take(j - start + 1);
        proof {
            assert(post.drop_last() =~= pre);
            assert(post.last() == c);
        }
        if next > 4294967295u64 {
            proof {
                if all_digits(d) {
                    lemma_prefix_value_le(d, j - start + 1);
                }
            }
            return None;
        }
        acc = next as u32;
        j = j + 1;
    }
    assert(d.take(n - start) =~= d);
    Some(acc)
}

fn digit_str(d: u32) -> (s: &'static str)
    requires
        d < 10,
    ensures
        s@ == seq![digit_char(d as nat)],
{
    proof {
        reveal_strlit("0");
        reveal_strlit("1");
        reveal_strlit("2");
        reveal_strlit("3");
        reveal_strlit("4");
        reveal_strlit("5");
        reveal_strlit("6");
        reveal_strlit("7");
        reveal_strlit("8");
        reveal_strlit("9");
    }
    let s = match d {
        0 => "0",
        1 => "1",
        2 => "2",
        3 => "3",
        4 => "4",
        5 => "5",
        6 => "6",
        7 => "7",
        8 => "8",
        _ => "9",
    };
    assert(s@ =~= seq![digit_char(d as nat)]);
    s
}

fn push_decimal(n: u32, out: &mut String)
    ensures
        final(out)@ == old(out)@ + decimal(n as nat),
    decreases n,
{
    if n >= 10 {
        push_decimal(n / 10, out);
    }
    out.append(digit_str(n % 10));
    proof {
        if n >= 10 {
            assert(old(out)@ + decimal(n as nat) =~= old(out)@ + decimal((n / 10) as nat) + seq![
                digit_char((n % 10) as nat),
            ]);
        } else {
            assert(n % 10 == n);
        }
    }
}

/// The decimal text of `n`, as `n.to_string()` writes it.
pub fn u32_to_decimal(n: u32) -> (s: String)
    ensures
        s@ == decimal(n as nat),
{
    let mut s = String::new();
    push_decimal(n, &mut s);
    assert(s@ =~= decimal(n as nat));
    s
}

} // verus!
