use crate::text::chars_of;
use vstd::prelude::*;

verus! {

/// Whether `c` is one of the decimal digits `0` to `9`.
pub open spec fn is_digit(c: char) -> bool {
    '0' <= c <= '9'
}

/// The number that a decimal digit stands for; 0 for any other character.
pub open spec fn digit_value(c: char) -> nat {
    if is_digit(c) {
        (c as u32 - '0' as u32) as nat
    } else {
        0
    }
}

/// The digit that stands for `d`, for `d` below ten.
pub open spec fn digit_char(d: nat) -> char {
    ('0' as u32 + d) as char
}

/// Whether every character of `s` is a decimal digit.
pub open spec fn all_digits(s: Seq<char>) -> bool {
    forall|i: int| 0 <= i < s.len() ==> is_digit(#[trigger] s[i])
}

/// The number that a run of decimal digits denotes, most significant digit
/// first. Leading zeros do not count; the empty run denotes 0.
pub open spec fn decimal_value(s: Seq<char>) -> nat
    decreases s.len(),
{
    if s.len() == 0 {
        0
    } else {
        10 * decimal_value(s.drop_last()) + digit_value(s.last())
    }
}

/// The decimal digits of `n`, without leading zeros.
pub open spec fn decimal_text(n: nat) -> Seq<char>
    decreases n,
{
    if n < 10 {
        seq![digit_char(n)]
    } else {
        decimal_text(n / 10).push(digit_char(n % 10))
    }
}

/// The decimal digits of `n`, with zeros in front where it has fewer than
/// three digits.
pub open spec fn padded_decimal(n: nat) -> Seq<char> {
    if n < 10 {
        seq!['0', '0'] + decimal_text(n)
    } else if n < 100 {
        seq!['0'] + decimal_text(n)
    } else {
        decimal_text(n)
    }
}

/// The identifier that carries the number `n`: `p_` and then the number, in
/// at least three digits.
pub open spec fn person_id_text(n: nat) -> Seq<char> {
    seq!['p', '_'] + padded_decimal(n)
}

/// The number that an identifier carries: the identifier is `p_` followed by
/// one or more decimal digits, and the number they denote fits in 32 bits.
/// Any other text carries no number.
pub open spec fn person_number(id: Seq<char>) -> Option<u32> {
    if id.len() > 2 && id[0] == 'p' && id[1] == '_' && all_digits(id.skip(2)) && decimal_value(
        id.skip(2),
    ) <= u32::MAX {
        Some(decimal_value(id.skip(2)) as u32)
    } else {
        None
    }
}

/// A prefix of a run of characters denotes no more than the whole run.
pub proof fn lemma_decimal_value_prefix(s: Seq<char>, k: int)
    requires
        0 <= k <= s.len(),
    ensures
        decimal_value(s.take(k)) <= decimal_value(s),
    decreases s.len(),
{
    if k == s.len() {
        assert(s.take(k) == s);
    } else {
        assert(s.drop_last().take(k) == s.take(k));
        lemma_decimal_value_prefix(s.drop_last(), k);
    }
}

/// The digits of `n` are digits, at least one, and denote `n`.
pub proof fn lemma_decimal_text(n: nat)
    ensures
        decimal_text(n).len() >= 1,
        all_digits(decimal_text(n)),
        decimal_value(decimal_text(n)) == n,
        n >= 100 ==> decimal_text(n).len() >= 3,
    decreases n,
{
    if n < 10 {
        let t = decimal_text(n);
        assert(t.drop_last() == Seq::<char>::empty());
        assert(decimal_value(t.drop_last()) == 0);
    } else {
        lemma_decimal_text(n / 10);
        let t = decimal_text(n);
        assert(t.drop_last() == decimal_text(n / 10));
        assert(digit_value(digit_char(n % 10)) == n % 10);
        if n >= 100 {
            if n / 10 >= 100 {
            } else {
                lemma_decimal_text(n / 100);
                assert(decimal_text(n / 10) == decimal_text(n / 100).push(digit_char((n / 10) % 10)));
            }
        }
    }
}

/// Zeros in front of a run of digits do not change what it denotes.
pub proof fn lemma_leading_zero(s: Seq<char>)
    ensures
        decimal_value(seq!['0'] + s) == decimal_value(s),
        all_digits(s) ==> all_digits(seq!['0'] + s),
    decreases s.len(),
{
    let z = seq!['0'] + s;
    if s.len() == 0 {
        assert(z.drop_last() == Seq::<char>::empty());
        assert(decimal_value(z.drop_last()) == 0);
    } else {
        lemma_leading_zero(s.drop_last());
        assert(z.drop_last() == seq!['0'] + s.drop_last());
        assert(z.last() == s.last());
    }
    if all_digits(s) {
        assert forall|i: int| 0 <= i < z.len() implies is_digit(#[trigger] z[i]) by {
            if i > 0 {
                assert(z[i] == s[i - 1]);
            }
        }
    }
}

/// An identifier made from a number carries that number, as long as the
/// number fits in 32 bits; one made from a larger number carries none.
pub proof fn lemma_person_number_of_id(n: nat)
    ensures
        n <= u32::MAX ==> person_number(person_id_text(n)) == Some(n as u32),
        n > u32::MAX ==> person_number(person_id_text(n)) is None,
{
    let id = person_id_text(n);
    let t = decimal_text(n);
    lemma_decimal_text(n);
    assert(id.skip(2) == padded_decimal(n));
    if n < 10 {
        lemma_leading_zero(t);
        lemma_leading_zero(seq!['0'] + t);
        assert(seq!['0', '0'] + t == seq!['0'] + (seq!['0'] + t));
    } else if n < 100 {
        lemma_leading_zero(t);
    }
}

/// The number in the identifier `id`, if it has the form `p_` and digits and
/// the number fits in 32 bits.
pub fn extract_person_number(id: &str) -> (r: Option<u32>)
    ensures
        r == person_number(id@),
{
    let cs = chars_of(id);
    let n = cs.len();
    if n < 3 || cs[0] != 'p' || cs[1] != '_' {
        return None;
    }
    let ghost digits = id@.skip(2);
    let mut acc: u64 = 0;
    let mut i: usize = 2;
    while i < n
        invariant
            2 <= i <= n,
            n == cs.len(),
            cs@ == id@,
            digits == id@.skip(2),
            all_digits(digits.take(i - 2)),
            acc == decimal_value(digits.take(i - 2)),
            acc <= u32::MAX,
        decreases n - i,
    {
        let c = cs[i];
        assert(digits[i - 2] == c);
        if !(c >= '0' && c <= '9') {
            return None;
        }
        let d: u32 = c as u32 - '0' as u32;
        proof {
            let now = digits.take(i - 1);
            assert(now.drop_last() == digits.take(i - 2));
            assert(now.last() == c);
            lemma_decimal_value_prefix(digits, i - 1);
        }
        acc = acc * 10 + d as u64;
        if acc > u32::MAX as u64 {
            return None;
        }
        i += 1;
    }
    assert(digits.take(n - 2) == digits);
    Some(acc as u32)
}

/// Appends the decimal digits of `n` to `out`.
fn push_decimal(out: &mut String, n: u64)
    ensures
        final(out)@ == old(out)@ + decimal_text(n as nat),
    decreases n,
{
    if n >= 10 {
        push_decimal(out, n / 10);
    }
    let d: u8 = (n % 10) as u8;
    let c: char = (48u8 + d) as char;
    assert(c == digit_char((n % 10) as nat));
    out.push(c);
}

/// The identifier that carries the number `n`.
pub fn format_person_id(n: u64) -> (r: String)
    ensures
        r@ == person_id_text(n as nat),
{
    let mut out = String::new();
    out.push('p');
    out.push('_');
    if n < 10 {
        out.push('0');
        out.push('0');
    } else if n < 100 {
        out.push('0');
    }
    push_decimal(&mut out, n);
    out
}

} // verus!
