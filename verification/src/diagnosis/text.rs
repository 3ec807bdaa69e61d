//! Text helpers of the diagnosis: decimal numerals, the stand-in values
//! that represent non-null cells, byte lengths and character search.

use vstd::prelude::*;
use vstd::utf8::*;

verus! {

/// The character of the decimal digit `d` (for `d < 10`).
pub open spec fn digit_char(d: nat) -> char {
    (48 + d) as char
}

/// The decimal numeral of `n`: most significant digit first, no leading zero.
pub open spec fn decimal(n: nat) -> Seq<char>
    decreases n,
{
    if n < 10 {
        seq![digit_char(n)]
    } else {
        decimal(n / 10).push(digit_char(n % 10))
    }
}

/// The prefix of every stand-in value: `value_`.
pub open spec fn stand_in_prefix() -> Seq<char> {
    seq!['v', 'a', 'l', 'u', 'e', '_']
}

/// The stand-in value recorded for the non-null cell at row `i`: `value_<i>`.
pub open spec fn stand_in(i: nat) -> Seq<char> {
    stand_in_prefix() + decimal(i)
}

/// Renders `n` as a decimal numeral.
///
/// Trusted: the body calls std's `ToString::to_string` on a `usize`, whose
/// `Display` std documents as the plain decimal numeral; the contract claims
/// exactly that numeral.
#[verifier::external_body]
fn decimal_string(n: usize) -> (s: String)
    ensures
        s@ == decimal(n as nat),
{
    n.to_string()
}

/// The stand-in value `value_<i>` for the non-null cell at row `i`.
pub fn stand_in_value(i: usize) -> (s: String)
    ensures
        s@ == stand_in(i as nat),
{
    let prefix = String::from_str("value_");
    proof {
        reveal_strlit("value_");
    }
    let digits = decimal_string(i);
    let s = prefix.concat(digits.as_str());
    assert(s@ =~= stand_in(i as nat));
    s
}

/// The number of bytes of the UTF-8 encoding of `chars`.
pub open spec fn byte_len(chars: Seq<char>) -> nat {
    encode_utf8(chars).len()
}

/// The byte length of `s` (what `str::len` returns).
pub fn string_byte_len(s: &String) -> (n: usize)
    requires
        byte_len(s@) <= usize::MAX,
    ensures
        n == byte_len(s@),
{
    s.as_str().len()
}

/// Whether `s` holds the character `c`.
pub fn contains_char(s: &String, c: char) -> (b: bool)
    ensures
        b == s@.contains(c),
{
    broadcast use vstd::string::group_string_axioms;

    let t = s.as_str();
    for ch in it: t.chars()
        invariant
            t@ == s@,
            it.seq() == s@,
            forall|k: int| 0 <= k < it.index() ==> s@[k] != c,
    {
        if ch == c {
            return true;
        }
    }
    false
}

/// The number of digits of the decimal numeral of `n`.
fn decimal_len(n: usize) -> (k: usize)
    ensures
        k == decimal(n as nat).len(),
        k <= 20,
    decreases n,
{
    proof {
        reveal_with_fuel(pow10, 21);
        assert(pow10(20) == 100000000000000000000);
        lemma_decimal_len_bound(n as nat, 20);
    }
    if n < 10 {
        1
    } else {
        decimal_len(n / 10) + 1
    }
}

/// `10` to the power `k`.
pub open spec fn pow10(k: nat) -> nat
    decreases k,
{
    if k == 0 {
        1
    } else {
        10 * pow10((k - 1) as nat)
    }
}

/// A number below `10^k` has at most `k` digits.
pub proof fn lemma_decimal_len_bound(n: nat, k: nat)
    requires
        n < pow10(k),
        k >= 1,
    ensures
        decimal(n).len() <= k,
    decreases k,
{
    if n >= 10 {
        if k == 1 {
            reveal_with_fuel(pow10, 2);
        } else {
            let p = pow10((k - 1) as nat);
            assert(n / 10 < p) by (nonlinear_arith)
                requires
                    n < 10 * p,
            ;
            lemma_decimal_len_bound(n / 10, (k - 1) as nat);
        }
    }
}

/// The byte length of the stand-in value of row `i`.
pub fn stand_in_byte_len(i: usize) -> (n: usize)
    ensures
        n == byte_len(stand_in(i as nat)),
{
    proof {
        lemma_stand_in_ascii(i as nat);
    }
    6 + decimal_len(i)
}

/// Every character of a stand-in value is ASCII, so its byte length is its length.
pub proof fn lemma_stand_in_ascii(i: nat)
    ensures
        byte_len(stand_in(i)) == stand_in(i).len(),
        stand_in(i).len() == 6 + decimal(i).len(),
{
    lemma_decimal_digits(i);
    let s = stand_in(i);
    assert forall|k: int| 0 <= k < s.len() implies '\0' <= #[trigger] s[k] <= '\u{7f}' by {
        if k >= 6 {
            let c = decimal(i)[k - 6];
            assert(s[k] == c);
            assert(48 <= c as int <= 57);
            assert('\0' <= c <= '\u{7f}');
        } else {
            assert(s[k] == stand_in_prefix()[k]);
        }
    }
    assert(is_ascii_chars(s));
    is_ascii_chars_encode_utf8(s);
}

/// Every character of a decimal numeral is a digit, `'0'` to `'9'`.
pub proof fn lemma_decimal_digits(n: nat)
    ensures
        decimal(n).len() >= 1,
        n >= 10 ==> decimal(n).len() >= 2,
        forall|k: int|
            0 <= k < decimal(n).len() ==> 48 <= (#[trigger] decimal(n)[k]) as int <= 57,
    decreases n,
{
    if n >= 10 {
        lemma_decimal_digits(n / 10);
        let prev = decimal(n / 10);
        assert forall|k: int| 0 <= k < decimal(n).len() implies 48 <= (#[trigger] decimal(
            n,
        )[k]) as int <= 57 by {
            if k < prev.len() {
                assert(decimal(n)[k] == prev[k]);
            }
        }
    }
}

/// Distinct numbers have distinct decimal numerals.
pub proof fn lemma_decimal_injective(n: nat, m: nat)
    requires
        decimal(n) == decimal(m),
    ensures
        n == m,
    decreases n,
{
    lemma_decimal_digits(n);
    lemma_decimal_digits(m);
    if n < 10 && m < 10 {
        assert(decimal(n)[0] == digit_char(n));
        assert(decimal(m)[0] == digit_char(m));
    } else if n >= 10 && m >= 10 {
        let dn = decimal(n);
        let dm = decimal(m);
        assert(dn.last() == digit_char(n % 10));
        assert(dm.last() == digit_char(m % 10));
        assert(dn.drop_last() =~= decimal(n / 10));
        assert(dm.drop_last() =~= decimal(m / 10));
        lemma_decimal_injective(n / 10, m / 10);
    }
}

/// Distinct rows have distinct stand-in values.
pub proof fn lemma_stand_in_injective(i: nat, j: nat)
    requires
        stand_in(i) == stand_in(j),
    ensures
        i == j,
{
    assert(stand_in(i).skip(6) =~= decimal(i));
    assert(stand_in(j).skip(6) =~= decimal(j));
    lemma_decimal_injective(i, j);
}

/// A stand-in value holds no `<`.
pub proof fn lemma_stand_in_has_no_angle(i: nat)
    ensures
        !stand_in(i).contains('<'),
{
    lemma_decimal_digits(i);
    let s = stand_in(i);
    assert forall|k: int| 0 <= k < s.len() implies s[k] != '<' by {
        if k >= 6 {
            assert(s[k] == decimal(i)[k - 6]);
        }
    }
}

} // verus!
