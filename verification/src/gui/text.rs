use ncrypt_me::secure_types::Zeroize;
use vstd::prelude::*;
use vstd::std_specs::iter::IteratorSpec;

verus! {

broadcast use vstd::string::group_string_axioms;

/// Calls `String::push`, which appends one character.
#[verifier::external_body]
pub(crate) fn push_char(text: &mut String, c: char)
    ensures
        final(text)@ == old(text)@.push(c),
{
    text.push(c)
}

/// Calls `Zeroize::zeroize` of the `zeroize` crate (re-exported by
/// `secure-types`) on a `String`: its bytes and spare capacity are overwritten
/// with zeros, and it is left empty. Copies left behind by earlier
/// reallocations are not reached, as the crate documents.
#[verifier::external_body]
pub(crate) fn wipe(text: &mut String)
    ensures
        final(text)@ == Seq::<char>::empty(),
{
    text.zeroize()
}

/// The characters of `s`, in order.
pub fn chars_of(s: &str) -> (out: Vec<char>)
    ensures
        out@ == s@,
{
    let mut out: Vec<char> = Vec::new();
    let mut it = s.chars();
    loop
        invariant
            out@ + it.remaining() == s@,
            it.obeys_prophetic_iter_laws(),
            it.decrease() is Some,
        ensures
            out@ == s@,
        decreases it.decrease()->0,
    {
        match it.next() {
            Some(c) => {
                out.push(c);
            },
            None => {
                assert(it.remaining().len() == 0);
                assert(out@ =~= s@);
                break;
            },
        }
    }
    out
}


/// `c` is one of the ASCII digits `0` to `9`.
pub open spec fn is_digit(c: char) -> bool {
    '0' <= c && c <= '9'
}

/// The value of an ASCII digit.
pub open spec fn digit_value(c: char) -> int {
    c as int - '0' as int
}

/// Every character of `s` is an ASCII digit.
pub open spec fn all_digits(s: Seq<char>) -> bool {
    forall|i: int| 0 <= i < s.len() ==> is_digit(#[trigger] s[i])
}

/// The number that the digits `s` spell in base ten (most significant first).
pub open spec fn decimal_value(s: Seq<char>) -> int
    decreases s.len(),
{
    if s.len() == 0 {
        0
    } else {
        decimal_value(s.drop_last()) * 10 + digit_value(s.last())
    }
}

/// The digits of an unsigned number's text: one leading `+` is dropped.
pub open spec fn unsigned_digits(s: Seq<char>) -> Seq<char> {
    if s.len() > 0 && s[0] == '+' {
        s.drop_first()
    } else {
        s
    }
}

/// What parsing `s` as a `u64` gives: an optional `+` and then one or more
/// digits whose value fits in 64 bits; anything else is refused.
pub open spec fn parsed_u64(s: Seq<char>) -> Option<u64> {
    let d = unsigned_digits(s);
    if d.len() > 0 && all_digits(d) && decimal_value(d) <= u64::MAX {
        Some(decimal_value(d) as u64)
    } else {
        None
    }
}

/// The ten decimal digits, by value.
pub open spec fn decimal_digits() -> Seq<char> {
    seq!['0', '1', '2', '3', '4', '5', '6', '7', '8', '9']
}

/// The decimal text of `n`, without sign or leading zeros.
pub open spec fn decimal_text(n: nat) -> Seq<char>
    decreases n,
{
    if n < 10 {
        seq![decimal_digits()[n as int]]
    } else {
        decimal_text(n / 10).push(decimal_digits()[(n % 10) as int])
    }
}

/// A prefix of a digit string never spells a larger number than the whole.
proof fn lemma_decimal_prefix_le(s: Seq<char>, k: int)
    requires
        all_digits(s),
        0 <= k <= s.len(),
    ensures
        0 <= decimal_value(s.subrange(0, k)) <= decimal_value(s),
    decreases s.len(),
{
    if s.len() == 0 {
        assert(s.subrange(0, k) =~= s);
    } else if k == s.len() {
        assert(s.subrange(0, k) =~= s);
        lemma_decimal_nonneg(s);
    } else {
        let t = s.drop_last();
        assert(all_digits(t)) by {
            assert forall|i: int| 0 <= i < t.len() implies is_digit(#[trigger] t[i]) by {
                assert(t[i] == s[i]);
            }
        }
        lemma_decimal_prefix_le(t, k);
        assert(t.subrange(0, k) =~= s.subrange(0, k));
        assert(is_digit(s[s.len() - 1]));
        lemma_decimal_nonneg(t);
    }
}

/// Digit strings spell non-negative numbers.
proof fn lemma_decimal_nonneg(s: Seq<char>)
    requires
        all_digits(s),
    ensures
        decimal_value(s) >= 0,
    decreases s.len(),
{
    if s.len() > 0 {
        let t = s.drop_last();
        assert(all_digits(t)) by {
            assert forall|i: int| 0 <= i < t.len() implies is_digit(#[trigger] t[i]) by {
                assert(t[i] == s[i]);
            }
        }
        lemma_decimal_nonneg(t);
        assert(is_digit(s[s.len() - 1]));
    }
}

/// Parses `text` as a `u64`, the way `str::parse::<u64>` does.
pub fn parse_u64(text: &str) -> (out: Option<u64>)
    ensures
        out == parsed_u64(text@),
{
    let chars = chars_of(text);
    let n = chars.len();
    let mut start: usize = 0;
    if n > 0 && chars[0] == '+' {
        start = 1;
    }
    let ghost d = unsigned_digits(text@);
    assert(d =~= chars@.subrange(start as int, n as int));
    if start == n {
        return None;
    }
    let mut value: u64 = 0;
    let mut i: usize = start;
    while i < n
        invariant
            start <= i <= n,
            n == chars@.len(),
            chars@ == text@,
            d == chars@.subrange(start as int, n as int),
            d == unsigned_digits(text@),
            d.len() > 0,
            all_digits(chars@.subrange(start as int, i as int)),
            value as int == decimal_value(chars@.subrange(start as int, i as int)),
        decreases n - i,
    {
        let c = chars[i];
        let ghost prefix = chars@.subrange(start as int, i + 1);
        assert(prefix.drop_last() =~= chars@.subrange(start as int, i as int));
        assert(prefix.last() == c);
        assert(d[i - start] == c);
        if !('0' <= c && c <= '9') {
            return None;
        }
        assert(all_digits(prefix)) by {
            assert forall|j: int| 0 <= j < prefix.len() implies is_digit(#[trigger] prefix[j]) by {
                if j < prefix.len() - 1 {
                    assert(prefix[j] == chars@.subrange(start as int, i as int)[j]);
                }
            }
        }
        let digit: u64 = ((c as u32) - ('0' as u32)) as u64;
        assert(decimal_value(prefix) == value * 10 + digit);
        let scaled = value.checked_mul(10);
        if scaled.is_none() {
            proof {
                if all_digits(d) {
                    assert(prefix =~= d.subrange(0, (i + 1 - start) as int));
                    lemma_decimal_prefix_le(d, (i + 1 - start) as int);
                }
            }
            return None;
        }
        let next = scaled.unwrap().checked_add(digit);
        if next.is_none() {
            proof {
                if all_digits(d) {
                    assert(prefix =~= d.subrange(0, (i + 1 - start) as int));
                    lemma_decimal_prefix_le(d, (i + 1 - start) as int);
                }
            }
            return None;
        }
        value = next.unwrap();
        i = i + 1;
    }
    assert(chars@.subrange(start as int, n as int) =~= d);
    Some(value)
}

/// Appends the decimal text of `n` to `out`.
fn push_decimal(out: &mut String, n: u64)
    ensures
        final(out)@ == old(out)@ + decimal_text(n as nat),
    decreases n,
{
    if n >= 10 {
        push_decimal(out, n / 10);
    }
    let digits: [char; 10] = ['0', '1', '2', '3', '4', '5', '6', '7', '8', '9'];
    assert(digits@ =~= decimal_digits());
    push_char(out, digits[(n % 10) as usize]);
    proof {
        if n >= 10 {
            assert(decimal_text(n as nat) =~= decimal_text((n / 10) as nat).push(
                decimal_digits()[(n % 10) as int],
            ));
        }
    }
}

/// The decimal text of `n`, as `u64::to_string` writes it.
pub fn decimal_string(n: u64) -> (out: String)
    ensures
        out@ == decimal_text(n as nat),
{
    let mut out = String::new();
    push_decimal(&mut out, n);
    assert(out@ =~= decimal_text(n as nat));
    out
}

/// The decimal text of a number reads back as that number.
pub proof fn lemma_decimal_roundtrip(n: u64)
    ensures
        parsed_u64(decimal_text(n as nat)) == Some(n),
{
    lemma_decimal_text(n as nat);
}

proof fn lemma_decimal_text(n: nat)
    ensures
        decimal_text(n).len() > 0,
        all_digits(decimal_text(n)),
        decimal_value(decimal_text(n)) == n,
    decreases n,
{
    let t = decimal_text(n);
    if n < 10 {
        assert(t.drop_last() =~= Seq::<char>::empty());
        assert(decimal_value(t.drop_last()) == 0);
        assert(digit_value(decimal_digits()[n as int]) == n);
    } else {
        lemma_decimal_text(n / 10);
        let u = decimal_text(n / 10);
        assert(t.drop_last() =~= u);
        assert(digit_value(decimal_digits()[(n % 10) as int]) == n % 10);
        assert(n == (n / 10) * 10 + n % 10) by (nonlinear_arith);
        assert forall|i: int| 0 <= i < t.len() implies is_digit(#[trigger] t[i]) by {
            if i < u.len() {
                assert(t[i] == u[i]);
            }
        }
    }
}

} // verus!
