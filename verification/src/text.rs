//! Text helpers: comparing strings, and writing unsigned numbers as text in
//! decimal or hexadecimal.

use vstd::prelude::*;
use vstd::arithmetic::div_mod::lemma_div_decreases;
use vstd::string::StringSliceAdditionalSpecFns;

verus! {

/// Whether two strings hold the same chars.
pub fn str_eq(a: &str, b: &str) -> (r: bool)
    ensures
        r == (a@ == b@),
{
    let n = a.unicode_len();
    if n != b.unicode_len() {
        return false;
    }
    let mut i: usize = 0;
    while i < n
        invariant
            n == a@.len(),
            n == b@.len(),
            i <= n,
            forall|j: int| 0 <= j < i ==> a@[j] == b@[j],
        decreases n - i,
    {
        if a.get_char(i) != b.get_char(i) {
            return false;
        }
        i += 1;
    }
    assert(a@ =~= b@);
    true
}

/// The digits of a radix (10 or 16), in lower or upper case.
pub open spec fn digit_chars(radix: nat, upper: bool) -> Seq<char> {
    if radix == 10 {
        "0123456789"@
    } else if upper {
        "0123456789ABCDEF"@
    } else {
        "0123456789abcdef"@
    }
}

/// The text of `n` in the given radix, without leading zeros, as the `{}`,
/// `{:x}` and `{:X}` formats write it.
pub open spec fn radix_text(n: nat, radix: nat, upper: bool) -> Seq<char>
    decreases n,
{
    if radix < 2 || n < radix {
        seq![digit_chars(radix, upper)[n as int]]
    } else {
        proof {
            lemma_div_decreases(n as int, radix as int);
        }
        radix_text(n / radix, radix, upper).push(digit_chars(radix, upper)[(n % radix) as int])
    }
}

/// The decimal text of `n`.
pub open spec fn decimal_text(n: nat) -> Seq<char> {
    radix_text(n, 10, false)
}

/// Appends the text of `n` in radix 10 or 16 to `out`.
pub fn append_radix(out: &mut String, n: u64, radix: u64, upper: bool)
    requires
        radix == 10 || radix == 16,
    ensures
        final(out)@ == old(out)@ + radix_text(n as nat, radix as nat, upper),
    decreases n,
{
    let digits = if radix == 10 {
        "0123456789"
    } else if upper {
        "0123456789ABCDEF"
    } else {
        "0123456789abcdef"
    };
    proof {
        reveal_strlit("0123456789");
        reveal_strlit("0123456789ABCDEF");
        reveal_strlit("0123456789abcdef");
    }
    assert(digits@ == digit_chars(radix as nat, upper));
    if n < radix {
        let d = n as usize;
        out.append(digits.substring_char(d, d + 1));
        assert(digits@.subrange(d as int, d + 1) =~= seq![digits@[d as int]]);
    } else {
        let ghost before = out@;
        append_radix(out, n / radix, radix, upper);
        let d = (n % radix) as usize;
        out.append(digits.substring_char(d, d + 1));
        assert(digits@.subrange(d as int, d + 1) =~= seq![digits@[d as int]]);
        assert(out@ =~= before + radix_text(n as nat, radix as nat, upper));
    }
}

} // verus!
