//! Rendering a number as its base-ten numeral.

use vstd::prelude::*;

verus! {

/// The single decimal digit `d` (below ten) as text.
pub open spec fn spec_digit(d: nat) -> Seq<char> {
    if d == 0 {
        "0"@
    } else if d == 1 {
        "1"@
    } else if d == 2 {
        "2"@
    } else if d == 3 {
        "3"@
    } else if d == 4 {
        "4"@
    } else if d == 5 {
        "5"@
    } else if d == 6 {
        "6"@
    } else if d == 7 {
        "7"@
    } else if d == 8 {
        "8"@
    } else {
        "9"@
    }
}

/// The usual base-ten numeral for `n`: most significant digit first, and no
/// leading zero except for `n == 0` itself.
pub open spec fn spec_dec(n: nat) -> Seq<char>
    decreases n,
{
    if n < 10 {
        spec_digit(n)
    } else {
        spec_dec(n / 10) + spec_digit(n % 10)
    }
}

/// A character that writes a single decimal digit.
pub open spec fn digit_char(c: char) -> bool {
    48 <= c as u32 && c as u32 <= 57
}

/// The digit a digit character writes.
pub open spec fn digit_val(c: char) -> nat {
    (c as u32 - 48) as nat
}

/// The number a run of digit characters writes, most significant first.
pub open spec fn digits_val(s: Seq<char>) -> nat
    decreases s.len(),
{
    if s.len() == 0 {
        0
    } else {
        digits_val(s.drop_last()) * 10 + digit_val(s.last())
    }
}

proof fn lemma_digit_shape(d: nat)
    requires
        d < 10,
    ensures
        spec_digit(d).len() == 1,
        digit_char(spec_digit(d)[0]),
        digit_val(spec_digit(d)[0]) == d,
{
    reveal_strlit("0");
    reveal_strlit("1");
    reveal_strlit("2");
    reveal_strlit("3");
    reveal_strlit("4");
    reveal_strlit("5");
    reveal_strlit("6");
    reveal_strlit("7");
    reveal_strlit("8");
    reveal_strlit("9");
}

/// The numeral for `n` is a nonempty run of digit characters, and reading it
/// back as a number gives `n` again.
pub proof fn lemma_dec_readback(n: nat)
    ensures
        spec_dec(n).len() >= 1,
        forall|i: int| 0 <= i < spec_dec(n).len() ==> digit_char(#[trigger] spec_dec(n)[i]),
        digits_val(spec_dec(n)) == n,
    decreases n,
{
    if n < 10 {
        lemma_digit_shape(n);
        assert(spec_dec(n).drop_last() =~= Seq::<char>::empty());
        assert(digits_val(Seq::<char>::empty()) == 0);
        assert(digits_val(spec_dec(n)) == digits_val(spec_dec(n).drop_last()) * 10 + digit_val(
            spec_dec(n).last(),
        ));
        assert(spec_dec(n).last() == spec_digit(n)[0]);
        assert(digits_val(spec_dec(n)) == n);
    } else {
        lemma_dec_readback(n / 10);
        lemma_digit_shape(n % 10);
        let w = spec_dec(n / 10) + spec_digit(n % 10);
        assert(w.drop_last() =~= spec_dec(n / 10));
        assert(w.last() == spec_digit(n % 10)[0]);
        assert(digits_val(w) == (n / 10) * 10 + n % 10);
        assert(forall|i: int|
            0 <= i < w.len() ==> digit_char(#[trigger] w[i]));
    }
}

/// Distinct numbers write distinct numerals.
pub proof fn lemma_dec_injective(m: nat, n: nat)
    requires
        spec_dec(m) == spec_dec(n),
    ensures
        m == n,
{
    lemma_dec_readback(m);
    lemma_dec_readback(n);
}

/// The digit `d` as a one-character string slice.
fn digit_str(d: usize) -> (r: &'static str)
    requires
        d < 10,
    ensures
        r@ == spec_digit(d as nat),
{
    if d == 0 {
        "0"
    } else if d == 1 {
        "1"
    } else if d == 2 {
        "2"
    } else if d == 3 {
        "3"
    } else if d == 4 {
        "4"
    } else if d == 5 {
        "5"
    } else if d == 6 {
        "6"
    } else if d == 7 {
        "7"
    } else if d == 8 {
        "8"
    } else {
        "9"
    }
}

/// Appends the decimal numeral for `n` to `out`.
pub(crate) fn append_dec(out: &mut String, n: usize)
    ensures
        final(out)@ == old(out)@ + spec_dec(n as nat),
    decreases n,
{
    if n < 10 {
        out.append(digit_str(n));
    } else {
        append_dec(out, n / 10);
        out.append(digit_str(n % 10));
        assert(out@ =~= old(out)@ + spec_dec(n as nat));
    }
}

} // verus!
