use vstd::prelude::*;

verus! {

pub open spec fn hex_digits() -> Seq<char> {
    "0123456789ABCDEF"@
}

/// The single upper-case hexadecimal digit for `d` (below 16).
pub open spec fn digit_text(d: int) -> Seq<char> {
    hex_digits().subrange(d, d + 1)
}

/// `n` in decimal, as `{}` prints it.
pub open spec fn decimal_text(n: nat) -> Seq<char>
    decreases n,
{
    if n < 10 {
        digit_text(n as int)
    } else {
        decimal_text(n / 10) + digit_text((n % 10) as int)
    }
}

/// `n` in upper-case hexadecimal with at least two digits, as `{:02X}` prints it.
pub open spec fn hex_text(n: nat) -> Seq<char>
    decreases n,
{
    if n < 256 {
        digit_text((n / 16) as int) + digit_text((n % 16) as int)
    } else {
        hex_text(n / 16) + digit_text((n % 16) as int)
    }
}

pub fn push_digit(s: &mut String, d: usize)
    requires
        d < 16,
    ensures
        final(s)@ == old(s)@ + digit_text(d as int),
{
    let digits = "0123456789ABCDEF";
    proof {
        reveal_strlit("0123456789ABCDEF");
    }
    s.append(digits.substring_char(d, d + 1));
}

pub fn push_decimal(s: &mut String, n: u64)
    ensures
        final(s)@ == old(s)@ + decimal_text(n as nat),
    decreases n,
{
    if n >= 10 {
        push_decimal(s, n / 10);
    }
    push_digit(s, (n % 10) as usize);
    proof {
        if n >= 10 {
            assert(s@ =~= old(s)@ + decimal_text(n as nat)) by {
                assert(decimal_text(n as nat) == decimal_text((n / 10) as nat) + digit_text((n % 10) as int));
            }
        } else {
            assert(s@ =~= old(s)@ + decimal_text(n as nat));
        }
    }
}

pub fn push_hex(s: &mut String, n: u64)
    ensures
        final(s)@ == old(s)@ + hex_text(n as nat),
    decreases n,
{
    if n < 256 {
        push_digit(s, (n / 16) as usize);
        push_digit(s, (n % 16) as usize);
        assert(s@ =~= old(s)@ + hex_text(n as nat));
    } else {
        push_hex(s, n / 16);
        push_digit(s, (n % 16) as usize);
        assert(s@ =~= old(s)@ + hex_text(n as nat));
    }
}

} // verus!
