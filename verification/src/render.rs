//! Rendering of the VM's observable output records.
//!
//! The only externally visible textual format is the `Output` record
//! string, exactly `"Register: {register} = {value}"`, reproduced here by
//! verified decimal rendering so the format is pinned down bit for bit.

use vstd::prelude::*;

verus! {

/// The decimal digit character for `d` (meaningful for `d < 10`).
pub open spec fn spec_digit_char(d: nat) -> char {
    if d == 0 {
        '0'
    } else if d == 1 {
        '1'
    } else if d == 2 {
        '2'
    } else if d == 3 {
        '3'
    } else if d == 4 {
        '4'
    } else if d == 5 {
        '5'
    } else if d == 6 {
        '6'
    } else if d == 7 {
        '7'
    } else if d == 8 {
        '8'
    } else {
        '9'
    }
}

/// The decimal digits of `n`, most significant first, no sign and no
/// leading zeros (a lone `0` for zero).
pub open spec fn spec_u_dec(n: nat) -> Seq<char>
    decreases n,
{
    if n < 10 {
        seq![spec_digit_char(n)]
    } else {
        spec_u_dec(n / 10).push(spec_digit_char(n % 10))
    }
}

/// The decimal rendering of a signed value: a `-` sign for negatives,
/// then the digits of the magnitude.
pub open spec fn spec_i_dec(v: int) -> Seq<char> {
    if v < 0 {
        seq!['-'] + spec_u_dec((-v) as nat)
    } else {
        spec_u_dec(v as nat)
    }
}

/// The observable record the VM appends for `Output(register)` when the
/// register holds `value`.
pub open spec fn spec_output_line(register: nat, value: int) -> Seq<char> {
    "Register: "@ + spec_u_dec(register) + " = "@ + spec_i_dec(value)
}

/// The one-character string for digit `d`.
fn digit_str(d: u64) -> (r: &'static str)
    requires
        d < 10,
    ensures
        r@ == seq![spec_digit_char(d as nat)],
{
    proof {
        reveal_strlit("0");
        reveal_strlit("1");
        reveal_strlit("2");
        reveal_strlit("3");
        reveal_strlit("4");
        reveal_strlit("5");
        reveal_strlit("6");
        reveal_strlit("7");
        reveal_strlit("8");
        reveal_strlit("9");
    }
    let r: &'static str = if d == 0 {
        "0"
    } else if d == 1 {
        "1"
    } else if d == 2 {
        "2"
    } else if d == 3 {
        "3"
    } else if d == 4 {
        "4"
    } else if d == 5 {
        "5"
    } else if d == 6 {
        "6"
    } else if d == 7 {
        "7"
    } else if d == 8 {
        "8"
    } else {
        "9"
    };
    proof {
        assert(r@ =~= seq![spec_digit_char(d as nat)]);
    }
    r
}

/// Appends the decimal digits of `n` to `s`.
fn push_u_dec(s: &mut String, n: u64)
    ensures
        final(s)@ == old(s)@ + spec_u_dec(n as nat),
    decreases n,
{
    if n < 10 {
        s.append(digit_str(n));
        proof {
            assert(final(s)@ =~= old(s)@ + spec_u_dec(n as nat));
        }
    } else {
        push_u_dec(s, n / 10);
        s.append(digit_str(n % 10));
        proof {
            assert(final(s)@ =~= old(s)@ + spec_u_dec(n as nat));
        }
    }
}

/// Appends the decimal rendering of the signed value `v` to `s`.
fn push_i_dec(s: &mut String, v: i32)
    ensures
        final(s)@ == old(s)@ + spec_i_dec(v as int),
{
    if v < 0 {
        let magnitude: u64 = (-(v as i64)) as u64;
        s.append("-");
        push_u_dec(s, magnitude);
        proof {
            reveal_strlit("-");
            assert(final(s)@ =~= old(s)@ + spec_i_dec(v as int));
        }
    } else {
        push_u_dec(s, v as u64);
    }
}

/// Builds the record string `"Register: {register} = {value}"`.
pub fn output_line(register: usize, value: i32) -> (r: String)
    ensures
        r@ == spec_output_line(register as nat, value as int),
{
    let mut s = String::new();
    s.append("Register: ");
    push_u_dec(&mut s, register as u64);
    s.append(" = ");
    push_i_dec(&mut s, value);
    proof {
        assert(s@ =~= spec_output_line(register as nat, value as int));
    }
    s
}

} // verus!
