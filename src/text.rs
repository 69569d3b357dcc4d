use vstd::prelude::*;
use vstd::string::StringExecFns;

verus! {

/// The character of a digit below sixteen, in lower case.
pub open spec fn digit_char(d: int) -> char {
    seq!['0', '1', '2', '3', '4', '5', '6', '7', '8', '9', 'a', 'b', 'c', 'd', 'e', 'f'][d]
}

/// The decimal digits of a natural number, most significant first, with no
/// leading zero.
pub open spec fn decimal_text(n: nat) -> Seq<char>
    decreases n,
{
    if n < 10 {
        seq![digit_char(n as int)]
    } else {
        decimal_text(n / 10).push(digit_char((n % 10) as int))
    }
}

/// The decimal text of an integer: its digits, after a minus sign when it is
/// negative.
pub open spec fn signed_text(i: int) -> Seq<char> {
    if i < 0 {
        seq!['-'] + decimal_text((-i) as nat)
    } else {
        decimal_text(i as nat)
    }
}

/// The lower-case hexadecimal digits of a natural number, most significant
/// first, with no leading zero.
pub open spec fn hex_text(n: nat) -> Seq<char>
    decreases n,
{
    if n < 16 {
        seq![digit_char(n as int)]
    } else {
        hex_text(n / 16).push(digit_char((n % 16) as int))
    }
}

/// Lower-case hexadecimal digits padded with zeros to at least two.
pub open spec fn hex2_text(n: nat) -> Seq<char> {
    if n < 16 {
        seq!['0', digit_char(n as int)]
    } else {
        hex_text(n)
    }
}

/// The one-character text of a digit below sixteen.
fn digit_str(d: u32) -> (r: &'static str)
    requires
        d < 16,
    ensures
        r@ == seq![digit_char(d as int)],
{
    proof {
        reveal_strlit("0");
        reveal_strlit("1");
        reveal_strlit("2");
        reveal_strlit("3");
        reveal_strlit("4");
        reveal_strlit("5");
        reveal_strlit("6");
        reveal_strlit("7");
        reveal_strlit("8");
        reveal_strlit("9");
        reveal_strlit("a");
        reveal_strlit("b");
        reveal_strlit("c");
        reveal_strlit("d");
        reveal_strlit("e");
        reveal_strlit("f");
    }
    match d {
        0 => "0",
        1 => "1",
        2 => "2",
        3 => "3",
        4 => "4",
        5 => "5",
        6 => "6",
        7 => "7",
        8 => "8",
        9 => "9",
        10 => "a",
        11 => "b",
        12 => "c",
        13 => "d",
        14 => "e",
        15 => "f",
        _ => "f",
    }
}

/// Appends the decimal digits of `n`.
pub fn push_decimal(s: &mut String, n: u32)
    ensures
        final(s)@ == old(s)@ + decimal_text(n as nat),
    decreases n,
{
    if n >= 10 {
        push_decimal(s, n / 10);
    }
    s.append(digit_str(n % 10));
    assert(final(s)@ =~= old(s)@ + decimal_text(n as nat));
}

/// Appends the decimal text of `v`, with a minus sign when it is negative.
pub fn push_signed(s: &mut String, v: i32)
    ensures
        final(s)@ == old(s)@ + signed_text(v as int),
{
    if v < 0 {
        proof {
            reveal_strlit("-");
        }
        s.append("-");
        let m: i64 = -(v as i64);
        push_decimal(s, m as u32);
        assert(final(s)@ =~= old(s)@ + signed_text(v as int));
    } else {
        push_decimal(s, v as u32);
    }
}

/// Appends the lower-case hexadecimal digits of `n`.
pub fn push_hex(s: &mut String, n: u32)
    ensures
        final(s)@ == old(s)@ + hex_text(n as nat),
    decreases n,
{
    if n >= 16 {
        push_hex(s, n / 16);
    }
    s.append(digit_str(n % 16));
    assert(final(s)@ =~= old(s)@ + hex_text(n as nat));
}

/// Appends the lower-case hexadecimal digits of `n`, padded to two.
pub fn push_hex2(s: &mut String, n: u32)
    ensures
        final(s)@ == old(s)@ + hex2_text(n as nat),
{
    if n < 16 {
        proof {
            reveal_strlit("0");
        }
        s.append("0");
        s.append(digit_str(n));
        assert(final(s)@ =~= old(s)@ + hex2_text(n as nat));
    } else {
        push_hex(s, n);
    }
}

} // verus!
