//! The debug labels the engine gives GPU objects.
use vstd::prelude::*;
use crate::diagnostics::{string_push, string_push_str};

verus! {

/// The decimal digit for `d`, which is below ten.
pub open spec fn digit_char(d: nat) -> char {
    (48 + d) as char
}

/// The decimal representation of `n`, most significant digit first, without leading zeros.
pub open spec fn decimal(n: nat) -> Seq<char>
    decreases n,
{
    if n < 10 {
        seq![digit_char(n)]
    } else {
        decimal(n / 10) + seq![digit_char(n % 10)]
    }
}

/// The decimal digit for `d`, which is below ten.
fn digit(d: usize) -> (r: char)
    requires
        d < 10,
    ensures
        r == digit_char(d as nat),
{
    match d {
        0 => '0',
        1 => '1',
        2 => '2',
        3 => '3',
        4 => '4',
        5 => '5',
        6 => '6',
        7 => '7',
        8 => '8',
        _ => '9',
    }
}

/// Appends the decimal representation of `n` to `s`.
pub fn push_decimal(s: &mut String, n: usize)
    ensures
        final(s)@ == old(s)@ + decimal(n as nat),
    decreases n,
{
    if n >= 10 {
        push_decimal(s, n / 10);
    }
    let c = digit(n % 10);
    string_push(s, c);
    proof {
        assert(final(s)@ =~= old(s)@ + decimal(n as nat));
    }
}

/// The label of colour attachment `index` of a target labelled `label`: `{label}_color_{index}`.
pub fn color_label(label: &str, index: usize) -> (r: String)
    ensures
        r@ == label@ + "_color_"@ + decimal(index as nat),
{
    let mut s = String::new();
    string_push_str(&mut s, label);
    string_push_str(&mut s, "_color_");
    push_decimal(&mut s, index);
    proof {
        assert(s@ =~= label@ + "_color_"@ + decimal(index as nat));
    }
    s
}

/// The label of the depth attachment of a target labelled `label`: `{label}_depth`.
pub fn depth_label(label: &str) -> (r: String)
    ensures
        r@ == label@ + "_depth"@,
{
    let mut s = String::new();
    string_push_str(&mut s, label);
    string_push_str(&mut s, "_depth");
    proof {
        assert(s@ =~= label@ + "_depth"@);
    }
    s
}

/// The label of item `index` of a ring labelled `label`: `{label}[{index}]`.
pub fn indexed_label(label: &str, index: usize) -> (r: String)
    ensures
        r@ == label@ + seq!['['] + decimal(index as nat) + seq![']'],
{
    let mut s = String::new();
    string_push_str(&mut s, label);
    string_push(&mut s, '[');
    push_decimal(&mut s, index);
    string_push(&mut s, ']');
    proof {
        assert(s@ =~= label@ + seq!['['] + decimal(index as nat) + seq![']']);
    }
    s
}

} // verus!
