//! Text rendering of integers for the human-readable descriptions of pages
//! and tuples: decimal, upper-case hexadecimal, right alignment and
//! `" | "`-separated lists.

use vstd::prelude::*;

verus! {

/// The decimal digit `d < 10` as a character.
pub open spec fn decimal_digit(d: int) -> char {
    (48 + d) as char
}

/// `n` in decimal, without leading zeros.
pub open spec fn decimal_text(n: nat) -> Seq<char>
    decreases n,
{
    if n < 10 {
        seq![decimal_digit(n as int)]
    } else {
        decimal_text(n / 10) + seq![decimal_digit((n % 10) as int)]
    }
}

/// The upper-case hexadecimal digit of `n < 16`.
pub open spec fn upper_hex_digit(n: int) -> char {
    if n < 10 {
        (48 + n) as char
    } else {
        (55 + n) as char
    }
}

/// `v` as four upper-case hexadecimal digits (`{:04X}`).
pub open spec fn hex4_text(v: u16) -> Seq<char> {
    seq![
        upper_hex_digit(v as int / 4096),
        upper_hex_digit((v as int / 256) % 16),
        upper_hex_digit((v as int / 16) % 16),
        upper_hex_digit(v as int % 16),
    ]
}

/// `t` right-aligned in a field of `width` characters, padded with spaces.
pub open spec fn right_aligned(t: Seq<char>, width: int) -> Seq<char> {
    if t.len() >= width {
        t
    } else {
        Seq::new((width - t.len()) as nat, |i: int| ' ') + t
    }
}

/// The names joined with `" | "` between consecutive names.
pub open spec fn join_names(names: Seq<Seq<char>>) -> Seq<char>
    decreases names.len(),
{
    if names.len() == 0 {
        Seq::empty()
    } else if names.len() == 1 {
        names[0]
    } else {
        join_names(names.drop_last()) + " | "@ + names.last()
    }
}

/// Lengths of short decimal numbers.
pub proof fn lemma_decimal_len(n: nat)
    ensures
        n < 10 ==> decimal_text(n).len() == 1,
        10 <= n < 100 ==> decimal_text(n).len() == 2,
        n >= 100 ==> decimal_text(n).len() >= 3,
        decimal_text(n).len() >= 1,
    decreases n,
{
    if n >= 10 {
        lemma_decimal_len(n / 10);
    }
}

/// The decimal digit `d` as a one-character string.
fn digit_str(d: u8) -> (r: &'static str)
    requires
        d < 16,
    ensures
        r@ == seq![upper_hex_digit(d as int)],
{
    match d {
        0 => { proof { reveal_strlit("0"); } "0" },
        1 => { proof { reveal_strlit("1"); } "1" },
        2 => { proof { reveal_strlit("2"); } "2" },
        3 => { proof { reveal_strlit("3"); } "3" },
        4 => { proof { reveal_strlit("4"); } "4" },
        5 => { proof { reveal_strlit("5"); } "5" },
        6 => { proof { reveal_strlit("6"); } "6" },
        7 => { proof { reveal_strlit("7"); } "7" },
        8 => { proof { reveal_strlit("8"); } "8" },
        9 => { proof { reveal_strlit("9"); } "9" },
        10 => { proof { reveal_strlit("A"); } "A" },
        11 => { proof { reveal_strlit("B"); } "B" },
        12 => { proof { reveal_strlit("C"); } "C" },
        13 => { proof { reveal_strlit("D"); } "D" },
        14 => { proof { reveal_strlit("E"); } "E" },
        _ => { proof { reveal_strlit("F"); } "F" },
    }
}

/// Appends `n` in decimal.
pub(crate) fn push_decimal(s: &mut String, n: u64)
    ensures
        final(s)@ == old(s)@ + decimal_text(n as nat),
    decreases n,
{
    if n >= 10 {
        push_decimal(s, n / 10);
    }
    let d = (n % 10) as u8;
    s.append(digit_str(d));
    assert(final(s)@ =~= old(s)@ + decimal_text(n as nat)) by {
        if n >= 10 {
            assert(decimal_text(n as nat) == decimal_text((n / 10) as nat) + seq![decimal_digit((n % 10) as int)]);
        }
    };
}

/// Appends `v` as four upper-case hexadecimal digits.
pub(crate) fn push_hex4(s: &mut String, v: u16)
    ensures
        final(s)@ == old(s)@ + hex4_text(v),
{
    s.append(digit_str((v / 4096) as u8));
    s.append(digit_str(((v / 256) % 16) as u8));
    s.append(digit_str(((v / 16) % 16) as u8));
    s.append(digit_str((v % 16) as u8));
    assert(final(s)@ =~= old(s)@ + hex4_text(v));
}

/// Appends `n` in decimal, right-aligned in a field of three characters.
pub(crate) fn push_decimal_width3(s: &mut String, n: u64)
    ensures
        final(s)@ == old(s)@ + right_aligned(decimal_text(n as nat), 3),
{
    proof {
        lemma_decimal_len(n as nat);
        reveal_strlit("  ");
        reveal_strlit(" ");
    }
    let ghost start = s@;
    if n < 10 {
        s.append("  ");
    } else if n < 100 {
        s.append(" ");
    }
    push_decimal(s, n);
    assert(s@ =~= start + right_aligned(decimal_text(n as nat), 3));
}

/// Appends `name` to the `" | "`-separated list `names` held in `joined`;
/// `first` tells whether the list is still empty.
pub(crate) fn push_joined(joined: &mut String, Ghost(names): Ghost<Seq<Seq<char>>>, first: bool, name: &str)
    requires
        old(joined)@ == join_names(names),
        first == (names.len() == 0),
    ensures
        final(joined)@ == join_names(names.push(name@)),
{
    let ghost all = names.push(name@);
    assert(all.drop_last() =~= names);
    if !first {
        joined.append(" | ");
    }
    joined.append(name);
    assert(joined@ =~= join_names(all));
}

} // verus!
