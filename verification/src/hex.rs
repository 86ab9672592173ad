use vstd::prelude::*;
use vstd::arithmetic::div_mod::lemma_fundamental_div_mod;
use crate::text::push_char;

verus! {

/// The lowercase hexadecimal digit for a value below sixteen.
pub open spec fn hex_digit(d: int) -> char {
    if d == 0 {
        '0'
    } else if d == 1 {
        '1'
    } else if d == 2 {
        '2'
    } else if d == 3 {
        '3'
    } else if d == 4 {
        '4'
    } else if d == 5 {
        '5'
    } else if d == 6 {
        '6'
    } else if d == 7 {
        '7'
    } else if d == 8 {
        '8'
    } else if d == 9 {
        '9'
    } else if d == 10 {
        'a'
    } else if d == 11 {
        'b'
    } else if d == 12 {
        'c'
    } else if d == 13 {
        'd'
    } else if d == 14 {
        'e'
    } else {
        'f'
    }
}

/// The number written in lowercase hexadecimal without leading zeroes, as
/// the standard `{:x}` formatting renders it.
pub open spec fn hex_of(n: nat) -> Seq<char>
    decreases n,
{
    if n < 16 {
        seq![hex_digit(n as int)]
    } else {
        hex_of(n / 16).push(hex_digit((n % 16) as int))
    }
}

pub proof fn lemma_hex_of_len(n: nat)
    ensures
        hex_of(n).len() >= 1,
        n >= 16 ==> hex_of(n).len() >= 2,
    decreases n,
{
    if n >= 16 {
        lemma_hex_of_len(n / 16);
    }
}

/// Two distinct numbers render as distinct hexadecimal strings.
pub proof fn lemma_hex_of_injective(a: nat, b: nat)
    ensures
        hex_of(a) == hex_of(b) ==> a == b,
    decreases a,
{
    if hex_of(a) == hex_of(b) {
        lemma_hex_of_len(a);
        lemma_hex_of_len(b);
        if a < 16 && b < 16 {
            assert(hex_of(a)[0] == hex_digit(a as int));
            assert(hex_of(b)[0] == hex_digit(b as int));
            assert(a == b);
        } else if a >= 16 && b >= 16 {
            assert(hex_of(a).last() == hex_digit((a % 16) as int));
            assert(hex_of(b).last() == hex_digit((b % 16) as int));
            assert(a % 16 == b % 16);
            assert(hex_of(a).drop_last() =~= hex_of(a / 16));
            assert(hex_of(b).drop_last() =~= hex_of(b / 16));
            lemma_hex_of_injective(a / 16, b / 16);
            lemma_fundamental_div_mod(a as int, 16);
            lemma_fundamental_div_mod(b as int, 16);
        } else if a < 16 {
            assert(hex_of(a).len() == 1);
            assert(hex_of(b).len() >= 2);
        } else {
            assert(hex_of(b).len() == 1);
            assert(hex_of(a).len() >= 2);
        }
    }
}

/// The number written in decimal, as the standard `{}` formatting renders
/// it; digits below ten share their characters with the hexadecimal table.
pub open spec fn dec_of(n: nat) -> Seq<char>
    decreases n,
{
    if n < 10 {
        seq![hex_digit(n as int)]
    } else {
        dec_of(n / 10).push(hex_digit((n % 10) as int))
    }
}

pub fn hex_digit_char(d: u8) -> (c: char)
    requires
        d < 16,
    ensures
        c == hex_digit(d as int),
{
    match d {
        0 => '0',
        1 => '1',
        2 => '2',
        3 => '3',
        4 => '4',
        5 => '5',
        6 => '6',
        7 => '7',
        8 => '8',
        9 => '9',
        10 => 'a',
        11 => 'b',
        12 => 'c',
        13 => 'd',
        14 => 'e',
        _ => 'f',
    }
}

/// Renders the number in decimal, as `{}` formatting does.
pub fn to_dec(n: u64) -> (r: String)
    ensures
        r@ == dec_of(n as nat),
    decreases n,
{
    let last = hex_digit_char((n % 10) as u8);
    if n < 10 {
        let mut s = String::new();
        push_char(&mut s, last);
        proof {
            assert(s@ =~= dec_of(n as nat));
        }
        s
    } else {
        let mut s = to_dec(n / 10);
        push_char(&mut s, last);
        s
    }
}

/// Renders the number in lowercase hexadecimal, as `{:x}` formatting does.
pub fn to_hex(n: u128) -> (r: String)
    ensures
        r@ == hex_of(n as nat),
    decreases n,
{
    let last = hex_digit_char((n % 16) as u8);
    if n < 16 {
        let mut s = String::new();
        push_char(&mut s, last);
        proof {
            assert(s@ =~= hex_of(n as nat));
        }
        s
    } else {
        let mut s = to_hex(n / 16);
        push_char(&mut s, last);
        s
    }
}

} // verus!
