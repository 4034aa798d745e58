//! The identifiers of spawned boxes: `box_0`, `box_1`, and so on.

use vstd::prelude::*;
use vstd::string::StringExecFns;

verus! {

/// The character that writes the digit `d`.
pub open spec fn digit_char(d: nat) -> char {
    if d == 0 {
        '0'
    } else if d == 1 {
        '1'
    } else if d == 2 {
        '2'
    } else if d == 3 {
        '3'
    } else if d == 4 {
        '4'
    } else if d == 5 {
        '5'
    } else if d == 6 {
        '6'
    } else if d == 7 {
        '7'
    } else if d == 8 {
        '8'
    } else {
        '9'
    }
}

/// `n` written in base ten, most significant digit first, without leading
/// zeros; zero is written `0`.
pub open spec fn decimal(n: nat) -> Seq<char>
    decreases n,
{
    if n < 10 {
        seq![digit_char(n)]
    } else {
        decimal(n / 10).push(digit_char(n % 10))
    }
}

/// What every identifier starts with.
pub open spec fn name_prefix() -> Seq<char> {
    seq!['b', 'o', 'x', '_']
}

/// The identifier of the box that was spawned after `n` others.
pub open spec fn box_name_spec(n: nat) -> Seq<char> {
    name_prefix() + decimal(n)
}

/// Different digits are written differently.
pub proof fn lemma_digit_char_injective(a: nat, b: nat)
    requires
        a < 10,
        b < 10,
        digit_char(a) == digit_char(b),
    ensures
        a == b,
{
}

/// Different numbers are written differently.
pub proof fn lemma_decimal_injective(a: nat, b: nat)
    requires
        decimal(a) == decimal(b),
    ensures
        a == b,
    decreases a,
{
    if a < 10 {
        if b >= 10 {
            assert(decimal(b / 10).len() >= 1) by {
                lemma_decimal_nonempty(b / 10);
            }
            assert(decimal(b).len() >= 2);
        } else {
            assert(decimal(a)[0] == digit_char(a));
            assert(decimal(b)[0] == digit_char(b));
            lemma_digit_char_injective(a, b);
        }
    } else {
        if b < 10 {
            assert(decimal(a / 10).len() >= 1) by {
                lemma_decimal_nonempty(a / 10);
            }
            assert(decimal(a).len() >= 2);
        } else {
            let x = decimal(a / 10);
            let y = decimal(b / 10);
            assert(x.push(digit_char(a % 10)) == y.push(digit_char(b % 10)));
            assert(x.push(digit_char(a % 10)).drop_last() == x);
            assert(y.push(digit_char(b % 10)).drop_last() == y);
            assert(x.push(digit_char(a % 10)).last() == digit_char(a % 10));
            assert(y.push(digit_char(b % 10)).last() == digit_char(b % 10));
            lemma_decimal_injective(a / 10, b / 10);
            lemma_digit_char_injective(a % 10, b % 10);
        }
    }
}

proof fn lemma_decimal_nonempty(n: nat)
    ensures
        decimal(n).len() >= 1,
    decreases n,
{
    if n >= 10 {
        lemma_decimal_nonempty(n / 10);
    }
}

/// No two boxes get the same identifier.
pub proof fn lemma_box_names_distinct(a: nat, b: nat)
    requires
        a != b,
    ensures
        box_name_spec(a) != box_name_spec(b),
{
    if box_name_spec(a) == box_name_spec(b) {
        let p = name_prefix();
        assert((p + decimal(a)).subrange(p.len() as int, (p + decimal(a)).len() as int)
            == decimal(a));
        assert((p + decimal(b)).subrange(p.len() as int, (p + decimal(b)).len() as int)
            == decimal(b));
        lemma_decimal_injective(a, b);
    }
}

fn digit_str(d: usize) -> (s: &'static str)
    requires
        d < 10,
    ensures
        s@ == seq![digit_char(d as nat)],
{
    proof {
        reveal_strlit("0");
        reveal_strlit("1");
        reveal_strlit("2");
        reveal_strlit("3");
        reveal_strlit("4");
        reveal_strlit("5");
        reveal_strlit("6");
        reveal_strlit("7");
        reveal_strlit("8");
        reveal_strlit("9");
    }
    let s = if d == 0 {
        "0"
    } else if d == 1 {
        "1"
    } else if d == 2 {
        "2"
    } else if d == 3 {
        "3"
    } else if d == 4 {
        "4"
    } else if d == 5 {
        "5"
    } else if d == 6 {
        "6"
    } else if d == 7 {
        "7"
    } else if d == 8 {
        "8"
    } else {
        "9"
    };
    assert(s@ =~= seq![digit_char(d as nat)]);
    s
}

fn append_decimal(name: &mut String, n: usize)
    ensures
        final(name)@ == old(name)@ + decimal(n as nat),
    decreases n,
{
    if n >= 10 {
        append_decimal(name, n / 10);
    }
    name.append(digit_str(n % 10));
    assert(name@ =~= old(name)@ + decimal(n as nat));
}

/// The identifier of the box that was spawned after `n` others: `box_`
/// followed by `n` in base ten.
pub fn box_name(n: usize) -> (name: String)
    ensures
        name@ == box_name_spec(n as nat),
{
    proof {
        reveal_strlit("box_");
    }
    let mut name = String::from_str("box_");
    assert(name@ =~= name_prefix());
    append_decimal(&mut name, n);
    name
}

} // verus!
