use crate::util::text::push_char;
use vstd::prelude::*;
use vstd::string::StringExecFns;

verus! {

/// The character for a decimal digit; `'0'` for anything above nine.
pub open spec fn digit_char(d: nat) -> char {
    if d == 1 {
        '1'
    } else if d == 2 {
        '2'
    } else if d == 3 {
        '3'
    } else if d == 4 {
        '4'
    } else if d == 5 {
        '5'
    } else if d == 6 {
        '6'
    } else if d == 7 {
        '7'
    } else if d == 8 {
        '8'
    } else if d == 9 {
        '9'
    } else {
        '0'
    }
}

/// The decimal numeral of `n`, without leading zeros.
pub open spec fn decimal(n: nat) -> Seq<char>
    decreases n,
{
    if n < 10 {
        seq![digit_char(n)]
    } else {
        decimal(n / 10).push(digit_char(n % 10))
    }
}

/// The letter of the `unit`-th unit of size, each 1024 times the one before.
pub open spec fn unit_char(unit: nat) -> char {
    if unit == 0 {
        'B'
    } else if unit == 1 {
        'K'
    } else if unit == 2 {
        'M'
    } else if unit == 3 {
        'G'
    } else if unit == 4 {
        'T'
    } else if unit == 5 {
        'P'
    } else {
        'E'
    }
}

/// A size brought down to a unit: what is left after dividing by 1024 as
/// long as more than 1024 is left, the remainder of the last division, and
/// the number of divisions.
pub open spec fn scaled(whole: nat, rest: nat, unit: nat) -> (nat, nat, nat)
    decreases whole,
{
    if whole <= 1024 {
        (whole, rest, unit)
    } else {
        scaled(whole / 1024, whole % 1024, unit + 1)
    }
}

/// The size of the `unit`-th unit in bytes: 1024 to the power `unit`.
pub open spec fn unit_size(unit: nat) -> nat
    decreases unit,
{
    if unit == 0 {
        1
    } else {
        1024 * unit_size((unit - 1) as nat)
    }
}

/// What [`scaled`] gives, said with division: a size that has been divided
/// `unit` times and is scaled further comes out as the size divided by the
/// size of the unit reached, which is the first that leaves at most 1024;
/// the remainder is that of the last division.
pub proof fn lemma_scaled(size: nat, whole: nat, rest: nat, unit: nat)
    requires
        whole == size / unit_size(unit),
        unit > 0 ==> rest == (size / unit_size((unit - 1) as nat)) % 1024,
        unit == 0 ==> rest == 0,
        unit > 0 ==> size / unit_size((unit - 1) as nat) > 1024,
    ensures
        ({
            let (w, r, u) = scaled(whole, rest, unit);
            &&& u >= unit
            &&& w == size / unit_size(u)
            &&& w <= 1024
            &&& u > 0 ==> r == (size / unit_size((u - 1) as nat)) % 1024
            &&& u > 0 ==> size / unit_size((u - 1) as nat) > 1024
            &&& u == 0 ==> r == 0
        }),
    decreases whole,
{
    lemma_unit_size_positive(unit);
    if whole > 1024 {
        let next = unit_size(unit + 1);
        assert(next == 1024 * unit_size(unit));
        vstd::arithmetic::div_mod::lemma_div_denominator(
            size as int,
            unit_size(unit) as int,
            1024,
        );
        assert(unit_size(unit) * 1024 == next) by (nonlinear_arith)
            requires
                next == 1024 * unit_size(unit),
        ;
        lemma_scaled(size, whole / 1024, whole % 1024, unit + 1);
    }
}

/// The unit in which a size is shown is the first that leaves at most
/// 1024 of it; the number shown before the point is the size divided by the
/// size of that unit, and the decimals come from the remainder of the
/// division before.
pub proof fn lemma_file_size_unit(size: nat)
    ensures
        ({
            let (whole, rest, unit) = scaled(size, 0, 0);
            &&& whole == size / unit_size(unit)
            &&& whole <= 1024
            &&& unit > 0 ==> size / unit_size((unit - 1) as nat) > 1024
            &&& unit > 0 ==> rest == (size / unit_size((unit - 1) as nat)) % 1024
            &&& unit == 0 ==> rest == 0
        }),
{
    assert(unit_size(0) == 1);
    assert(size / 1 == size);
    lemma_scaled(size, size, 0, 0);
}

/// Every unit has a size.
pub proof fn lemma_unit_size_positive(unit: nat)
    ensures
        unit_size(unit) > 0,
    decreases unit,
{
    if unit > 0 {
        lemma_unit_size_positive((unit - 1) as nat);
    }
}

/// The text for a size in bytes: `512 B` below the first unit; above it
/// the whole units, a point, two decimals cut off (not rounded) from the
/// remainder of the last division, and the unit's letter, as in `1.50 K`.
pub open spec fn file_size_text(size: nat) -> Seq<char> {
    let (whole, rest, unit) = scaled(size, 0, 0);
    if unit == 0 {
        decimal(whole) + seq![' ', 'B']
    } else {
        let hundredths = rest * 100 / 1024;
        decimal(whole) + seq!['.', digit_char(hundredths / 10), digit_char(hundredths % 10), ' ', unit_char(unit)]
    }
}

fn digit(d: u64) -> (c: char)
    ensures
        c == digit_char(d as nat),
{
    if d == 1 {
        '1'
    } else if d == 2 {
        '2'
    } else if d == 3 {
        '3'
    } else if d == 4 {
        '4'
    } else if d == 5 {
        '5'
    } else if d == 6 {
        '6'
    } else if d == 7 {
        '7'
    } else if d == 8 {
        '8'
    } else if d == 9 {
        '9'
    } else {
        '0'
    }
}

fn unit_letter(unit: u64) -> (c: char)
    ensures
        c == unit_char(unit as nat),
{
    if unit == 0 {
        'B'
    } else if unit == 1 {
        'K'
    } else if unit == 2 {
        'M'
    } else if unit == 3 {
        'G'
    } else if unit == 4 {
        'T'
    } else if unit == 5 {
        'P'
    } else {
        'E'
    }
}

/// Appends the decimal numeral of `n` to `s`.
pub fn push_decimal(s: &mut String, n: u64)
    ensures
        final(s)@ == old(s)@ + decimal(n as nat),
    decreases n,
{
    if n >= 10 {
        push_decimal(s, n / 10);
    }
    push_char(s, digit(n % 10));
    assert(s@ =~= old(s)@ + decimal(n as nat));
}

/// The text for a size in bytes, in the largest unit that leaves at
/// least one whole.
pub fn file_size_to_string(file_size: u64) -> (s: String)
    ensures
        s@ == file_size_text(file_size as nat),
{
    let mut whole: u64 = file_size;
    let mut rest: u64 = 0;
    let mut unit: u64 = 0;
    while whole > 1024
        invariant
            rest < 1024,
            unit + whole <= file_size,
            scaled(file_size as nat, 0, 0) == scaled(whole as nat, rest as nat, unit as nat),
        decreases whole,
    {
        rest = whole % 1024;
        whole = whole / 1024;
        unit = unit + 1;
    }
    let mut s = String::new();
    push_decimal(&mut s, whole);
    if unit == 0 {
        s.append(" B");
        proof {
            reveal_strlit(" B");
            assert(" B"@ =~= seq![' ', 'B']);
        }
    } else {
        let hundredths: u64 = rest * 100 / 1024;
        push_char(&mut s, '.');
        push_char(&mut s, digit(hundredths / 10));
        push_char(&mut s, digit(hundredths % 10));
        push_char(&mut s, ' ');
        push_char(&mut s, unit_letter(unit));
    }
    assert(s@ =~= file_size_text(file_size as nat));
    s
}

} // verus!
