//! The text of the labels: numbers written out in decimal, and the names and readouts
//! of the plot.

use vstd::prelude::*;
use vstd::string::StringExecFns;
use crate::arith::{pow10, pow10_exec, lemma_pow10_positive, lemma_pow10_monotonic, lemma_pow10_38};
use crate::data::{Table, TableView};
use crate::frame::Label;

verus! {

/// The character of a digit.
pub open spec fn digit_char(d: int) -> char {
    if d == 0 {
        '0'
    } else if d == 1 {
        '1'
    } else if d == 2 {
        '2'
    } else if d == 3 {
        '3'
    } else if d == 4 {
        '4'
    } else if d == 5 {
        '5'
    } else if d == 6 {
        '6'
    } else if d == 7 {
        '7'
    } else if d == 8 {
        '8'
    } else {
        '9'
    }
}

/// A number written out in decimal, without leading zeros.
pub open spec fn digits(n: nat) -> Seq<char>
    decreases n,
{
    if n < 10 {
        seq![digit_char(n as int)]
    } else {
        digits(n / 10).push(digit_char((n % 10) as int))
    }
}

/// The last `width` digits of a number, with leading zeros.
pub open spec fn padded(n: nat, width: nat) -> Seq<char>
    decreases width,
{
    if width == 0 {
        Seq::empty()
    } else {
        padded(n / 10, (width - 1) as nat).push(digit_char((n % 10) as int))
    }
}

/// A fraction of `width` digits without the zeros at its end: what is left of the
/// digits, and how many they are.
pub open spec fn trim(fraction: nat, width: nat) -> (nat, nat)
    decreases width,
{
    if width > 0 && fraction % 10 == 0 {
        trim(fraction / 10, (width - 1) as nat)
    } else {
        (fraction, width)
    }
}

/// The number `value / 10^decimals` written out with at most `places` decimal
/// places: it is rounded to that many places, halves away from zero, and zeros at
/// the end of the fraction are left out, with the point if nothing follows it.
pub open spec fn number_text(value: int, decimals: nat, places: nat) -> Seq<char> {
    let shown = if places < decimals {
        places
    } else {
        decimals
    };
    let scale = pow10((decimals - shown) as nat);
    let magnitude = if value < 0 {
        -value
    } else {
        value
    };
    let rounded = ((magnitude + scale / 2) / (scale as int)) as nat;
    let unit = pow10(shown);
    let t = trim(rounded % unit, shown);
    let sign = if value < 0 && rounded > 0 {
        seq!['-']
    } else {
        Seq::empty()
    };
    let fraction = if t.1 > 0 {
        seq!['.'] + padded(t.0, t.1)
    } else {
        Seq::empty()
    };
    sign + digits(rounded / unit) + fraction
}

/// The text of a label. `help` is the help text.
pub open spec fn label_spec(label: Label, table: TableView, help: Seq<char>) -> Seq<char> {
    match label {
        Label::Help => help,
        Label::Column(column) => table.columns[column as int],
        Label::Depth(column) => "z: "@ + table.columns[column as int],
        Label::Objects(count) => "#objects: "@ + digits(count as nat),
        Label::Number { value, decimals, digits } => number_text(
            value as int,
            decimals as nat,
            digits as nat,
        ),
    }
}

/// The text of one digit.
fn digit_str(d: u8) -> (r: &'static str)
    requires
        d < 10,
    ensures
        r@ == seq![digit_char(d as int)],
{
    proof {
        reveal_strlit("0");
        reveal_strlit("1");
        reveal_strlit("2");
        reveal_strlit("3");
        reveal_strlit("4");
        reveal_strlit("5");
        reveal_strlit("6");
        reveal_strlit("7");
        reveal_strlit("8");
        reveal_strlit("9");
    }
    let r: &'static str = match d {
        0 => "0",
        1 => "1",
        2 => "2",
        3 => "3",
        4 => "4",
        5 => "5",
        6 => "6",
        7 => "7",
        8 => "8",
        _ => "9",
    };
    assert(r@ =~= seq![digit_char(d as int)]);
    r
}

/// Writes a number out in decimal at the end of `text`.
fn push_digits(text: &mut String, n: u128)
    ensures
        final(text)@ == old(text)@ + digits(n as nat),
    decreases n,
{
    if n >= 10 {
        push_digits(text, n / 10);
    }
    text.append(digit_str((n % 10) as u8));
    assert(text@ =~= old(text)@ + digits(n as nat));
}

/// Writes the last `width` digits of a number at the end of `text`.
fn push_padded(text: &mut String, n: u128, width: u32)
    ensures
        final(text)@ == old(text)@ + padded(n as nat, width as nat),
    decreases width,
{
    if width > 0 {
        push_padded(text, n / 10, width - 1);
        text.append(digit_str((n % 10) as u8));
        assert(text@ =~= old(text)@ + padded(n as nat, width as nat));
    } else {
        assert(text@ =~= old(text)@ + padded(n as nat, width as nat));
    }
}

/// A number written out in decimal.
pub fn decimal(n: u128) -> (text: String)
    ensures
        text@ == digits(n as nat),
{
    let mut text: String = String::new();
    push_digits(&mut text, n);
    assert(text@ =~= digits(n as nat));
    text
}

/// The number `value / 10^decimals` written out with at most `places` decimal places.
pub fn format_number(value: i128, decimals: u32, places: u32) -> (text: String)
    requires
        decimals <= 38,
    ensures
        text@ == number_text(value as int, decimals as nat, places as nat),
{
    let shown: u32 = if places < decimals {
        places
    } else {
        decimals
    };
    proof {
        lemma_pow10_38();
        lemma_pow10_monotonic((decimals - shown) as nat, 38);
        lemma_pow10_monotonic(shown as nat, 38);
        lemma_pow10_positive((decimals - shown) as nat);
        lemma_pow10_positive(shown as nat);
    }
    let scale: u128 = pow10_exec(decimals - shown);
    let magnitude: u128 = if value < 0 {
        if value == i128::MIN {
            0x8000_0000_0000_0000_0000_0000_0000_0000
        } else {
            (-value) as u128
        }
    } else {
        value as u128
    };
    let rounded: u128 = (magnitude + scale / 2) / scale;
    let unit: u128 = pow10_exec(shown);
    let mut fraction: u128 = rounded % unit;
    let mut width: u32 = shown;
    while width > 0 && fraction % 10 == 0
        invariant
            trim(fraction as nat, width as nat) == trim((rounded % unit) as nat, shown as nat),
        decreases width,
    {
        fraction = fraction / 10;
        width = width - 1;
    }
    let mut text: String = String::new();
    if value < 0 && rounded > 0 {
        text.append("-");
    }
    push_digits(&mut text, rounded / unit);
    if width > 0 {
        text.append(".");
        push_padded(&mut text, fraction, width);
    }
    proof {
        reveal_strlit("-");
        reveal_strlit(".");
        assert("-"@ =~= seq!['-']);
        assert("."@ =~= seq!['.']);
        assert(text@ =~= number_text(value as int, decimals as nat, places as nat));
    }
    text
}

/// The text of a label of the plot of `table`.
pub fn label_text(label: Label, table: &Table, help: &String) -> (text: String)
    requires
        table.wf(),
        match label {
            Label::Column(column) => column < table@.columns.len(),
            Label::Depth(column) => column < table@.columns.len(),
            Label::Number { value, decimals, digits } => decimals <= 38,
            _ => true,
        },
    ensures
        text@ == label_spec(label, table@, help@),
{
    match label {
        Label::Help => help.clone(),
        Label::Column(column) => table.columns()[column].clone(),
        Label::Depth(column) => {
            let mut text: String = String::from_str("z: ");
            text.append(table.columns()[column].as_str());
            text
        },
        Label::Objects(count) => {
            let mut text: String = String::from_str("#objects: ");
            push_digits(&mut text, count as u128);
            text
        },
        Label::Number { value, decimals, digits } => format_number(value, decimals, digits),
    }
}

} // verus!
