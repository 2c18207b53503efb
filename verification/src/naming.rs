//! The default name of the file that a padded sheet is written to.

use vstd::prelude::*;

verus! {

/// The character for a decimal digit.
pub open spec fn digit(value: nat) -> char {
    seq!['0', '1', '2', '3', '4', '5', '6', '7', '8', '9'][value as int]
}

/// The decimal numeral of `n`, without sign or leading zeros.
pub open spec fn decimal(n: nat) -> Seq<char>
    decreases n,
{
    if n < 10 {
        seq![digit(n)]
    } else {
        decimal(n / 10).push(digit(n % 10))
    }
}

/// The default output name for a sheet whose file name, without its
/// extension, is `stem`: `./<stem>-<width>x<height>-pad<padding>.png`, the
/// three numbers in decimal.
pub open spec fn default_output_name(
    stem: Seq<char>,
    width: nat,
    height: nat,
    padding: nat,
) -> Seq<char> {
    seq!['.', '/'] + stem + seq!['-'] + decimal(width) + seq!['x'] + decimal(height) + seq![
        '-',
        'p',
        'a',
        'd',
    ] + decimal(padding) + seq!['.', 'p', 'n', 'g']
}

/// The one-character text of a decimal digit.
fn digit_text(value: u32) -> (text: &'static str)
    requires
        value < 10,
    ensures
        text@ == seq![digit(value as nat)],
{
    proof {
        reveal_strlit("0");
        reveal_strlit("1");
        reveal_strlit("2");
        reveal_strlit("3");
        reveal_strlit("4");
        reveal_strlit("5");
        reveal_strlit("6");
        reveal_strlit("7");
        reveal_strlit("8");
        reveal_strlit("9");
    }
    let text = if value == 0 {
        "0"
    } else if value == 1 {
        "1"
    } else if value == 2 {
        "2"
    } else if value == 3 {
        "3"
    } else if value == 4 {
        "4"
    } else if value == 5 {
        "5"
    } else if value == 6 {
        "6"
    } else if value == 7 {
        "7"
    } else if value == 8 {
        "8"
    } else {
        "9"
    };
    assert(text@ =~= seq![digit(value as nat)]);
    text
}

/// Appends the decimal numeral of `n` to `text`.
fn append_decimal(text: &mut String, n: u32)
    ensures
        final(text)@ == old(text)@ + decimal(n as nat),
    decreases n,
{
    if n >= 10 {
        append_decimal(text, n / 10);
    }
    text.append(digit_text(n % 10));
    assert(text@ =~= old(text)@ + decimal(n as nat));
}

/// The default path of the padded sheet, in the working directory, for a
/// sheet whose file name without its extension is `stem`.
pub fn default_output_path(stem: &str, width: &u32, height: &u32, padding: &u32) -> (path: String)
    ensures
        path@ == default_output_name(stem@, *width as nat, *height as nat, *padding as nat),
{
    proof {
        reveal_strlit("./");
        reveal_strlit("-");
        reveal_strlit("x");
        reveal_strlit("-pad");
        reveal_strlit(".png");
    }
    let mut path = String::from_str("./");
    path.append(stem);
    path.append("-");
    append_decimal(&mut path, *width);
    path.append("x");
    append_decimal(&mut path, *height);
    path.append("-pad");
    append_decimal(&mut path, *padding);
    path.append(".png");
    assert(path@ =~= default_output_name(
        stem@,
        *width as nat,
        *height as nat,
        *padding as nat,
    ));
    path
}

} // verus!
