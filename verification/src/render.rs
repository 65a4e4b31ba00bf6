//! A picture of one image in text, for a look at what was loaded.
//!
//! The picture has a heading with the label and then one line for each of the
//! 28 rows of the image. A pixel takes two characters: `__` where it is 0,
//! `##` where it is anything else.

use vstd::prelude::*;
use vstd::string::StringExecFns;

verus! {

/// The number of pixel rows of an image that can be drawn.
pub const IMAGE_ROWS: usize = 28;

/// The number of pixel columns of an image that can be drawn.
pub const IMAGE_COLUMNS: usize = 28;

/// The number of pixels of an image that can be drawn.
pub const IMAGE_SIZE: usize = 784;

/// The character of the decimal digit `d`.
pub open spec fn digit(d: int) -> char {
    if d == 0 {
        '0'
    } else if d == 1 {
        '1'
    } else if d == 2 {
        '2'
    } else if d == 3 {
        '3'
    } else if d == 4 {
        '4'
    } else if d == 5 {
        '5'
    } else if d == 6 {
        '6'
    } else if d == 7 {
        '7'
    } else if d == 8 {
        '8'
    } else {
        '9'
    }
}

/// `n` in decimal digits, without leading zeros.
pub open spec fn decimal(n: u8) -> Seq<char> {
    if n < 10 {
        seq![digit(n as int)]
    } else if n < 100 {
        seq![digit(n as int / 10), digit(n as int % 10)]
    } else {
        seq![digit(n as int / 100), digit(n as int / 10 % 10), digit(n as int % 10)]
    }
}

/// What stands above the picture of an image with the label `label`.
pub open spec fn heading(label: u8) -> Seq<char> {
    "Sample image label: "@ + decimal(label) + " \nSample image:\n"@
}

/// The picture of `image`: 28 lines of 56 characters and a line feed each,
/// where characters `2 * c` and `2 * c + 1` of line `r` show the pixel in row
/// `r` and column `c`, as `_` where it is 0 and as `#` where it is not.
pub open spec fn picture(image: Seq<u8>) -> Seq<char> {
    Seq::new(
        28 * 57,
        |k: int|
            if k % 57 == 56 {
                '\n'
            } else if image[(k / 57) * 28 + (k % 57) / 2] == 0 {
                '_'
            } else {
                '#'
            },
    )
}

/// The text that shows `image` with its label: the heading, then the
/// picture.
pub open spec fn rendering(image: Seq<u8>, label: u8) -> Seq<char> {
    heading(label) + picture(image)
}

/// The one-character string of the digit `d`.
fn digit_str(d: u8) -> (s: &'static str)
    requires
        d < 10,
    ensures
        s@ == seq![digit(d as int)],
{
    proof {
        reveal_strlit("0");
        reveal_strlit("1");
        reveal_strlit("2");
        reveal_strlit("3");
        reveal_strlit("4");
        reveal_strlit("5");
        reveal_strlit("6");
        reveal_strlit("7");
        reveal_strlit("8");
        reveal_strlit("9");
    }
    let s = if d == 0 {
        "0"
    } else if d == 1 {
        "1"
    } else if d == 2 {
        "2"
    } else if d == 3 {
        "3"
    } else if d == 4 {
        "4"
    } else if d == 5 {
        "5"
    } else if d == 6 {
        "6"
    } else if d == 7 {
        "7"
    } else if d == 8 {
        "8"
    } else {
        "9"
    };
    assert(s@ =~= seq![digit(d as int)]);
    s
}

/// Appends `n` in decimal digits to `text`.
fn append_decimal(text: &mut String, n: u8)
    ensures
        final(text)@ == old(text)@ + decimal(n),
{
    if n >= 100 {
        text.append(digit_str(n / 100));
    }
    if n >= 10 {
        text.append(digit_str(n / 10 % 10));
    }
    text.append(digit_str(n % 10));
    assert(text@ =~= old(text)@ + decimal(n));
}

/// Draws a 28 by 28 image with its label as text.
pub fn render_image(image: &[u8], label: u8) -> (text: String)
    requires
        image@.len() == IMAGE_SIZE,
    ensures
        text@ == rendering(image@, label),
{
    let mut text = String::from_str("Sample image label: ");
    append_decimal(&mut text, label);
    text.append(" \nSample image:\n");
    let ghost drawn = picture(image@);
    let mut row: usize = 0;
    while row < IMAGE_ROWS
        invariant
            row <= 28,
            image@.len() == 784,
            drawn == picture(image@),
            text@ == heading(label) + drawn.subrange(0, row * 57),
        decreases 28 - row,
    {
        let mut col: usize = 0;
        while col < IMAGE_COLUMNS
            invariant
                row < 28,
                col <= 28,
                image@.len() == 784,
                drawn == picture(image@),
                text@ == heading(label) + drawn.subrange(0, row * 57 + col * 2),
            decreases 28 - col,
        {
            let ghost before = text@;
            if image[row * IMAGE_COLUMNS + col] == 0 {
                text.append("__");
            } else {
                text.append("##");
            }
            proof {
                reveal_strlit("__");
                reveal_strlit("##");
                let at = row * 57 + col * 2;
                assert(at / 57 == row && at % 57 == col * 2);
                assert((at + 1) / 57 == row && (at + 1) % 57 == col * 2 + 1);
                assert(drawn.subrange(0, at + 2) =~= drawn.subrange(0, at) + seq![
                    drawn[at],
                    drawn[at + 1],
                ]);
                assert(text@ =~= before + seq![drawn[at], drawn[at + 1]]);
            }
            col = col + 1;
        }
        text.append("\n");
        proof {
            reveal_strlit("\n");
            let at = row * 57 + 56;
            assert(at / 57 == row && at % 57 == 56);
            assert(drawn.subrange(0, at + 1) =~= drawn.subrange(0, at) + seq![drawn[at]]);
            assert(text@ =~= heading(label) + drawn.subrange(0, at + 1));
        }
        row = row + 1;
    }
    assert(drawn.subrange(0, 1596) =~= drawn);
    text
}

} // verus!
