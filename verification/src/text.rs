//! Text rendering: decimal numbers, quoted strings, and optional lines.

use vstd::prelude::*;
use vstd::string::*;

verus! {

/// The character of the decimal digit `d`.
pub open spec fn digit(d: nat) -> char {
    (48 + d) as char
}

/// `n` in decimal, without leading zeros.
pub open spec fn dec(n: nat) -> Seq<char>
    decreases n,
{
    if n < 10 {
        seq![digit(n)]
    } else {
        dec(n / 10).push(digit(n % 10))
    }
}

/// `n` in decimal, padded with zeros to at least two digits.
pub open spec fn two_digits(n: nat) -> Seq<char> {
    if n < 10 {
        "0"@ + dec(n)
    } else {
        dec(n)
    }
}

/// The characters of an optional text.
pub open spec fn text_of(line: Option<String>) -> Option<Seq<char>> {
    match line {
        Some(text) => Some(text@),
        None => None,
    }
}

/// The characters of each text of a list.
pub open spec fn texts_of(list: Seq<String>) -> Seq<Seq<char>> {
    list.map_values(|text: String| text@)
}

fn digit_text(d: u128) -> (text: &'static str)
    requires
        d < 10,
    ensures
        text@ == seq![digit(d as nat)],
{
    proof {
        reveal_strlit("0");
        reveal_strlit("1");
        reveal_strlit("2");
        reveal_strlit("3");
        reveal_strlit("4");
        reveal_strlit("5");
        reveal_strlit("6");
        reveal_strlit("7");
        reveal_strlit("8");
        reveal_strlit("9");
    }
    if d == 0 {
        "0"
    } else if d == 1 {
        "1"
    } else if d == 2 {
        "2"
    } else if d == 3 {
        "3"
    } else if d == 4 {
        "4"
    } else if d == 5 {
        "5"
    } else if d == 6 {
        "6"
    } else if d == 7 {
        "7"
    } else if d == 8 {
        "8"
    } else {
        "9"
    }
}

/// Renders a number in decimal.
pub fn dec_text(n: u128) -> (text: String)
    ensures
        text@ == dec(n as nat),
    decreases n,
{
    if n < 10 {
        digit_text(n).to_owned()
    } else {
        let mut text = dec_text(n / 10);
        text.append(digit_text(n % 10));
        text
    }
}

/// `n` in decimal, with a minus sign where it is negative.
pub open spec fn signed(n: int) -> Seq<char> {
    if n < 0 {
        "-"@ + dec((-n) as nat)
    } else {
        dec(n as nat)
    }
}

/// Renders a signed number in decimal.
pub fn signed_text(n: i32) -> (text: String)
    ensures
        text@ == signed(n as int),
{
    if n < 0 {
        let mut text = "-".to_owned();
        text.append(dec_text((-(n as i128)) as u128).as_str());
        text
    } else {
        dec_text(n as u128)
    }
}

/// Compares a text with a literal.
pub fn same_text(text: &String, literal: &str) -> (same: bool)
    ensures
        same == (text@ == literal@),
{
    let wanted = literal.to_owned();
    *text == wanted
}

/// What `{:?}` makes of a text: the text in double quotes, with its special characters escaped.
pub uninterp spec fn debug_text(text: Seq<char>) -> Seq<char>;

/// Quotes a text with the standard library's `Debug` formatting of `str`. The claim is only that
/// the result depends on nothing but the characters of the text.
#[verifier::external_body]
pub(crate) fn quoted(text: &str) -> (line: String)
    ensures
        line@ == debug_text(text@),
{
    format!("{:?}", text)
}

/// A list of texts, each in quotes, between commas.
pub open spec fn debug_items(list: Seq<Seq<char>>) -> Seq<char>
    decreases list.len(),
{
    if list.len() == 0 {
        ""@
    } else if list.len() == 1 {
        debug_text(list[0])
    } else {
        debug_items(list.drop_last()) + ", "@ + debug_text(list.last())
    }
}

/// Renders a list of texts, each in quotes, between brackets.
pub fn quoted_list(list: &[String]) -> (line: String)
    ensures
        line@ == "["@ + debug_items(texts_of(list@)) + "]"@,
{
    let mut items = "".to_owned();
    let mut i: usize = 0;
    let ghost texts = texts_of(list@);
    assert(texts.take(0) == Seq::<Seq<char>>::empty());
    while i < list.len()
        invariant
            i <= list@.len(),
            texts == texts_of(list@),
            items@ == debug_items(texts.take(i as int)),
        decreases list@.len() - i,
    {
        let text = quoted(list[i].as_str());
        proof {
            assert(texts.take(i + 1).drop_last() == texts.take(i as int));
            assert(texts.take(i + 1).last() == list@[i as int]@);
        }
        if i > 0 {
            items.append(", ");
            items.append(text.as_str());
        } else {
            items = text;
        }
        i += 1;
    }
    assert(texts.take(i as int) == texts);
    let mut line = "[".to_owned();
    line.append(items.as_str());
    line.append("]");
    line
}

} // verus!
