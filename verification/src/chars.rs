//! Characters and strings: what the rest of the library takes from `std`.
//!
//! The functions of `std` that are given a contract here are believed, not
//! proved: white space, pushing a character, lower case, trimming and
//! quoting. White space and trimming are stated in full; lower case and
//! quoting are named only.

use vstd::prelude::*;

verus! {

/// Whether `c` has the Unicode property `White_Space`: the controls from
/// tab to carriage return, the space, next line, the no-break space, the
/// ogham space mark, the spaces from en quad to hair space, the line and
/// paragraph separators, the narrow no-break space, the medium mathematical
/// space and the ideographic space.
pub open spec fn white_space(c: char) -> bool {
    let code = c as u32;
    ||| 0x9 <= code <= 0xd
    ||| code == 0x20
    ||| code == 0x85
    ||| code == 0xa0
    ||| code == 0x1680
    ||| 0x2000 <= code <= 0x200a
    ||| code == 0x2028
    ||| code == 0x2029
    ||| code == 0x202f
    ||| code == 0x205f
    ||| code == 0x3000
}

/// `char::is_whitespace` tells whether a character has the Unicode property
/// `White_Space`.
pub assume_specification[ char::is_whitespace ](c: char) -> (r: bool)
    ensures
        r == white_space(c),
;

/// `String::push` appends one character at the end.
pub assume_specification[ std::string::String::push ](text: &mut std::string::String, c: char)
    ensures
        final(text)@ == old(text)@.push(c),
;

/// The lower-case form of a text, as Unicode defines it.
pub uninterp spec fn lowercased(text: Seq<char>) -> Seq<char>;

/// `str::to_lowercase` gives the lower-case equivalent of a text as a new
/// string.
pub assume_specification[ str::to_lowercase ](text: &str) -> (lower: String)
    ensures
        lower@ == lowercased(text@),
;

/// How many characters of white space a text begins with from `from` on.
pub open spec fn leading_space(text: Seq<char>, from: int) -> nat
    decreases text.len() - from,
{
    if 0 <= from < text.len() && white_space(text[from]) {
        1 + leading_space(text, from + 1)
    } else {
        0
    }
}

/// How many characters of white space a text ends in.
pub open spec fn trailing_space(text: Seq<char>) -> nat
    decreases text.len(),
{
    if text.len() > 0 && white_space(text.last()) {
        1 + trailing_space(text.drop_last())
    } else {
        0
    }
}

/// A text without the white space at its beginning and at its end.
pub open spec fn trimmed(text: Seq<char>) -> Seq<char> {
    let lead = leading_space(text, 0);
    if lead >= text.len() {
        Seq::empty()
    } else {
        text.subrange(lead as int, text.len() - trailing_space(text))
    }
}

/// `str::trim` gives the part of a text that is left when the white space
/// (Unicode `White_Space`) at its beginning and at its end is taken away.
pub assume_specification<'a>[ str::trim ](text: &'a str) -> (part: &'a str)
    ensures
        part@ == trimmed(text@),
;

/// The quoted form of a text: what `{:?}` writes for a string, in double
/// quotes and with escapes.
pub uninterp spec fn quoted(text: Seq<char>) -> Seq<char>;

/// Formats a string with `{:?}`, that is with `Debug` for `str`: the result
/// is the text in double quotes, with escapes where the text holds a quote, a
/// backslash or a character that does not print.
#[verifier::external_body]
pub(crate) fn quote(text: &str) -> (r: String)
    ensures
        r@ == quoted(text@),
{
    format!("{:?}", text)
}

/// The code points of `source`, in order.
pub fn code_points(source: &str) -> (points: Vec<char>)
    ensures
        points@ == source@,
{
    let mut points: Vec<char> = Vec::new();
    for c in it: source.chars()
        invariant
            it.seq() == source@,
            points@ == it.seq().take(it.index()),
    {
        points.push(c);
    }
    points
}

/// The characters as a string, in their order or turned around.
pub fn string_of(chars: &Vec<char>, backwards: bool) -> (text: String)
    ensures
        text@ == if backwards {
            chars@.reverse()
        } else {
            chars@
        },
{
    let mut text = String::new();
    let mut done: usize = 0;
    while done < chars.len()
        invariant
            done <= chars@.len(),
            text@.len() == done,
            forall|i: int|
                0 <= i < done ==> text@[i] == if backwards {
                    chars@[chars@.len() - 1 - i]
                } else {
                    chars@[i]
                },
        decreases chars@.len() - done,
    {
        let c = if backwards {
            chars[chars.len() - 1 - done]
        } else {
            chars[done]
        };
        text.push(c);
        done = done + 1;
    }
    text
}

} // verus!
