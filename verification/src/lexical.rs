//! The lexical structure of a schema text, as mathematics.
//!
//! A text is a sequence of characters. [`lex`] says which tokens it holds,
//! where each one stands, and where and why the cutting stopped.
use vstd::prelude::*;
use crate::position::Pos;
use crate::tokenizer::{Kind, Source, TokenModel};

verus! {

/// Whether `c` is a digit.
pub open spec fn is_digit(c: char) -> bool {
    '0' <= c && c <= '9'
}

/// Whether a name can begin with `c`: a letter or an underscore.
pub open spec fn is_name_start(c: char) -> bool {
    c == '_' || ('a' <= c && c <= 'z') || ('A' <= c && c <= 'Z')
}

/// Whether a name can go on with `c`: a letter, a digit or an underscore.
pub open spec fn is_name_part(c: char) -> bool {
    is_name_start(c) || is_digit(c)
}

/// The punctuators of one character. The only longer one is `...`.
pub open spec fn is_punctuator(c: char) -> bool {
    c == '!' || c == '$' || c == ':' || c == '=' || c == '@' || c == '|' || c == '(' || c == ')'
        || c == '[' || c == ']' || c == '{' || c == '}' || c == '&'
}

/// The characters that end a number: blanks, the comment sign and the
/// punctuators.
pub open spec fn ends_number(c: char) -> bool {
    c == ' ' || c == '\n' || c == '\r' || c == '\t' || c == ',' || c == '#' || is_punctuator(c)
}

/// Where the next token can begin, looking from index `i` at place `pos`,
/// and the place there. Spaces and commas take one column, a tab eight, a
/// line feed opens a new line, a carriage return and a byte order mark
/// take no room. A comment runs from `#` to the end of its line, and
/// `comment` says whether `i` stands inside one.
pub open spec fn skip_blank(text: Seq<char>, i: int, pos: Pos, comment: bool) -> (int, Pos)
    decreases text.len() - i,
{
    if i < 0 || i >= text.len() {
        (i, pos)
    } else if comment {
        if text[i] == '\n' {
            skip_blank(text, i + 1, pos.below(), false)
        } else {
            skip_blank(text, i + 1, pos.right(1), true)
        }
    } else if text[i] == '#' {
        skip_blank(text, i + 1, pos.right(1), true)
    } else if text[i] == '\u{feff}' || text[i] == '\r' {
        skip_blank(text, i + 1, pos, false)
    } else if text[i] == '\t' {
        skip_blank(text, i + 1, pos.right(8), false)
    } else if text[i] == '\n' {
        skip_blank(text, i + 1, pos.below(), false)
    } else if text[i] == ' ' || text[i] == ',' {
        skip_blank(text, i + 1, pos.right(1), false)
    } else {
        (i, pos)
    }
}

/// The first index from `i` on that holds no name character.
pub open spec fn name_end(text: Seq<char>, i: int) -> int
    decreases text.len() - i,
{
    if 0 <= i < text.len() && is_name_part(text[i]) {
        name_end(text, i + 1)
    } else {
        i
    }
}

/// The first index from `i` on that holds no digit.
pub open spec fn digits_end(text: Seq<char>, i: int) -> int
    decreases text.len() - i,
{
    if 0 <= i < text.len() && is_digit(text[i]) {
        digits_end(text, i + 1)
    } else {
        i
    }
}

/// The first index from `i` on that ends a number.
pub open spec fn number_end(text: Seq<char>, i: int) -> int
    decreases text.len() - i,
{
    if 0 <= i < text.len() && !ends_number(text[i]) {
        number_end(text, i + 1)
    } else {
        i
    }
}

/// The end of the integer part that begins at `from`: an optional minus
/// sign, then either a single zero or a digit other than zero followed by
/// any digits.
pub open spec fn integer_end(text: Seq<char>, from: int) -> Option<int> {
    let d = if 0 <= from < text.len() && text[from] == '-' {
        from + 1
    } else {
        from
    };
    if !(0 <= d < text.len() && is_digit(text[d])) {
        None
    } else if text[d] == '0' {
        Some(d + 1)
    } else {
        Some(digits_end(text, d))
    }
}

/// The end of the fraction at `i`. No point there: `i` itself. A point
/// must be followed by a digit.
pub open spec fn fraction_end(text: Seq<char>, i: int) -> Option<int> {
    if 0 <= i < text.len() && text[i] == '.' {
        let e = digits_end(text, i + 1);
        if e > i + 1 {
            Some(e)
        } else {
            None
        }
    } else {
        Some(i)
    }
}

/// The end of the exponent at `i`. No `e` or `E` there: `i` itself. The
/// letter may be followed by one sign and must then be followed by a
/// digit.
pub open spec fn exponent_end(text: Seq<char>, i: int) -> Option<int> {
    if 0 <= i < text.len() && (text[i] == 'e' || text[i] == 'E') {
        let s = if i + 1 < text.len() && (text[i + 1] == '+' || text[i + 1] == '-') {
            i + 2
        } else {
            i + 1
        };
        let e = digits_end(text, s);
        if e > s {
            Some(e)
        } else {
            None
        }
    } else {
        Some(i)
    }
}

/// What kind of number the characters from `from` up to `to` spell: an
/// integer part alone is an `IntValue`; with a fraction, an exponent or
/// both it is a `FloatValue`; anything else is no number.
pub open spec fn number_kind(text: Seq<char>, from: int, to: int) -> Option<Kind> {
    match integer_end(text, from) {
        None => None,
        Some(a) => if a == to {
            Some(Kind::IntValue)
        } else {
            match fraction_end(text, a) {
                None => None,
                Some(b) => match exponent_end(text, b) {
                    None => None,
                    Some(c) => if c == to && c > a {
                        Some(Kind::FloatValue)
                    } else {
                        None
                    },
                },
            }
        },
    }
}

/// The index behind the quote that closes the string whose inside begins
/// at `i`. `escaped` says whether the character before `i` was a backslash
/// that escapes. A string ends at the first quote that is not escaped,
/// and must end before its line does.
pub open spec fn string_end(text: Seq<char>, i: int, escaped: bool) -> Option<int>
    decreases text.len() - i,
{
    if i < 0 || i >= text.len() {
        None
    } else if text[i] == '\n' {
        None
    } else if text[i] == '"' && !escaped {
        Some(i + 1)
    } else {
        string_end(text, i + 1, !escaped && text[i] == '\\')
    }
}

/// Whether three quotes stand at `i`.
pub open spec fn triple_quote_at(text: Seq<char>, i: int) -> bool {
    0 <= i && i + 3 <= text.len() && text[i] == '"' && text[i + 1] == '"' && text[i + 2] == '"'
}

/// The index behind the three quotes that close the block string whose
/// inside begins at `start`, looking from `i` on. Three quotes behind a
/// backslash do not close it.
pub open spec fn block_end(text: Seq<char>, start: int, i: int) -> Option<int>
    decreases text.len() - i,
{
    if i < 0 || i + 3 > text.len() {
        None
    } else if triple_quote_at(text, i) {
        if i > start && text[i - 1] == '\\' {
            block_end(text, start, i + 3)
        } else {
            Some(i + 3)
        }
    } else {
        block_end(text, start, i + 1)
    }
}

/// The token that begins at index `i`: its kind and the index behind it,
/// or the reason why none begins there.
pub open spec fn scan(text: Seq<char>, i: int) -> Result<(Kind, int), Seq<char>>
    recommends
        0 <= i < text.len(),
{
    let c = text[i];
    if is_punctuator(c) {
        Ok((Kind::Punctuator, i + 1))
    } else if c == '.' {
        if i + 3 <= text.len() && text[i + 1] == '.' && text[i + 2] == '.' {
            Ok((Kind::Punctuator, i + 3))
        } else {
            Err("bare dot is not supported, only \"...\""@)
        }
    } else if is_name_start(c) {
        Ok((Kind::Name, name_end(text, i + 1)))
    } else if c == '-' || is_digit(c) {
        let end = number_end(text, i + 1);
        match number_kind(text, i, end) {
            Some(kind) => Ok((kind, end)),
            None => Err("unsupported number "@ + text.subrange(i, end)),
        }
    } else if c == '"' {
        if triple_quote_at(text, i) {
            match block_end(text, i + 3, i + 3) {
                Some(end) => Ok((Kind::BlockString, end)),
                None => Err("unterminated block string value"@),
            }
        } else {
            match string_end(text, i + 1, false) {
                Some(end) => Ok((Kind::StringValue, end)),
                None => Err("unterminated string value"@),
            }
        }
    } else {
        Err("unexpected character "@.push(c))
    }
}

/// The place reached from `pos` by passing the characters from `from` up
/// to `to`, all of them inside one token.
pub open spec fn travel(text: Seq<char>, from: int, to: int, pos: Pos) -> Pos
    decreases to - from,
{
    if from >= to || !(0 <= from < text.len()) {
        pos
    } else {
        travel(text, from + 1, to, pos.after(text[from]))
    }
}

/// The tokens of `text` from index `i` on, behind the tokens `found` so
/// far. `i` is where a token can begin and `pos` is the place there.
pub open spec fn lex_from(text: Seq<char>, i: int, pos: Pos, found: Seq<TokenModel>) -> Source
    decreases text.len() - i,
{
    if i < 0 || i >= text.len() {
        Source { tokens: found, end: pos, fault: None }
    } else {
        match scan(text, i) {
            Err(message) => Source { tokens: found, end: pos, fault: Some(message) },
            Ok((kind, end)) => if i < end <= text.len() {
                let token = TokenModel { kind, value: text.subrange(i, end), position: pos };
                let next = skip_blank(text, end, travel(text, i, end, pos), false);
                if i < next.0 <= text.len() {
                    lex_from(text, next.0, next.1, found.push(token))
                } else {
                    Source { tokens: found, end: pos, fault: None }
                }
            } else {
                Source { tokens: found, end: pos, fault: None }
            },
        }
    }
}

/// The tokens of `text`: each with its kind, its characters and the place
/// of its first character. `end` is the place where the cutting stopped,
/// and `fault` says why if that was not the end of the text.
pub open spec fn lex(text: Seq<char>) -> Source {
    let first = skip_blank(text, 0, Pos::origin(), false);
    lex_from(text, first.0, first.1, Seq::empty())
}

/// Skipping blanks never goes back, and never leaves the text.
pub proof fn lemma_skip_blank_bounds(text: Seq<char>, i: int, pos: Pos, comment: bool)
    requires
        0 <= i <= text.len(),
    ensures
        i <= skip_blank(text, i, pos, comment).0 <= text.len(),
    decreases text.len() - i,
{
    if i < text.len() {
        let c = text[i];
        if comment {
            if c == '\n' {
                lemma_skip_blank_bounds(text, i + 1, pos.below(), false);
            } else {
                lemma_skip_blank_bounds(text, i + 1, pos.right(1), true);
            }
        } else if c == '#' {
            lemma_skip_blank_bounds(text, i + 1, pos.right(1), true);
        } else if c == '\u{feff}' || c == '\r' {
            lemma_skip_blank_bounds(text, i + 1, pos, false);
        } else if c == '\t' {
            lemma_skip_blank_bounds(text, i + 1, pos.right(8), false);
        } else if c == '\n' {
            lemma_skip_blank_bounds(text, i + 1, pos.below(), false);
        } else if c == ' ' || c == ',' {
            lemma_skip_blank_bounds(text, i + 1, pos.right(1), false);
        }
    }
}

} // verus!
