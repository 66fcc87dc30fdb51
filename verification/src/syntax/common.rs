//! The rules that every part of the language shares: strings, values,
//! type references and directives.
use vstd::prelude::*;
use crate::common::{DirectiveModel, TypeModel, ValueModel};
use crate::error::{ErrorItemModel, ErrorModel};
use crate::lexical::{is_digit, triple_quote_at};
use crate::syntax::{at_ident, at_kind, at_punct, name, place, punct, unexpected, Parsed};
use crate::tokenizer::{Kind, Source};

verus! {

/// The diagnostic for index `i` that holds `message` and nothing else.
pub open spec fn problem(src: Source, i: int, message: Seq<char>) -> ErrorModel {
    ErrorModel { position: place(src, i), errors: seq![ErrorItemModel::Message(message)] }
}

/// The number that the hexadecimal digit `c` stands for.
pub open spec fn hex_digit(c: char) -> Option<int> {
    if '0' <= c && c <= '9' {
        Some(c as int - '0' as int)
    } else if 'a' <= c && c <= 'f' {
        Some(c as int - 'a' as int + 10)
    } else if 'A' <= c && c <= 'F' {
        Some(c as int - 'A' as int + 10)
    } else {
        None
    }
}

/// The number that the four hexadecimal digits at `i` stand for.
pub open spec fn hex_code(s: Seq<char>, i: int) -> Option<int> {
    if 0 <= i && i + 4 <= s.len() {
        match (hex_digit(s[i]), hex_digit(s[i + 1]), hex_digit(s[i + 2]), hex_digit(s[i + 3])) {
            (Some(a), Some(b), Some(c), Some(d)) => Some(((a * 16 + b) * 16 + c) * 16 + d),
            _ => None,
        }
    } else {
        None
    }
}

/// Whether `code` is the number of a character.
pub open spec fn is_scalar(code: int) -> bool {
    0 <= code < 0xD800 || 0xE000 <= code <= 0x10FFFF
}

/// The character that a backslash and `c` stand for.
pub open spec fn escape_of(c: char) -> Option<char> {
    if c == '"' || c == '\\' || c == '/' {
        Some(c)
    } else if c == 'b' {
        Some('\u{8}')
    } else if c == 'f' {
        Some('\u{c}')
    } else if c == 'n' {
        Some('\n')
    } else if c == 'r' {
        Some('\r')
    } else if c == 't' {
        Some('\t')
    } else {
        None
    }
}

/// The characters that `s` spells from `i` up to `end`, behind `found`: a
/// backslash and the character behind it stand for one character, as do a
/// backslash, `u` and four hexadecimal digits; every other character
/// stands for itself.
pub open spec fn unescape(s: Seq<char>, i: int, end: int, found: Seq<char>) -> Result<
    Seq<char>,
    Seq<char>,
>
    decreases end - i,
{
    if i < 0 || i >= end || end > s.len() {
        Ok(found)
    } else if s[i] != '\\' {
        unescape(s, i + 1, end, found.push(s[i]))
    } else if i + 1 >= end {
        Err("bad escaped character"@)
    } else if s[i + 1] == 'u' {
        if i + 6 <= end {
            match hex_code(s, i + 2) {
                Some(code) => if is_scalar(code) {
                    unescape(s, i + 6, end, found.push(code as char))
                } else {
                    Err("bad unicode escape"@)
                },
                None => Err("bad unicode escape"@),
            }
        } else {
            Err("bad unicode escape"@)
        }
    } else {
        match escape_of(s[i + 1]) {
            Some(c) => unescape(s, i + 2, end, found.push(c)),
            None => Err("bad escaped character"@),
        }
    }
}

/// What the quoted string `s` spells.
pub open spec fn unquote(s: Seq<char>) -> Result<Seq<char>, Seq<char>> {
    if s.len() >= 2 && s[0] == '"' && s[s.len() - 1] == '"' {
        unescape(s, 1, s.len() - 1, Seq::empty())
    } else {
        Err("string is not quoted"@)
    }
}

/// The characters that the inside of a block string spells from `i` up to
/// `end`, behind `found`: a backslash before three quotes stands for
/// nothing, every other character for itself.
pub open spec fn block_text(s: Seq<char>, i: int, end: int, found: Seq<char>) -> Seq<char>
    decreases end - i,
{
    if i < 0 || i >= end || end > s.len() {
        found
    } else if s[i] == '\\' && i + 4 <= end && triple_quote_at(s, i + 1) {
        block_text(s, i + 4, end, found.push('"').push('"').push('"'))
    } else {
        block_text(s, i + 1, end, found.push(s[i]))
    }
}

/// The index at which the line ends that holds index `i`: that of its
/// line feed or carriage return, or the length of `raw`.
pub open spec fn line_end(raw: Seq<char>, i: int) -> int
    decreases raw.len() - i,
{
    if 0 <= i < raw.len() && raw[i] != '\n' && raw[i] != '\r' {
        line_end(raw, i + 1)
    } else {
        i
    }
}

/// The index at which the next line begins, where a line ends at index
/// `e`: behind the line feed, the carriage return, or the two together.
pub open spec fn next_line(raw: Seq<char>, e: int) -> int {
    if 0 <= e && e + 1 < raw.len() && raw[e] == '\r' && raw[e + 1] == '\n' {
        e + 2
    } else {
        e + 1
    }
}

/// The lines of `raw` from index `i` on, each as the index at which it
/// begins and the index at which it ends, behind the lines `found`.
pub open spec fn lines(raw: Seq<char>, i: int, found: Seq<(int, int)>) -> Seq<(int, int)>
    decreases raw.len() - i,
{
    let e = line_end(raw, i);
    if 0 <= i <= e < raw.len() {
        lines(raw, next_line(raw, e), found.push((i, e)))
    } else {
        found.push((i, e))
    }
}

/// The first index from `i` up to `e` that holds neither a space nor a
/// tab; `e` if there is none.
pub open spec fn white_end(raw: Seq<char>, i: int, e: int) -> int
    decreases e - i,
{
    if 0 <= i < e <= raw.len() && (raw[i] == ' ' || raw[i] == '\t') {
        white_end(raw, i + 1, e)
    } else {
        i
    }
}

/// Whether the line holds nothing but spaces and tabs.
pub open spec fn is_blank(raw: Seq<char>, line: (int, int)) -> bool {
    white_end(raw, line.0, line.1) >= line.1
}

/// The least number of spaces and tabs in front of a line that is not
/// blank, among the lines from number `k` on and `best`.
pub open spec fn common_indent(raw: Seq<char>, all: Seq<(int, int)>, k: int, best: Option<int>)
    -> Option<int>
    decreases all.len() - k,
{
    if k < 0 || k >= all.len() {
        best
    } else {
        let w = white_end(raw, all[k].0, all[k].1) - all[k].0;
        if !is_blank(raw, all[k]) && (best is None || w < best->0) {
            common_indent(raw, all, k + 1, Some(w))
        } else {
            common_indent(raw, all, k + 1, best)
        }
    }
}

/// The number of the first line from number `k` on that is not blank.
pub open spec fn first_text(raw: Seq<char>, all: Seq<(int, int)>, k: int) -> int
    decreases all.len() - k,
{
    if 0 <= k < all.len() && is_blank(raw, all[k]) {
        first_text(raw, all, k + 1)
    } else {
        k
    }
}

/// The number behind the last line before number `k` that is not blank.
pub open spec fn last_text(raw: Seq<char>, all: Seq<(int, int)>, k: int) -> int
    decreases k,
{
    if 0 < k <= all.len() && is_blank(raw, all[k - 1]) {
        last_text(raw, all, k - 1)
    } else {
        k
    }
}

/// Where the line of number `k` begins once `indent` characters are
/// taken from its front: the first line of all keeps its front, and a
/// line that is shorter is left empty.
pub open spec fn dedented(all: Seq<(int, int)>, k: int, indent: int) -> int {
    if k == 0 {
        all[k].0
    } else if all[k].0 + indent < all[k].1 {
        all[k].0 + indent
    } else {
        all[k].1
    }
}

/// The lines from number `k` up to number `to`, each without the common
/// indent, with a line feed between them, behind `found`. `first` is the
/// number of the first line that is written.
pub open spec fn joined(
    raw: Seq<char>,
    all: Seq<(int, int)>,
    k: int,
    to: int,
    first: int,
    indent: int,
    found: Seq<char>,
) -> Seq<char>
    decreases to - k,
{
    if k >= to || !(0 <= k < all.len()) {
        found
    } else {
        let front = if k > first {
            found.push('\n')
        } else {
            found
        };
        joined(
            raw,
            all,
            k + 1,
            to,
            first,
            indent,
            front + raw.subrange(dedented(all, k, indent), all[k].1),
        )
    }
}

/// What the inside `raw` of a block string spells: its lines, without
/// the spaces and tabs that all lines but the first have in common at
/// their front, without the blank lines at its beginning and its end,
/// and with a line feed between them.
pub open spec fn block_value(raw: Seq<char>) -> Seq<char> {
    let all = lines(raw, 0, Seq::empty());
    let indent = match common_indent(raw, all, 1, None) {
        Some(n) => n,
        None => 0,
    };
    let first = first_text(raw, all, 0);
    joined(raw, all, first, last_text(raw, all, all.len() as int), first, indent, Seq::empty())
}

/// What the block string `s` spells.
pub open spec fn unquote_block(s: Seq<char>) -> Result<Seq<char>, Seq<char>> {
    if s.len() >= 6 && triple_quote_at(s, 0) && triple_quote_at(s, s.len() - 3) {
        Ok(block_value(block_text(s, 3, s.len() - 3, Seq::empty())))
    } else {
        Err("string is not quoted"@)
    }
}

/// A string or a block string; the value is what it spells.
pub open spec fn string(src: Source, i: int) -> Parsed<Seq<char>> {
    if at_kind(src, i, Kind::StringValue) {
        match unquote(src.tokens[i].value) {
            Ok(text) => Parsed::Done { value: text, next: i + 1 },
            Err(message) => Parsed::Failed { error: problem(src, i, message), at: i },
        }
    } else if at_kind(src, i, Kind::BlockString) {
        match unquote_block(src.tokens[i].value) {
            Ok(text) => Parsed::Done { value: text, next: i + 1 },
            Err(message) => Parsed::Failed { error: problem(src, i, message), at: i },
        }
    } else {
        Parsed::Failed {
            error: unexpected(src, i, seq!["StringValue"@, "BlockString"@]),
            at: i,
        }
    }
}

/// Whether a string or a block string stands at index `i`.
pub open spec fn starts_string(src: Source, i: int) -> bool {
    at_kind(src, i, Kind::StringValue) || at_kind(src, i, Kind::BlockString)
}

/// The number that the digits of `s` from `from` up to `to` spell in base
/// ten.
pub open spec fn digits_value(s: Seq<char>, from: int, to: int) -> int
    decreases to - from,
{
    if to <= from {
        0
    } else {
        digits_value(s, from, to - 1) * 10 + (s[to - 1] as int - '0' as int)
    }
}

/// Whether `s` holds digits only from `from` up to `to`.
pub open spec fn all_digits(s: Seq<char>, from: int, to: int) -> bool {
    forall|k: int| from <= k < to ==> is_digit(#[trigger] s[k])
}

/// The integer that `s` spells: an optional minus sign and digits, if the
/// number fits in 64 bits.
pub open spec fn integer_of(s: Seq<char>) -> Option<i64> {
    let from: int = if s.len() > 0 && s[0] == '-' {
        1
    } else {
        0
    };
    if from < s.len() && all_digits(s, from, s.len() as int) {
        let v = digits_value(s, from, s.len() as int);
        let n = if from == 1 {
            -v
        } else {
            v
        };
        if i64::MIN <= n <= i64::MAX {
            Some(n as i64)
        } else {
            None
        }
    } else {
        None
    }
}

/// A type reference: a name or a bracketed type reference, and behind
/// either an optional `!`.
pub open spec fn parse_type(src: Source, i: int) -> Parsed<TypeModel>
    decreases src.tokens.len() - i,
{
    if at_punct(src, i, "["@) {
        match parse_type(src, i + 1) {
            Parsed::Done { value: inner, next } => if at_punct(src, next, "]"@) {
                non_null(src, next + 1, TypeModel::ListType(Box::new(inner)))
            } else {
                Parsed::Failed { error: unexpected(src, next, seq!["]"@]), at: next }
            },
            Parsed::Failed { error, at } => Parsed::Failed { error, at },
        }
    } else if at_kind(src, i, Kind::Name) {
        non_null(src, i + 1, TypeModel::NamedType(src.tokens[i].value))
    } else {
        Parsed::Failed { error: unexpected(src, i, seq!["["@, "Name"@]), at: i }
    }
}

/// The type `inner`, made non-null if `!` stands at index `i`.
pub open spec fn non_null(src: Source, i: int, inner: TypeModel) -> Parsed<TypeModel> {
    if at_punct(src, i, "!"@) {
        Parsed::Done { value: TypeModel::NonNullType(Box::new(inner)), next: i + 1 }
    } else {
        Parsed::Done { value: inner, next: i }
    }
}

/// Whether a value can begin with the token at index `i`. A constant
/// value holds no variable.
pub open spec fn starts_value(src: Source, i: int, constant: bool) -> bool {
    ||| at_kind(src, i, Kind::IntValue)
    ||| at_kind(src, i, Kind::FloatValue)
    ||| at_kind(src, i, Kind::StringValue)
    ||| at_kind(src, i, Kind::BlockString)
    ||| at_kind(src, i, Kind::Name)
    ||| at_punct(src, i, "["@)
    ||| at_punct(src, i, "{"@)
    ||| (!constant && at_punct(src, i, "$"@))
}

/// What a diagnostic expects where a value must begin.
pub open spec fn value_labels() -> Seq<Seq<char>> {
    seq![
        "IntValue"@,
        "FloatValue"@,
        "StringValue"@,
        "BlockString"@,
        "Name"@,
        "["@,
        "{"@,
    ]
}

/// The index of the first entry of `entries` from `from` on whose key is
/// `key`; the length of `entries` if there is none.
pub open spec fn key_index(entries: Seq<(Seq<char>, ValueModel)>, key: Seq<char>, from: int) -> int
    decreases entries.len() - from,
{
    if from < 0 || from >= entries.len() {
        entries.len() as int
    } else if entries[from].0 == key {
        from
    } else {
        key_index(entries, key, from + 1)
    }
}

/// The entries of an object after `key` was given `value`: the entry
/// with that key holds the new value, and if there was none, a new entry
/// stands behind the others.
pub open spec fn upsert(entries: Seq<(Seq<char>, ValueModel)>, key: Seq<char>, value: ValueModel)
    -> Seq<(Seq<char>, ValueModel)> {
    let k = key_index(entries, key, 0);
    if 0 <= k < entries.len() {
        entries.update(k, (key, value))
    } else {
        entries.push((key, value))
    }
}

/// A value: a variable (unless `constant`), a number, a string, `true`,
/// `false`, `null`, any other name, a bracketed list of values or an
/// object in braces.
pub open spec fn value(src: Source, i: int, constant: bool) -> Parsed<ValueModel>
    decreases src.tokens.len() - i, 0int,
{
    if !constant && at_punct(src, i, "$"@) {
        match name(src, i + 1) {
            Parsed::Done { value: n, next } => Parsed::Done {
                value: ValueModel::Variable(n),
                next,
            },
            Parsed::Failed { error, at } => Parsed::Failed { error, at },
        }
    } else if at_kind(src, i, Kind::IntValue) {
        match integer_of(src.tokens[i].value) {
            Some(n) => Parsed::Done { value: ValueModel::Int(n), next: i + 1 },
            None => Parsed::Failed { error: problem(src, i, "unsupported integer"@), at: i },
        }
    } else if at_kind(src, i, Kind::FloatValue) {
        Parsed::Done { value: ValueModel::Float(src.tokens[i].value), next: i + 1 }
    } else if starts_string(src, i) {
        match string(src, i) {
            Parsed::Done { value: text, next } => Parsed::Done {
                value: ValueModel::String(text),
                next,
            },
            Parsed::Failed { error, at } => Parsed::Failed { error, at },
        }
    } else if at_ident(src, i, "true"@) {
        Parsed::Done { value: ValueModel::Boolean(true), next: i + 1 }
    } else if at_ident(src, i, "false"@) {
        Parsed::Done { value: ValueModel::Boolean(false), next: i + 1 }
    } else if at_ident(src, i, "null"@) {
        Parsed::Done { value: ValueModel::Null, next: i + 1 }
    } else if at_kind(src, i, Kind::Name) {
        Parsed::Done { value: ValueModel::Enum(src.tokens[i].value), next: i + 1 }
    } else if at_punct(src, i, "["@) {
        list_items(src, i + 1, constant, Seq::empty())
    } else if at_punct(src, i, "{"@) {
        object_entries(src, i + 1, constant, Seq::empty())
    } else {
        Parsed::Failed { error: unexpected(src, i, value_labels()), at: i }
    }
}

/// The rest of a list whose items so far are `found`: values up to the
/// closing bracket.
pub open spec fn list_items(src: Source, i: int, constant: bool, found: Seq<ValueModel>) -> Parsed<
    ValueModel,
>
    decreases src.tokens.len() - i, 1int,
{
    if at_punct(src, i, "]"@) {
        Parsed::Done { value: ValueModel::List(found), next: i + 1 }
    } else if starts_value(src, i, constant) {
        match value(src, i, constant) {
            Parsed::Done { value: item, next } => if i < next <= src.tokens.len() {
                list_items(src, next, constant, found.push(item))
            } else {
                Parsed::Failed { error: unexpected(src, i, seq!["]"@]), at: i }
            },
            Parsed::Failed { error, at } => Parsed::Failed { error, at },
        }
    } else {
        Parsed::Failed { error: unexpected(src, i, seq!["]"@]), at: i }
    }
}

/// The rest of an object whose entries so far are `found`: entries of a
/// name, a colon and a value, up to the closing brace. A name that comes
/// again replaces the value it had.
pub open spec fn object_entries(
    src: Source,
    i: int,
    constant: bool,
    found: Seq<(Seq<char>, ValueModel)>,
) -> Parsed<ValueModel>
    decreases src.tokens.len() - i, 1int,
{
    if at_punct(src, i, "}"@) {
        Parsed::Done { value: ValueModel::Object(found), next: i + 1 }
    } else if at_kind(src, i, Kind::Name) {
        if at_punct(src, i + 1, ":"@) {
            match value(src, i + 2, constant) {
                Parsed::Done { value: item, next } => if i < next <= src.tokens.len() {
                    object_entries(src, next, constant, upsert(found, src.tokens[i].value, item))
                } else {
                    Parsed::Failed { error: unexpected(src, i, seq!["}"@]), at: i }
                },
                Parsed::Failed { error, at } => Parsed::Failed { error, at },
            }
        } else {
            Parsed::Failed { error: unexpected(src, i + 1, seq![":"@]), at: i + 1 }
        }
    } else {
        Parsed::Failed { error: unexpected(src, i, seq!["}"@]), at: i }
    }
}

/// A value that holds no variable.
pub open spec fn default_value(src: Source, i: int) -> Parsed<ValueModel> {
    value(src, i, true)
}

/// One argument: a name, a colon and a value.
pub open spec fn argument(src: Source, i: int) -> Parsed<(Seq<char>, ValueModel)> {
    match name(src, i) {
        Parsed::Done { value: key, next: colon } => match punct(src, colon, ":"@) {
            Parsed::Done { value: _, next: start } => match value(src, start, false) {
                Parsed::Done { value: item, next } => Parsed::Done { value: (key, item), next },
                Parsed::Failed { error, at } => Parsed::Failed { error, at },
            },
            Parsed::Failed { error, at } => Parsed::Failed { error, at },
        },
        Parsed::Failed { error, at } => Parsed::Failed { error, at },
    }
}

/// The rest of an argument list whose arguments so far are `found`:
/// arguments up to the closing parenthesis, at least one in all.
pub open spec fn more_arguments(src: Source, i: int, found: Seq<(Seq<char>, ValueModel)>) -> Parsed<
    Seq<(Seq<char>, ValueModel)>,
>
    decreases src.tokens.len() - i,
{
    if found.len() == 0 || at_kind(src, i, Kind::Name) {
        match argument(src, i) {
            Parsed::Done { value: one, next } => if i < next <= src.tokens.len() {
                more_arguments(src, next, found.push(one))
            } else {
                Parsed::Failed { error: unexpected(src, i, seq![")"@]), at: i }
            },
            Parsed::Failed { error, at } => Parsed::Failed { error, at },
        }
    } else {
        match punct(src, i, ")"@) {
            Parsed::Done { value: _, next } => Parsed::Done { value: found, next },
            Parsed::Failed { error, at } => Parsed::Failed { error, at },
        }
    }
}

/// The arguments of a directive: nothing, or one or more arguments in
/// parentheses.
pub open spec fn arguments(src: Source, i: int) -> Parsed<Seq<(Seq<char>, ValueModel)>> {
    if at_punct(src, i, "("@) {
        more_arguments(src, i + 1, Seq::empty())
    } else {
        Parsed::Done { value: Seq::empty(), next: i }
    }
}

/// One directive: `@`, a name and its arguments. Its place is that of
/// the `@`.
pub open spec fn directive(src: Source, i: int) -> Parsed<DirectiveModel> {
    match punct(src, i, "@"@) {
        Parsed::Done { value: _, next: start } => match name(src, start) {
            Parsed::Done { value: n, next: then } => match arguments(src, then) {
                Parsed::Done { value: list, next } => Parsed::Done {
                    value: DirectiveModel { position: place(src, i), name: n, arguments: list },
                    next,
                },
                Parsed::Failed { error, at } => Parsed::Failed { error, at },
            },
            Parsed::Failed { error, at } => Parsed::Failed { error, at },
        },
        Parsed::Failed { error, at } => Parsed::Failed { error, at },
    }
}

/// The directives from index `i` on, behind the directives `found`: as
/// many as there are.
pub open spec fn more_directives(src: Source, i: int, found: Seq<DirectiveModel>) -> Parsed<
    Seq<DirectiveModel>,
>
    decreases src.tokens.len() - i,
{
    if at_punct(src, i, "@"@) {
        match directive(src, i) {
            Parsed::Done { value: one, next } => if i < next <= src.tokens.len() {
                more_directives(src, next, found.push(one))
            } else {
                Parsed::Done { value: found, next: i }
            },
            Parsed::Failed { error, at } => Parsed::Failed { error, at },
        }
    } else {
        Parsed::Done { value: found, next: i }
    }
}

/// Any number of directives.
pub open spec fn directives(src: Source, i: int) -> Parsed<Seq<DirectiveModel>> {
    more_directives(src, i, Seq::empty())
}

} // verus!
