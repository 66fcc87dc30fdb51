//! What every part of the language shares: strings, values, type
//! references and directives.
use vstd::prelude::*;
use vstd::string::StringExecFns;
use crate::error::{ErrorItem, ParseError};
use crate::helpers::{at_ident, at_kind, at_punct, name, punct};
use crate::lexical::is_digit;
use crate::position::Pos;
use crate::syntax;
use crate::syntax::outcome;
use crate::syntax::Parsed;
use crate::tokenizer::{chars_of, lemma_push_deep_view, Kind, TokenStream};

verus! {

/// `char::from_u32` gives the character whose number is `i`, and `None`
/// where `i` is the number of no character.
pub assume_specification[ char::from_u32 ](i: u32) -> (r: Option<char>)
    ensures
        syntax::common::is_scalar(i as int) ==> r == Some(i as char),
        !syntax::common::is_scalar(i as int) ==> r is None,
;

/// A name, as written.
pub type Name = String;

/// An integer of a schema text.
#[derive(Clone, Copy, Debug, PartialEq, Eq, Structural)]
pub struct Number(pub i64);

impl Number {
    /// The integer as a number of the machine.
    pub fn as_i64(&self) -> (r: i64)
        ensures
            r == self.0,
    {
        self.0
    }
}

/// A value, as a directive's argument or a default holds it.
#[derive(Debug, PartialEq)]
pub enum Value {
    Variable(Name),
    Int(Number),
    /// A number with a fraction or an exponent, as it is written.
    Float(String),
    String(String),
    Boolean(bool),
    Null,
    Enum(Name),
    List(Vec<Value>),
    /// The entries of an object in the order in which their names first
    /// came; no name comes twice.
    Object(Vec<(Name, Value)>),
}

/// A value as a mathematical value.
pub enum ValueModel {
    Variable(Seq<char>),
    Int(i64),
    Float(Seq<char>),
    String(Seq<char>),
    Boolean(bool),
    Null,
    Enum(Seq<char>),
    List(Seq<ValueModel>),
    Object(Seq<(Seq<char>, ValueModel)>),
}

/// What a value is, as a mathematical value.
pub open spec fn value_model(v: Value) -> ValueModel
    decreases v,
{
    match v {
        Value::Variable(n) => ValueModel::Variable(n@),
        Value::Int(n) => ValueModel::Int(n.0),
        Value::Float(text) => ValueModel::Float(text@),
        Value::String(text) => ValueModel::String(text@),
        Value::Boolean(b) => ValueModel::Boolean(b),
        Value::Null => ValueModel::Null,
        Value::Enum(n) => ValueModel::Enum(n@),
        Value::List(items) => ValueModel::List(
            Seq::new(
                items.len() as nat,
                |i: int|
                    if 0 <= i < items.len() {
                        value_model(items[i])
                    } else {
                        ValueModel::Null
                    },
            ),
        ),
        Value::Object(entries) => ValueModel::Object(
            Seq::new(
                entries.len() as nat,
                |i: int|
                    if 0 <= i < entries.len() {
                        (entries[i].0@, value_model(entries[i].1))
                    } else {
                        (Seq::empty(), ValueModel::Null)
                    },
            ),
        ),
    }
}

impl DeepView for Value {
    type V = ValueModel;

    open spec fn deep_view(&self) -> ValueModel {
        value_model(*self)
    }
}

/// The model of a list is the list of its items' models.
pub proof fn lemma_list_model(items: Vec<Value>)
    ensures
        Value::List(items).deep_view() == ValueModel::List(items.deep_view()),
{
    assert(value_model(Value::List(items))->List_0 =~= items.deep_view());
}

/// The model of an object is the list of its entries' models.
pub proof fn lemma_object_model(entries: Vec<(Name, Value)>)
    ensures
        Value::Object(entries).deep_view() == ValueModel::Object(entries.deep_view()),
{
    assert(value_model(Value::Object(entries))->Object_0 =~= entries.deep_view());
}

/// A reference to a type.
#[derive(Debug, PartialEq)]
pub enum Type {
    NamedType(Name),
    ListType(Box<Type>),
    NonNullType(Box<Type>),
}

/// A reference to a type as a mathematical value.
pub enum TypeModel {
    NamedType(Seq<char>),
    ListType(Box<TypeModel>),
    NonNullType(Box<TypeModel>),
}

/// What a reference to a type is, as a mathematical value.
pub open spec fn type_model(t: Type) -> TypeModel
    decreases t,
{
    match t {
        Type::NamedType(n) => TypeModel::NamedType(n@),
        Type::ListType(inner) => TypeModel::ListType(Box::new(type_model(*inner))),
        Type::NonNullType(inner) => TypeModel::NonNullType(Box::new(type_model(*inner))),
    }
}

impl DeepView for Type {
    type V = TypeModel;

    open spec fn deep_view(&self) -> TypeModel {
        type_model(*self)
    }
}

/// A directive: the place of its `@`, its name and its arguments in the
/// order written.
#[derive(Debug, PartialEq)]
pub struct Directive {
    pub position: Pos,
    pub name: Name,
    pub arguments: Vec<(Name, Value)>,
}

/// A directive as a mathematical value.
pub struct DirectiveModel {
    pub position: Pos,
    pub name: Seq<char>,
    pub arguments: Seq<(Seq<char>, ValueModel)>,
}

impl DeepView for Directive {
    type V = DirectiveModel;

    open spec fn deep_view(&self) -> DirectiveModel {
        DirectiveModel {
            position: self.position,
            name: self.name@,
            arguments: self.arguments.deep_view(),
        }
    }
}

impl TokenStream {
    /// The diagnostic for the token under the cursor that holds `message`
    /// and nothing else.
    pub fn problem(&self, message: &str) -> (r: ParseError)
        ensures
            r.deep_view() == syntax::common::problem(self@, self.cursor as int, message@),
    {
        let mut error = ParseError::empty(self.position());
        error.push(ErrorItem::Message(String::from_str(message)));
        assert(error.errors.deep_view() =~= seq![crate::error::ErrorItemModel::Message(message@)]);
        error
    }
}

fn hex(c: char) -> (r: Option<u32>)
    ensures
        match syntax::common::hex_digit(c) {
            Some(n) => r == Some(n as u32) && 0 <= n < 16,
            None => r is None,
        },
{
    if '0' <= c && c <= '9' {
        Some(c as u32 - '0' as u32)
    } else if 'a' <= c && c <= 'f' {
        Some(c as u32 - 'a' as u32 + 10)
    } else if 'A' <= c && c <= 'F' {
        Some(c as u32 - 'A' as u32 + 10)
    } else {
        None
    }
}

fn hex4(s: &Vec<char>, i: usize) -> (r: Option<u32>)
    requires
        i + 4 <= s.len(),
    ensures
        match syntax::common::hex_code(s@, i as int) {
            Some(n) => r == Some(n as u32) && 0 <= n < 0x10000,
            None => r is None,
        },
{
    match (hex(s[i]), hex(s[i + 1]), hex(s[i + 2]), hex(s[i + 3])) {
        (Some(a), Some(b), Some(c), Some(d)) => Some(((a * 16 + b) * 16 + c) * 16 + d),
        _ => None,
    }
}

fn escape(c: char) -> (r: Option<char>)
    ensures
        r == syntax::common::escape_of(c),
{
    if c == '"' || c == '\\' || c == '/' {
        Some(c)
    } else if c == 'b' {
        Some('\u{8}')
    } else if c == 'f' {
        Some('\u{c}')
    } else if c == 'n' {
        Some('\n')
    } else if c == 'r' {
        Some('\r')
    } else if c == 't' {
        Some('\t')
    } else {
        None
    }
}

/// What the quoted string `s` spells, or why it spells nothing.
pub fn unquote_string(s: &Vec<char>) -> (r: Result<String, &'static str>)
    ensures
        match syntax::common::unquote(s@) {
            Ok(text) => r is Ok && r->Ok_0@ == text,
            Err(message) => r is Err && r->Err_0@ == message,
        },
{
    let n = s.len();
    if !(n >= 2 && s[0] == '"' && s[n - 1] == '"') {
        return Err("string is not quoted");
    }
    let end: usize = n - 1;
    let mut text = String::new();
    let mut i: usize = 1;
    while i < end
        invariant
            1 <= i <= end,
            end == s.len() - 1,
            syntax::common::unquote(s@) == syntax::common::unescape(
                s@,
                i as int,
                end as int,
                text@,
            ),
        decreases end - i,
    {
        let c = s[i];
        if c != '\\' {
            text.push(c);
            i += 1;
        } else if i + 1 >= end {
            return Err("bad escaped character");
        } else if s[i + 1] == 'u' {
            if end - i < 6 {
                return Err("bad unicode escape");
            }
            match hex4(s, i + 2) {
                None => {
                    return Err("bad unicode escape");
                },
                Some(code) => match char::from_u32(code) {
                    None => {
                        return Err("bad unicode escape");
                    },
                    Some(found) => {
                        text.push(found);
                        i += 6;
                    },
                },
            }
        } else {
            match escape(s[i + 1]) {
                None => {
                    return Err("bad escaped character");
                },
                Some(found) => {
                    text.push(found);
                    i += 2;
                },
            }
        }
    }
    Ok(text)
}

/// What the block string `s` spells, or why it spells nothing.
pub fn unquote_block_string(s: &Vec<char>) -> (r: Result<String, &'static str>)
    ensures
        match syntax::common::unquote_block(s@) {
            Ok(text) => r is Ok && r->Ok_0@ == text,
            Err(message) => r is Err && r->Err_0@ == message,
        },
{
    let n = s.len();
    if !(n >= 6 && s[0] == '"' && s[1] == '"' && s[2] == '"' && s[n - 3] == '"' && s[n - 2] == '"'
        && s[n - 1] == '"') {
        return Err("string is not quoted");
    }
    let end: usize = n - 3;
    let mut raw: Vec<char> = Vec::new();
    let mut i: usize = 3;
    while i < end
        invariant
            3 <= i <= end,
            end == s.len() - 3,
            syntax::common::block_text(s@, 3, end as int, Seq::empty())
                == syntax::common::block_text(s@, i as int, end as int, raw@),
        decreases end - i,
    {
        if s[i] == '\\' && end - i >= 4 && s[i + 1] == '"' && s[i + 2] == '"' && s[i + 3] == '"' {
            raw.push('"');
            raw.push('"');
            raw.push('"');
            i += 4;
        } else {
            raw.push(s[i]);
            i += 1;
        }
    }
    Ok(block_string_value(&raw))
}

fn scan_line(raw: &Vec<char>, from: usize) -> (e: usize)
    requires
        from <= raw.len(),
    ensures
        e == syntax::common::line_end(raw@, from as int),
        from <= e <= raw.len(),
{
    let mut i: usize = from;
    while i < raw.len() && raw[i] != '\n' && raw[i] != '\r'
        invariant
            from <= i <= raw.len(),
            syntax::common::line_end(raw@, from as int) == syntax::common::line_end(
                raw@,
                i as int,
            ),
        decreases raw.len() - i,
    {
        i += 1;
    }
    i
}

fn scan_white(raw: &Vec<char>, from: usize, to: usize) -> (e: usize)
    requires
        from <= to <= raw.len(),
    ensures
        e == syntax::common::white_end(raw@, from as int, to as int),
        from <= e <= to,
{
    let mut i: usize = from;
    while i < to && (raw[i] == ' ' || raw[i] == '\t')
        invariant
            from <= i <= to <= raw.len(),
            syntax::common::white_end(raw@, from as int, to as int) == syntax::common::white_end(
                raw@,
                i as int,
                to as int,
            ),
        decreases to - i,
    {
        i += 1;
    }
    i
}

/// Whether the lines `bounds` are the lines `all`, and lie within a text
/// of `n` characters.
pub open spec fn same_lines(bounds: Seq<(usize, usize)>, all: Seq<(int, int)>, n: int) -> bool {
    &&& bounds.len() == all.len()
    &&& forall|k: int|
        0 <= k < all.len() ==> (#[trigger] all[k]) == (bounds[k].0 as int, bounds[k].1 as int)
            && bounds[k].0 <= bounds[k].1 <= n
}

fn split_lines(raw: &Vec<char>) -> (bounds: Vec<(usize, usize)>)
    ensures
        same_lines(bounds@, syntax::common::lines(raw@, 0, Seq::empty()), raw.len() as int),
        bounds.len() > 0,
{
    let mut bounds: Vec<(usize, usize)> = Vec::new();
    let ghost mut all: Seq<(int, int)> = Seq::empty();
    let mut i: usize = 0;
    loop
        invariant
            i <= raw.len(),
            same_lines(bounds@, all, raw.len() as int),
            syntax::common::lines(raw@, 0, Seq::empty()) == syntax::common::lines(
                raw@,
                i as int,
                all,
            ),
        decreases raw.len() - i,
    {
        let e = scan_line(raw, i);
        let ghost lines_before = all;
        let ghost bounds_before = bounds@;
        bounds.push((i, e));
        proof {
            all = all.push((i as int, e as int));
            assert forall|k: int| 0 <= k < all.len() implies (#[trigger] all[k]) == (
                bounds@[k].0 as int,
                bounds@[k].1 as int,
            ) && bounds@[k].0 <= bounds@[k].1 <= raw.len() by {
                if k < lines_before.len() {
                    assert(all[k] == lines_before[k]);
                    assert(bounds@[k] == bounds_before[k]);
                }
            }
        }
        if e >= raw.len() {
            return bounds;
        }
        i = if e + 1 < raw.len() && raw[e] == '\r' && raw[e + 1] == '\n' {
            e + 2
        } else {
            e + 1
        };
    }
}

/// What the inside `raw` of a block string spells.
pub fn block_string_value(raw: &Vec<char>) -> (text: String)
    ensures
        text@ == syntax::common::block_value(raw@),
{
    let bounds = split_lines(raw);
    let ghost all = syntax::common::lines(raw@, 0, Seq::empty());
    let count = bounds.len();
    let mut best: Option<usize> = None;
    let mut k: usize = 1;
    while k < count
        invariant
            1 <= k <= count,
            count == bounds.len(),
            same_lines(bounds@, all, raw.len() as int),
            match best {
                Some(n) => syntax::common::common_indent(raw@, all, 1, None)
                    == syntax::common::common_indent(raw@, all, k as int, Some(n as int)),
                None => syntax::common::common_indent(raw@, all, 1, None)
                    == syntax::common::common_indent(raw@, all, k as int, None),
            },
        decreases count - k,
    {
        let line = bounds[k];
        assert(all[k as int] == (line.0 as int, line.1 as int));
        let w = scan_white(raw, line.0, line.1);
        if w < line.1 {
            let width = w - line.0;
            match best {
                Some(n) => {
                    if width < n {
                        best = Some(width);
                    }
                },
                None => {
                    best = Some(width);
                },
            }
        }
        k += 1;
    }
    let indent: usize = match best {
        Some(n) => n,
        None => 0,
    };
    let mut first: usize = 0;
    while first < count && scan_white(raw, bounds[first].0, bounds[first].1) >= bounds[first].1
        invariant
            first <= count,
            count == bounds.len(),
            same_lines(bounds@, all, raw.len() as int),
            syntax::common::first_text(raw@, all, 0) == syntax::common::first_text(
                raw@,
                all,
                first as int,
            ),
        decreases count - first,
    {
        assert(all[first as int] == (bounds[first as int].0 as int, bounds[first as int].1 as int));
        first += 1;
    }
    proof {
        if first < count {
            assert(all[first as int] == (
                bounds[first as int].0 as int,
                bounds[first as int].1 as int,
            ));
        }
    }
    let mut last: usize = count;
    while last > 0 && scan_white(raw, bounds[last - 1].0, bounds[last - 1].1) >= bounds[last - 1].1
        invariant
            last <= count,
            count == bounds.len(),
            same_lines(bounds@, all, raw.len() as int),
            syntax::common::last_text(raw@, all, count as int) == syntax::common::last_text(
                raw@,
                all,
                last as int,
            ),
        decreases last,
    {
        assert(all[last - 1] == (bounds[last - 1].0 as int, bounds[last - 1].1 as int));
        last -= 1;
    }
    proof {
        if last > 0 {
            assert(all[last - 1] == (bounds[last - 1].0 as int, bounds[last - 1].1 as int));
        }
    }
    let mut text = String::new();
    let mut k: usize = first;
    while k < last
        invariant
            first <= k,
            last <= count,
            count == bounds.len(),
            same_lines(bounds@, all, raw.len() as int),
            syntax::common::block_value(raw@) == syntax::common::joined(
                raw@,
                all,
                k as int,
                last as int,
                first as int,
                indent as int,
                text@,
            ),
        decreases last - k,
    {
        let line = bounds[k];
        assert(all[k as int] == (line.0 as int, line.1 as int));
        if k > first {
            text.push('\n');
        }
        let from: usize = if k == 0 {
            line.0
        } else if line.1 - line.0 > indent {
            line.0 + indent
        } else {
            line.1
        };
        let ghost front = text@;
        let mut j: usize = from;
        assert(text@ =~= front + raw@.subrange(from as int, j as int));
        while j < line.1
            invariant
                from <= j <= line.1 <= raw.len(),
                text@ == front + raw@.subrange(from as int, j as int),
            decreases line.1 - j,
        {
            text.push(raw[j]);
            j += 1;
            assert(text@ =~= front + raw@.subrange(from as int, j as int));
        }
        k += 1;
    }
    text
}

/// Takes a string or a block string and gives what it spells.
pub fn string(input: &mut TokenStream) -> (r: Result<String, ParseError>)
    ensures
        outcome(
            *old(input),
            *final(input),
            r,
            syntax::common::string(old(input)@, old(input).cursor as int),
        ),
        r is Ok ==> old(input).cursor < final(input).cursor <= old(input).tokens.len(),
{
    let quoted = at_kind(input, Kind::StringValue);
    if quoted || at_kind(input, Kind::BlockString) {
        let text = chars_of(input.tokens[input.cursor].value.as_str());
        let decoded = if quoted {
            unquote_string(&text)
        } else {
            unquote_block_string(&text)
        };
        match decoded {
            Ok(text) => {
                input.cursor = input.cursor + 1;
                Ok(text)
            },
            Err(message) => Err(input.problem(message)),
        }
    } else {
        let mut labels: Vec<&str> = Vec::new();
        labels.push("StringValue");
        labels.push("BlockString");
        assert(labels.deep_view() =~= seq!["StringValue"@, "BlockString"@]);
        Err(input.unexpected(labels))
    }
}

/// Whether a string or a block string stands under the cursor.
pub fn starts_string(input: &TokenStream) -> (r: bool)
    ensures
        r == syntax::common::starts_string(input@, input.cursor as int),
        r ==> input.cursor < input.tokens.len(),
{
    at_kind(input, Kind::StringValue) || at_kind(input, Kind::BlockString)
}

/// More digits never spell a smaller number.
pub proof fn lemma_digits_value_grows(s: Seq<char>, from: int, k: int, to: int)
    requires
        0 <= from <= k <= to <= s.len(),
        syntax::common::all_digits(s, from, to),
    ensures
        0 <= syntax::common::digits_value(s, from, k) <= syntax::common::digits_value(s, from, to),
    decreases to - from,
{
    if k < to {
        lemma_digits_value_grows(s, from, k, to - 1);
        assert(is_digit(s[to - 1]));
    } else if from < k {
        lemma_digits_value_grows(s, from, k - 1, to - 1);
        assert(is_digit(s[to - 1]));
    }
}

/// The integer that `s` spells, if it spells one that fits in 64 bits.
pub fn parse_integer(s: &Vec<char>) -> (r: Option<i64>)
    ensures
        r == syntax::common::integer_of(s@),
{
    let n = s.len();
    let from: usize = if n > 0 && s[0] == '-' {
        1
    } else {
        0
    };
    if from >= n {
        return None;
    }
    let mut k: usize = from;
    while k < n
        invariant
            from <= k <= n,
            n == s.len(),
            from == (if s@.len() > 0 && s@[0] == '-' {
                1usize
            } else {
                0usize
            }),
            syntax::common::all_digits(s@, from as int, k as int),
        decreases n - k,
    {
        if !('0' <= s[k] && s[k] <= '9') {
            assert(!is_digit(s@[k as int]));
            return None;
        }
        k += 1;
    }
    let limit: u64 = 0x8000_0000_0000_0000;
    let mut v: u64 = 0;
    let mut k: usize = from;
    while k < n
        invariant
            from <= k <= n,
            n == s.len(),
            from == (if s@.len() > 0 && s@[0] == '-' {
                1usize
            } else {
                0usize
            }),
            limit == 0x8000_0000_0000_0000,
            syntax::common::all_digits(s@, from as int, n as int),
            v == syntax::common::digits_value(s@, from as int, k as int),
            v <= limit,
        decreases n - k,
    {
        assert(is_digit(s@[k as int]));
        let d: u64 = (s[k] as u32 - '0' as u32) as u64;
        if v > (limit - d) / 10 {
            proof {
                lemma_digits_value_grows(s@, from as int, k + 1, n as int);
            }
            return None;
        }
        v = v * 10 + d;
        k += 1;
    }
    if from == 1 {
        if v == limit {
            Some(i64::MIN)
        } else {
            Some(-(v as i64))
        }
    } else if v == limit {
        None
    } else {
        Some(v as i64)
    }
}

/// Makes `inner` non-null if `!` stands under the cursor, and takes it.
fn non_null(input: &mut TokenStream, inner: Type) -> (r: Type)
    ensures
        final(input).tokens == old(input).tokens,
        final(input).end == old(input).end,
        final(input).fault == old(input).fault,
        syntax::common::non_null(old(input)@, old(input).cursor as int, inner.deep_view()) == (
        Parsed::Done { value: r.deep_view(), next: final(input).cursor as int }),
        old(input).cursor <= final(input).cursor,
        final(input).cursor <= old(input).tokens.len() || final(input).cursor == old(input).cursor,
{
    if at_punct(input, "!") {
        input.cursor = input.cursor + 1;
        Type::NonNullType(Box::new(inner))
    } else {
        inner
    }
}

/// Takes a type reference.
pub fn parse_type(input: &mut TokenStream) -> (r: Result<Type, ParseError>)
    ensures
        outcome(
            *old(input),
            *final(input),
            r,
            syntax::common::parse_type(old(input)@, old(input).cursor as int),
        ),
        r is Ok ==> old(input).cursor < final(input).cursor <= old(input).tokens.len(),
    decreases old(input).tokens.len() - old(input).cursor,
{
    if at_punct(input, "[") {
        input.cursor = input.cursor + 1;
        let inner = parse_type(input)?;
        punct(input, "]")?;
        Ok(non_null(input, Type::ListType(Box::new(inner))))
    } else if at_kind(input, Kind::Name) {
        let n = name(input)?;
        Ok(non_null(input, Type::NamedType(n)))
    } else {
        let mut labels: Vec<&str> = Vec::new();
        labels.push("[");
        labels.push("Name");
        assert(labels.deep_view() =~= seq!["["@, "Name"@]);
        Err(input.unexpected(labels))
    }
}

/// Whether a value can begin with the token under the cursor.
pub fn starts_value(input: &TokenStream, constant: bool) -> (r: bool)
    ensures
        r == syntax::common::starts_value(input@, input.cursor as int, constant),
        r ==> input.cursor < input.tokens.len(),
{
    at_kind(input, Kind::IntValue) || at_kind(input, Kind::FloatValue) || at_kind(
        input,
        Kind::StringValue,
    ) || at_kind(input, Kind::BlockString) || at_kind(input, Kind::Name) || at_punct(input, "[")
        || at_punct(input, "{") || (!constant && at_punct(input, "$"))
}

fn value_labels() -> (labels: Vec<&'static str>)
    ensures
        labels.deep_view() == syntax::common::value_labels(),
{
    let mut labels: Vec<&'static str> = Vec::new();
    labels.push("IntValue");
    labels.push("FloatValue");
    labels.push("StringValue");
    labels.push("BlockString");
    labels.push("Name");
    labels.push("[");
    labels.push("{");
    assert(labels.deep_view() =~= syntax::common::value_labels());
    labels
}

/// Gives `key` the value `item` among `entries`.
fn put(entries: &mut Vec<(Name, Value)>, key: Name, item: Value)
    ensures
        final(entries).deep_view() == syntax::common::upsert(
            old(entries).deep_view(),
            key@,
            item.deep_view(),
        ),
{
    let mut k: usize = 0;
    while k < entries.len()
        invariant
            k <= entries.len(),
            *entries == *old(entries),
            syntax::common::key_index(old(entries).deep_view(), key@, 0)
                == syntax::common::key_index(old(entries).deep_view(), key@, k as int),
        decreases entries.len() - k,
    {
        if entries[k].0 == key {
            entries.set(k, (key, item));
            assert(entries.deep_view() =~= old(entries).deep_view().update(
                k as int,
                (key@, item.deep_view()),
            ));
            return ;
        }
        k += 1;
    }
    let ghost before = *entries;
    entries.push((key, item));
    proof {
        lemma_push_deep_view(before, *entries, (key, item));
    }
}

/// Takes a value. A constant value holds no variable.
pub fn value(input: &mut TokenStream, constant: bool) -> (r: Result<Value, ParseError>)
    ensures
        outcome(
            *old(input),
            *final(input),
            r,
            syntax::common::value(old(input)@, old(input).cursor as int, constant),
        ),
        r is Ok ==> old(input).cursor < final(input).cursor <= old(input).tokens.len(),
    decreases old(input).tokens.len() - old(input).cursor, 0int,
{
    if !constant && at_punct(input, "$") {
        input.cursor = input.cursor + 1;
        let n = name(input)?;
        Ok(Value::Variable(n))
    } else if at_kind(input, Kind::IntValue) {
        let text = chars_of(input.tokens[input.cursor].value.as_str());
        match parse_integer(&text) {
            Some(n) => {
                input.cursor = input.cursor + 1;
                Ok(Value::Int(Number(n)))
            },
            None => Err(input.problem("unsupported integer")),
        }
    } else if at_kind(input, Kind::FloatValue) {
        let text = input.tokens[input.cursor].value.clone();
        input.cursor = input.cursor + 1;
        Ok(Value::Float(text))
    } else if starts_string(input) {
        let text = string(input)?;
        Ok(Value::String(text))
    } else if at_ident(input, "true") {
        input.cursor = input.cursor + 1;
        Ok(Value::Boolean(true))
    } else if at_ident(input, "false") {
        input.cursor = input.cursor + 1;
        Ok(Value::Boolean(false))
    } else if at_ident(input, "null") {
        input.cursor = input.cursor + 1;
        Ok(Value::Null)
    } else if at_kind(input, Kind::Name) {
        let n = name(input)?;
        Ok(Value::Enum(n))
    } else if at_punct(input, "[") {
        input.cursor = input.cursor + 1;
        list_items(input, constant)
    } else if at_punct(input, "{") {
        input.cursor = input.cursor + 1;
        object_entries(input, constant)
    } else {
        Err(input.unexpected(value_labels()))
    }
}

/// Takes the items of a list and its closing bracket.
fn list_items(input: &mut TokenStream, constant: bool) -> (r: Result<Value, ParseError>)
    requires
        old(input).cursor <= old(input).tokens.len(),
    ensures
        outcome(
            *old(input),
            *final(input),
            r,
            syntax::common::list_items(
                old(input)@,
                old(input).cursor as int,
                constant,
                Seq::empty(),
            ),
        ),
        r is Ok ==> old(input).cursor < final(input).cursor <= old(input).tokens.len(),
    decreases old(input).tokens.len() - old(input).cursor, 1int,
{
    let mut items: Vec<Value> = Vec::new();
    assert(items.deep_view() =~= Seq::<ValueModel>::empty());
    loop
        invariant
            input.tokens == old(input).tokens,
            input.end == old(input).end,
            input.fault == old(input).fault,
            old(input).cursor <= input.cursor <= input.tokens.len(),
            syntax::common::list_items(old(input)@, old(input).cursor as int, constant, Seq::empty())
                == syntax::common::list_items(
                input@,
                input.cursor as int,
                constant,
                items.deep_view(),
            ),
        decreases input.tokens.len() - input.cursor,
    {
        if at_punct(input, "]") {
            input.cursor = input.cursor + 1;
            proof {
                lemma_list_model(items);
            }
            return Ok(Value::List(items));
        }
        if !starts_value(input, constant) {
            return Err(input.refuse("]"));
        }
        let item = value(input, constant)?;
        let ghost before = items;
        items.push(item);
        proof {
            lemma_push_deep_view(before, items, item);
        }
    }
}

/// Takes the entries of an object and its closing brace.
fn object_entries(input: &mut TokenStream, constant: bool) -> (r: Result<Value, ParseError>)
    requires
        old(input).cursor <= old(input).tokens.len(),
    ensures
        outcome(
            *old(input),
            *final(input),
            r,
            syntax::common::object_entries(
                old(input)@,
                old(input).cursor as int,
                constant,
                Seq::empty(),
            ),
        ),
        r is Ok ==> old(input).cursor < final(input).cursor <= old(input).tokens.len(),
    decreases old(input).tokens.len() - old(input).cursor, 1int,
{
    let mut entries: Vec<(Name, Value)> = Vec::new();
    assert(entries.deep_view() =~= Seq::<(Seq<char>, ValueModel)>::empty());
    loop
        invariant
            input.tokens == old(input).tokens,
            input.end == old(input).end,
            input.fault == old(input).fault,
            old(input).cursor <= input.cursor <= input.tokens.len(),
            syntax::common::object_entries(
                old(input)@,
                old(input).cursor as int,
                constant,
                Seq::empty(),
            ) == syntax::common::object_entries(
                input@,
                input.cursor as int,
                constant,
                entries.deep_view(),
            ),
        decreases input.tokens.len() - input.cursor,
    {
        if at_punct(input, "}") {
            input.cursor = input.cursor + 1;
            proof {
                lemma_object_model(entries);
            }
            return Ok(Value::Object(entries));
        }
        if !at_kind(input, Kind::Name) {
            return Err(input.refuse("}"));
        }
        let key = name(input)?;
        punct(input, ":")?;
        let item = value(input, constant)?;
        put(&mut entries, key, item);
    }
}

/// Takes a value that holds no variable.
pub fn default_value(input: &mut TokenStream) -> (r: Result<Value, ParseError>)
    ensures
        outcome(
            *old(input),
            *final(input),
            r,
            syntax::common::default_value(old(input)@, old(input).cursor as int),
        ),
        r is Ok ==> old(input).cursor < final(input).cursor <= old(input).tokens.len(),
{
    value(input, true)
}

/// Takes one argument: a name, a colon and a value.
fn argument(input: &mut TokenStream) -> (r: Result<(Name, Value), ParseError>)
    ensures
        outcome(
            *old(input),
            *final(input),
            r,
            syntax::common::argument(old(input)@, old(input).cursor as int),
        ),
        r is Ok ==> old(input).cursor < final(input).cursor <= old(input).tokens.len(),
{
    let key = name(input)?;
    punct(input, ":")?;
    let item = value(input, false)?;
    Ok((key, item))
}

/// Takes the arguments of a directive, if any stand under the cursor.
pub fn arguments(input: &mut TokenStream) -> (r: Result<Vec<(Name, Value)>, ParseError>)
    ensures
        outcome(
            *old(input),
            *final(input),
            r,
            syntax::common::arguments(old(input)@, old(input).cursor as int),
        ),
        r is Ok ==> syntax::not_behind(*old(input), *final(input)),
{
    let mut found: Vec<(Name, Value)> = Vec::new();
    assert(found.deep_view() =~= Seq::<(Seq<char>, ValueModel)>::empty());
    if !at_punct(input, "(") {
        return Ok(found);
    }
    input.cursor = input.cursor + 1;
    loop
        invariant
            input.tokens == old(input).tokens,
            input.end == old(input).end,
            input.fault == old(input).fault,
            old(input).cursor < input.cursor <= input.tokens.len(),
            syntax::common::arguments(old(input)@, old(input).cursor as int)
                == syntax::common::more_arguments(input@, input.cursor as int, found.deep_view()),
        decreases input.tokens.len() - input.cursor,
    {
        if found.len() == 0 || at_kind(input, Kind::Name) {
            let one = argument(input)?;
            let ghost before = found;
            found.push(one);
            proof {
                lemma_push_deep_view(before, found, one);
            }
        } else {
            punct(input, ")")?;
            return Ok(found);
        }
    }
}

/// Takes one directive.
pub fn directive(input: &mut TokenStream) -> (r: Result<Directive, ParseError>)
    ensures
        outcome(
            *old(input),
            *final(input),
            r,
            syntax::common::directive(old(input)@, old(input).cursor as int),
        ),
        r is Ok ==> old(input).cursor < final(input).cursor <= old(input).tokens.len(),
{
    let position = input.position();
    punct(input, "@")?;
    let n = name(input)?;
    let list = arguments(input)?;
    Ok(Directive { position, name: n, arguments: list })
}

/// Takes the directives under the cursor, as many as there are.
pub fn directives(input: &mut TokenStream) -> (r: Result<Vec<Directive>, ParseError>)
    ensures
        outcome(
            *old(input),
            *final(input),
            r,
            syntax::common::directives(old(input)@, old(input).cursor as int),
        ),
        r is Ok ==> syntax::not_behind(*old(input), *final(input)),
{
    let mut found: Vec<Directive> = Vec::new();
    assert(found.deep_view() =~= Seq::<DirectiveModel>::empty());
    while at_punct(input, "@")
        invariant
            input.tokens == old(input).tokens,
            input.end == old(input).end,
            input.fault == old(input).fault,
            syntax::not_behind(*old(input), *input),
            syntax::common::directives(old(input)@, old(input).cursor as int)
                == syntax::common::more_directives(input@, input.cursor as int, found.deep_view()),
        decreases input.tokens.len() - input.cursor,
    {
        let one = directive(input)?;
        let ghost before = found;
        found.push(one);
        proof {
            lemma_push_deep_view(before, found, one);
        }
    }
    Ok(found)
}

} // verus!
