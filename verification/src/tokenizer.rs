//! Cutting a schema text into tokens.
use vstd::prelude::*;
use vstd::string::StringExecFns;
use crate::lexical::{
    block_end, digits_end, ends_number, exponent_end, fraction_end, integer_end, is_digit,
    is_name_start, is_punctuator, lemma_skip_blank_bounds, lex, lex_from, name_end, number_end,
    number_kind, scan, skip_blank, string_end, travel, triple_quote_at,
};
use crate::position::Pos;

verus! {

/// `String::push` appends one character to the end of the string.
pub assume_specification[ std::string::String::push ](s: &mut std::string::String, c: char)
    ensures
        final(s)@ == old(s)@.push(c),
;

/// The kinds of token.
#[derive(Clone, Copy, Debug, PartialEq, Eq, Structural, Hash)]
pub enum Kind {
    Punctuator,
    Name,
    IntValue,
    FloatValue,
    StringValue,
    BlockString,
}

impl DeepView for Kind {
    type V = Kind;

    open spec fn deep_view(&self) -> Kind {
        *self
    }
}

/// One token: its kind, its characters as they stand in the text, and the
/// place of the first of them.
#[derive(Debug, PartialEq)]
pub struct Token {
    pub kind: Kind,
    pub value: String,
    pub position: Pos,
}

/// A token as a mathematical value.
pub struct TokenModel {
    pub kind: Kind,
    pub value: Seq<char>,
    pub position: Pos,
}

impl DeepView for Token {
    type V = TokenModel;

    open spec fn deep_view(&self) -> TokenModel {
        TokenModel { kind: self.kind, value: self.value@, position: self.position }
    }
}

impl Clone for Token {
    fn clone(&self) -> (r: Token)
        ensures
            r == *self,
    {
        Token { kind: self.kind, value: self.value.clone(), position: self.position }
    }
}

/// What a text holds, as a mathematical value: its tokens, the place where
/// the cutting stopped, and, if it stopped before the end of the text, the
/// reason.
pub struct Source {
    pub tokens: Seq<TokenModel>,
    pub end: Pos,
    pub fault: Option<Seq<char>>,
}

/// The tokens of a text and a cursor into them. The rules of the grammar
/// read the token at the cursor and move the cursor on; they never change
/// the tokens.
#[derive(Debug, PartialEq)]
pub struct TokenStream {
    pub tokens: Vec<Token>,
    pub end: Pos,
    pub fault: Option<String>,
    pub cursor: usize,
}

impl View for TokenStream {
    type V = Source;

    open spec fn view(&self) -> Source {
        Source { tokens: self.tokens.deep_view(), end: self.end, fault: self.fault.deep_view() }
    }
}

/// Pushing onto a vector pushes the element's model onto the vector's
/// model.
pub proof fn lemma_push_deep_view<T: DeepView>(before: Vec<T>, after: Vec<T>, x: T)
    requires
        after@ == before@.push(x),
    ensures
        after.deep_view() == before.deep_view().push(x.deep_view()),
{
    assert(after.deep_view() =~= before.deep_view().push(x.deep_view()));
}

/// The characters of `s`, in order.
pub fn chars_of(s: &str) -> (v: Vec<char>)
    ensures
        v@ == s@,
{
    let mut v: Vec<char> = Vec::new();
    for c in it: s.chars()
        invariant
            v@ == it.seq().take(it.index() as int),
            it.seq() == s@,
    {
        v.push(c);
    }
    v
}

fn digit(c: char) -> (r: bool)
    ensures
        r == is_digit(c),
{
    '0' <= c && c <= '9'
}

fn name_start(c: char) -> (r: bool)
    ensures
        r == is_name_start(c),
{
    c == '_' || ('a' <= c && c <= 'z') || ('A' <= c && c <= 'Z')
}

fn punctuator(c: char) -> (r: bool)
    ensures
        r == is_punctuator(c),
{
    c == '!' || c == '$' || c == ':' || c == '=' || c == '@' || c == '|' || c == '(' || c == ')'
        || c == '[' || c == ']' || c == '{' || c == '}' || c == '&'
}

fn number_stop(c: char) -> (r: bool)
    ensures
        r == ends_number(c),
{
    c == ' ' || c == '\n' || c == '\r' || c == '\t' || c == ',' || c == '#' || punctuator(c)
}

fn skip(text: &Vec<char>, from: usize, at: Pos) -> (r: (usize, Pos))
    requires
        from <= text.len(),
    ensures
        (r.0 as int, r.1) == skip_blank(text@, from as int, at, false),
        from <= r.0 <= text.len(),
{
    let mut i: usize = from;
    let mut pos = at;
    let mut comment = false;
    proof {
        lemma_skip_blank_bounds(text@, from as int, at, false);
    }
    while i < text.len()
        invariant
            from <= i <= text.len(),
            skip_blank(text@, from as int, at, false) == skip_blank(text@, i as int, pos, comment),
        decreases text.len() - i,
    {
        let c = text[i];
        if comment {
            if c == '\n' {
                pos = pos.next_line();
                comment = false;
            } else {
                pos = pos.shifted(1);
            }
        } else if c == '#' {
            pos = pos.shifted(1);
            comment = true;
        } else if c == '\u{feff}' || c == '\r' {
        } else if c == '\t' {
            pos = pos.shifted(8);
        } else if c == '\n' {
            pos = pos.next_line();
        } else if c == ' ' || c == ',' {
            pos = pos.shifted(1);
        } else {
            return (i, pos);
        }
        i += 1;
    }
    (i, pos)
}

fn scan_name(text: &Vec<char>, from: usize) -> (end: usize)
    requires
        from <= text.len(),
    ensures
        end == name_end(text@, from as int),
        from <= end <= text.len(),
{
    let mut i: usize = from;
    while i < text.len() && (name_start(text[i]) || digit(text[i]))
        invariant
            from <= i <= text.len(),
            name_end(text@, from as int) == name_end(text@, i as int),
        decreases text.len() - i,
    {
        i += 1;
    }
    i
}

fn scan_digits(text: &Vec<char>, from: usize) -> (end: usize)
    requires
        from <= text.len(),
    ensures
        end == digits_end(text@, from as int),
        from <= end <= text.len(),
{
    let mut i: usize = from;
    while i < text.len() && digit(text[i])
        invariant
            from <= i <= text.len(),
            digits_end(text@, from as int) == digits_end(text@, i as int),
        decreases text.len() - i,
    {
        i += 1;
    }
    i
}

fn scan_number(text: &Vec<char>, from: usize) -> (end: usize)
    requires
        from <= text.len(),
    ensures
        end == number_end(text@, from as int),
        from <= end <= text.len(),
{
    let mut i: usize = from;
    while i < text.len() && !number_stop(text[i])
        invariant
            from <= i <= text.len(),
            number_end(text@, from as int) == number_end(text@, i as int),
        decreases text.len() - i,
    {
        i += 1;
    }
    i
}

fn scan_integer(text: &Vec<char>, from: usize) -> (r: Option<usize>)
    requires
        from < text.len(),
    ensures
        match integer_end(text@, from as int) {
            Some(e) => r == Some(e as usize) && from < e <= text.len(),
            None => r is None,
        },
{
    let d: usize = if text[from] == '-' {
        from + 1
    } else {
        from
    };
    if !(d < text.len() && digit(text[d])) {
        None
    } else if text[d] == '0' {
        Some(d + 1)
    } else {
        Some(scan_digits(text, d + 1))
    }
}

fn scan_fraction(text: &Vec<char>, i: usize) -> (r: Option<usize>)
    requires
        i <= text.len(),
    ensures
        match fraction_end(text@, i as int) {
            Some(e) => r == Some(e as usize) && i <= e <= text.len(),
            None => r is None,
        },
{
    if i < text.len() && text[i] == '.' {
        let e = scan_digits(text, i + 1);
        if e > i + 1 {
            Some(e)
        } else {
            None
        }
    } else {
        Some(i)
    }
}

fn scan_exponent(text: &Vec<char>, i: usize) -> (r: Option<usize>)
    requires
        i <= text.len(),
    ensures
        match exponent_end(text@, i as int) {
            Some(e) => r == Some(e as usize) && i <= e <= text.len(),
            None => r is None,
        },
{
    if i < text.len() && (text[i] == 'e' || text[i] == 'E') {
        let s: usize = if i + 1 < text.len() && (text[i + 1] == '+' || text[i + 1] == '-') {
            i + 2
        } else {
            i + 1
        };
        let e = scan_digits(text, s);
        if e > s {
            Some(e)
        } else {
            None
        }
    } else {
        Some(i)
    }
}

fn classify_number(text: &Vec<char>, from: usize, to: usize) -> (r: Option<Kind>)
    requires
        from < text.len(),
    ensures
        r == number_kind(text@, from as int, to as int),
{
    match scan_integer(text, from) {
        None => None,
        Some(a) => {
            if a == to {
                Some(Kind::IntValue)
            } else {
                match scan_fraction(text, a) {
                    None => None,
                    Some(b) => match scan_exponent(text, b) {
                        None => None,
                        Some(c) => if c == to && c > a {
                            Some(Kind::FloatValue)
                        } else {
                            None
                        },
                    },
                }
            }
        },
    }
}

fn scan_string(text: &Vec<char>, from: usize) -> (r: Option<usize>)
    requires
        from <= text.len(),
    ensures
        match string_end(text@, from as int, false) {
            Some(e) => r == Some(e as usize) && from < e <= text.len(),
            None => r is None,
        },
{
    let mut i: usize = from;
    let mut escaped = false;
    while i < text.len()
        invariant
            from <= i <= text.len(),
            string_end(text@, from as int, false) == string_end(text@, i as int, escaped),
        decreases text.len() - i,
    {
        let c = text[i];
        if c == '\n' {
            return None;
        }
        if c == '"' && !escaped {
            return Some(i + 1);
        }
        escaped = !escaped && c == '\\';
        i += 1;
    }
    None
}

fn triple_quote(text: &Vec<char>, i: usize) -> (r: bool)
    requires
        i <= text.len(),
    ensures
        r == triple_quote_at(text@, i as int),
{
    text.len() - i >= 3 && text[i] == '"' && text[i + 1] == '"' && text[i + 2] == '"'
}

fn scan_block(text: &Vec<char>, start: usize) -> (r: Option<usize>)
    requires
        start <= text.len(),
    ensures
        match block_end(text@, start as int, start as int) {
            Some(e) => r == Some(e as usize) && start < e <= text.len(),
            None => r is None,
        },
{
    let mut i: usize = start;
    while text.len() - i >= 3
        invariant
            start <= i <= text.len(),
            block_end(text@, start as int, start as int) == block_end(text@, start as int, i as int),
        decreases text.len() - i,
    {
        if triple_quote(text, i) {
            if i > start && text[i - 1] == '\\' {
                i += 3;
            } else {
                return Some(i + 3);
            }
        } else {
            i += 1;
        }
    }
    None
}

/// The characters of `text` from `from` up to `to` as a string, and the
/// place behind them.
fn cut(text: &Vec<char>, from: usize, to: usize, at: Pos) -> (r: (String, Pos))
    requires
        from <= to <= text.len(),
    ensures
        r.0@ == text@.subrange(from as int, to as int),
        r.1 == travel(text@, from as int, to as int, at),
{
    let mut s = String::new();
    let mut pos = at;
    let mut i: usize = from;
    while i < to
        invariant
            from <= i <= to <= text.len(),
            s@ == text@.subrange(from as int, i as int),
            travel(text@, from as int, to as int, at) == travel(text@, i as int, to as int, pos),
        decreases to - i,
    {
        s.push(text[i]);
        pos = pos.past(text[i]);
        i += 1;
        assert(s@ =~= text@.subrange(from as int, i as int));
    }
    (s, pos)
}

/// `head` followed by the characters of `text` from `from` up to `to`.
fn with_tail(head: &str, text: &Vec<char>, from: usize, to: usize) -> (s: String)
    requires
        from <= to <= text.len(),
    ensures
        s@ == head@ + text@.subrange(from as int, to as int),
{
    let mut s = String::from_str(head);
    let mut i: usize = from;
    assert(s@ =~= head@ + text@.subrange(from as int, i as int));
    while i < to
        invariant
            from <= i <= to <= text.len(),
            s@ == head@ + text@.subrange(from as int, i as int),
        decreases to - i,
    {
        s.push(text[i]);
        i += 1;
        assert(s@ =~= head@ + text@.subrange(from as int, i as int));
    }
    s
}

fn scan_token(text: &Vec<char>, i: usize) -> (r: Result<(Kind, usize), String>)
    requires
        i < text.len(),
    ensures
        match scan(text@, i as int) {
            Ok((kind, end)) => r == Ok::<(Kind, usize), String>((kind, end as usize)) && i < end
                <= text.len(),
            Err(message) => r is Err && r->Err_0@ == message,
        },
{
    let c = text[i];
    if punctuator(c) {
        Ok((Kind::Punctuator, i + 1))
    } else if c == '.' {
        if text.len() - i >= 3 && text[i + 1] == '.' && text[i + 2] == '.' {
            Ok((Kind::Punctuator, i + 3))
        } else {
            Err(String::from_str("bare dot is not supported, only \"...\""))
        }
    } else if name_start(c) {
        Ok((Kind::Name, scan_name(text, i + 1)))
    } else if c == '-' || digit(c) {
        let end = scan_number(text, i + 1);
        match classify_number(text, i, end) {
            Some(kind) => Ok((kind, end)),
            None => Err(with_tail("unsupported number ", text, i, end)),
        }
    } else if c == '"' {
        if triple_quote(text, i) {
            match scan_block(text, i + 3) {
                Some(end) => Ok((Kind::BlockString, end)),
                None => Err(String::from_str("unterminated block string value")),
            }
        } else {
            match scan_string(text, i + 1) {
                Some(end) => Ok((Kind::StringValue, end)),
                None => Err(String::from_str("unterminated string value")),
            }
        }
    } else {
        let mut message = String::from_str("unexpected character ");
        message.push(c);
        Err(message)
    }
}

impl TokenStream {
    /// The tokens of `s`, with the cursor at the first of them.
    pub fn new(s: &str) -> (r: TokenStream)
        ensures
            r@ == lex(s@),
            r.cursor == 0,
    {
        let text = chars_of(s);
        let mut tokens: Vec<Token> = Vec::new();
        let first = skip(&text, 0, Pos::start());
        let mut i: usize = first.0;
        let mut pos: Pos = first.1;
        assert(tokens.deep_view() =~= Seq::<TokenModel>::empty());
        while i < text.len()
            invariant
                i <= text.len(),
                text@ == s@,
                lex(s@) == lex_from(text@, i as int, pos, tokens.deep_view()),
            decreases text.len() - i,
        {
            match scan_token(&text, i) {
                Err(message) => {
                    return TokenStream { tokens, end: pos, fault: Some(message), cursor: 0 };
                },
                Ok((kind, end)) => {
                    let (value, behind) = cut(&text, i, end, pos);
                    let ghost before = tokens;
                    let token = Token { kind, value, position: pos };
                    tokens.push(token);
                    proof {
                        lemma_push_deep_view(before, tokens, token);
                    }
                    let next = skip(&text, end, behind);
                    i = next.0;
                    pos = next.1;
                },
            }
        }
        TokenStream { tokens, end: pos, fault: None, cursor: 0 }
    }
}

} // verus!
