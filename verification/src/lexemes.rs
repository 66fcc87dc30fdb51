//! Tokens as a text holds them.
//!
//! [`text_of`] puts tokens into a text, one blank behind each. For the
//! tokens that a document is written with, cutting that text gives the
//! same tokens again, but for their places.
use vstd::prelude::*;
use crate::lexical::{
    digits_end, ends_number, exponent_end, fraction_end, integer_end, is_digit, is_name_part,
    is_name_start, is_punctuator, lex, lex_from, name_end, number_end, number_kind, scan,
    skip_blank, string_end, travel, triple_quote_at,
};
use crate::position::Pos;
use crate::tokenizer::{Kind, TokenModel};
use crate::writing::{bare, bare_tokens};

verus! {

/// Whether `v` is a name: a letter or an underscore, and behind it
/// letters, digits and underscores.
pub open spec fn is_name(v: Seq<char>) -> bool {
    v.len() > 0 && is_name_start(v[0]) && forall|k: int|
        0 <= k < v.len() ==> is_name_part(#[trigger] v[k])
}

/// Whether no character of `v` ends a number.
pub open spec fn unbroken(v: Seq<char>) -> bool {
    forall|k: int| 0 <= k < v.len() ==> !ends_number(#[trigger] v[k])
}

/// Whether `v` is a number of the kind `kind`, all of it.
pub open spec fn is_number(v: Seq<char>, kind: Kind) -> bool {
    v.len() > 0 && (v[0] == '-' || is_digit(v[0])) && unbroken(v) && number_kind(
        v,
        0,
        v.len() as int,
    ) == Some(kind)
}

/// Whether `v` is a string in quotes, all of it, and opens no block
/// string.
pub open spec fn is_string(v: Seq<char>) -> bool {
    v.len() >= 2 && v[0] == '"' && (v.len() == 2 || v[1] != '"') && string_end(v, 1, false)
        == Some(v.len() as int)
}

/// Whether `t` is a token as a document is written with: a punctuator
/// of one character, a name, a number or a string in quotes.
pub open spec fn plain_token(t: TokenModel) -> bool {
    match t.kind {
        Kind::Punctuator => t.value.len() == 1 && is_punctuator(t.value[0]),
        Kind::Name => is_name(t.value),
        Kind::IntValue => is_number(t.value, Kind::IntValue),
        Kind::FloatValue => is_number(t.value, Kind::FloatValue),
        Kind::StringValue => is_string(t.value),
        Kind::BlockString => false,
    }
}

/// Whether every token among `toks` is plain.
pub open spec fn plain_tokens(toks: Seq<TokenModel>) -> bool {
    forall|k: int| 0 <= k < toks.len() ==> plain_token(#[trigger] toks[k])
}

/// Whether a plain token can begin with `c`.
pub open spec fn starts_token(c: char) -> bool {
    is_punctuator(c) || is_name_start(c) || c == '-' || is_digit(c) || c == '"'
}

/// The tokens from number `k` on as a text: the characters of each, and
/// one blank behind each.
pub open spec fn text_of(toks: Seq<TokenModel>, k: int) -> Seq<char>
    decreases toks.len() - k,
{
    if k < 0 || k >= toks.len() {
        Seq::empty()
    } else {
        toks[k].value + (seq![' '] + text_of(toks, k + 1))
    }
}

/// Whether the characters `v` stand in `text` from index `i` on.
pub open spec fn holds(text: Seq<char>, i: int, v: Seq<char>) -> bool {
    0 <= i && i + v.len() <= text.len() && text.subrange(i, i + v.len()) == v
}

/// Where characters stand, each of them stands at its index.
pub proof fn lemma_holds_each(text: Seq<char>, i: int, v: Seq<char>)
    requires
        holds(text, i, v),
    ensures
        forall|j: int| 0 <= j < v.len() ==> #[trigger] text[i + j] == v[j],
{
    assert forall|j: int| 0 <= j < v.len() implies #[trigger] text[i + j] == v[j] by {
        assert(text.subrange(i, i + v.len())[j] == text[i + j]);
    }
}

/// A name ends where its characters end, if no name character stands
/// behind them.
pub proof fn lemma_name_end_window(text: Seq<char>, i: int, v: Seq<char>, j: int)
    requires
        holds(text, i, v),
        1 <= j <= v.len(),
        forall|k: int| 1 <= k < v.len() ==> is_name_part(#[trigger] v[k]),
        i + v.len() == text.len() || !is_name_part(text[i + v.len()]),
    ensures
        name_end(text, i + j) == i + v.len(),
    decreases v.len() - j,
{
    lemma_holds_each(text, i, v);
    if j < v.len() {
        assert(text[i + j] == v[j]);
        lemma_name_end_window(text, i, v, j + 1);
    }
}

/// A number ends where its characters end, if a character that ends a
/// number stands behind them.
pub proof fn lemma_number_end_window(text: Seq<char>, i: int, v: Seq<char>, j: int)
    requires
        holds(text, i, v),
        1 <= j <= v.len(),
        unbroken(v),
        i + v.len() == text.len() || ends_number(text[i + v.len()]),
    ensures
        number_end(text, i + j) == i + v.len(),
    decreases v.len() - j,
{
    lemma_holds_each(text, i, v);
    if j < v.len() {
        assert(text[i + j] == v[j]);
        lemma_number_end_window(text, i, v, j + 1);
    }
}

/// Digits end in a text where they end in the characters that stand in
/// it, if no digit stands behind those.
pub proof fn lemma_digits_end_window(text: Seq<char>, i: int, v: Seq<char>, j: int)
    requires
        holds(text, i, v),
        0 <= j <= v.len(),
        i + v.len() == text.len() || !is_digit(text[i + v.len()]),
    ensures
        digits_end(text, i + j) == i + digits_end(v, j),
        j <= digits_end(v, j) <= v.len(),
    decreases v.len() - j,
{
    lemma_holds_each(text, i, v);
    if j < v.len() {
        assert(text[i + j] == v[j]);
        lemma_digits_end_window(text, i, v, j + 1);
    }
}

/// The characters that stand in a text are the same kind of number there
/// as by themselves, if a character that ends a number stands behind
/// them.
pub proof fn lemma_number_kind_window(text: Seq<char>, i: int, v: Seq<char>)
    requires
        holds(text, i, v),
        v.len() > 0,
        i + v.len() == text.len() || ends_number(text[i + v.len()]),
    ensures
        number_kind(text, i, i + v.len()) == number_kind(v, 0, v.len() as int),
{
    lemma_holds_each(text, i, v);
    let n = v.len() as int;
    assert(text[i + 0] == v[0]);
    let d: int = if v[0] == '-' {
        1
    } else {
        0
    };
    if d < n {
        assert(text[i + d] == v[d]);
    }
    lemma_digits_end_window(text, i, v, d);
    assert(integer_end(text, i) == match integer_end(v, 0) {
        Some(a) => Some(i + a),
        None => None,
    });
    match integer_end(v, 0) {
        Some(a) => {
            assert(d <= a <= n);
            if a < n {
                assert(text[i + a] == v[a]);
                lemma_digits_end_window(text, i, v, a + 1);
                assert(fraction_end(text, i + a) == match fraction_end(v, a) {
                    Some(b) => Some(i + b),
                    None => None,
                });
                match fraction_end(v, a) {
                    Some(b) => {
                        assert(a <= b <= n);
                        if b < n {
                            assert(text[i + b] == v[b]);
                            if b + 1 < n {
                                assert(text[i + (b + 1)] == v[b + 1]);
                            }
                            let s: int = if b + 1 < n && (v[b + 1] == '+' || v[b + 1] == '-') {
                                b + 2
                            } else {
                                b + 1
                            };
                            lemma_digits_end_window(text, i, v, s);
                            assert(exponent_end(text, i + b) == match exponent_end(v, b) {
                                Some(c) => Some(i + c),
                                None => None,
                            });
                        } else {
                            assert(exponent_end(v, b) == Some(b));
                            assert(exponent_end(text, i + b) == Some(i + b));
                        }
                    },
                    None => {},
                }
            }
        },
        None => {},
    }
}

/// A string ends in a text where it ends in the characters that stand in
/// it.
pub proof fn lemma_string_end_window(text: Seq<char>, i: int, v: Seq<char>, j: int, escaped: bool)
    requires
        holds(text, i, v),
        0 <= j <= v.len(),
        string_end(v, j, escaped) is Some,
    ensures
        string_end(text, i + j, escaped) == Some(i + string_end(v, j, escaped)->0),
    decreases v.len() - j,
{
    lemma_holds_each(text, i, v);
    if j < v.len() {
        assert(text[i + j] == v[j]);
        if !(v[j] == '"' && !escaped) {
            lemma_string_end_window(text, i, v, j + 1, !escaped && v[j] == '\\');
        }
    }
}

/// A plain token that stands in a text with a blank or nothing behind it
/// is the token that begins there.
pub proof fn lemma_scan_plain(text: Seq<char>, i: int, t: TokenModel)
    requires
        plain_token(t),
        holds(text, i, t.value),
        i + t.value.len() == text.len() || text[i + t.value.len()] == ' ',
    ensures
        scan(text, i) == Ok::<(Kind, int), Seq<char>>((t.kind, i + t.value.len())),
        starts_token(text[i]),
{
    let v = t.value;
    lemma_holds_each(text, i, v);
    assert(text[i + 0] == v[0]);
    match t.kind {
        Kind::Punctuator => {},
        Kind::Name => {
            assert(is_name_part(v[0]));
            lemma_name_end_window(text, i, v, 1);
        },
        Kind::IntValue => {
            assert(!ends_number(v[0]));
            lemma_number_end_window(text, i, v, 1);
            lemma_number_kind_window(text, i, v);
        },
        Kind::FloatValue => {
            assert(!ends_number(v[0]));
            lemma_number_end_window(text, i, v, 1);
            lemma_number_kind_window(text, i, v);
        },
        Kind::StringValue => {
            assert(text[i + 1] == v[1]);
            assert(!triple_quote_at(text, i));
            lemma_string_end_window(text, i, v, 1, false);
        },
        Kind::BlockString => {},
    }
}

/// One blank in front of a token, or at the end of the text, is all that
/// is skipped there.
pub proof fn lemma_skip_one_blank(text: Seq<char>, j: int, pos: Pos)
    requires
        0 <= j < text.len(),
        text[j] == ' ',
        j + 1 == text.len() || starts_token(text[j + 1]),
    ensures
        skip_blank(text, j, pos, false) == (j + 1, pos.right(1)),
{
    assert(skip_blank(text, j, pos, false) == skip_blank(text, j + 1, pos.right(1), false));
}

/// Tokens that are the same but for their places stay so when each list
/// is given one more, the two being the same but for their places.
pub proof fn lemma_bare_tokens_push(
    a: Seq<TokenModel>,
    b: Seq<TokenModel>,
    x: TokenModel,
    y: TokenModel,
)
    requires
        bare_tokens(a) == bare_tokens(b),
        bare(x) == bare(y),
    ensures
        bare_tokens(a.push(x)) == bare_tokens(b.push(y)),
{
    assert(bare_tokens(a).len() == a.len());
    assert(bare_tokens(b).len() == b.len());
    assert(a.len() == b.len());
    assert forall|k: int| 0 <= k < a.len() + 1 implies bare_tokens(a.push(x))[k] == bare_tokens(
        b.push(y),
    )[k] by {
        if k < a.len() {
            assert(bare_tokens(a)[k] == bare(a[k]));
            assert(bare_tokens(b)[k] == bare(b[k]));
        }
    }
    assert(bare_tokens(a.push(x)) =~= bare_tokens(b.push(y)));
}

/// The text of plain tokens from number `k` on is cut into those tokens
/// again, but for their places.
pub proof fn lemma_cut_again(
    text: Seq<char>,
    i: int,
    pos: Pos,
    toks: Seq<TokenModel>,
    k: int,
    found: Seq<TokenModel>,
)
    requires
        0 <= k <= toks.len(),
        0 <= i <= text.len(),
        text.subrange(i, text.len() as int) == text_of(toks, k),
        plain_tokens(toks),
        bare_tokens(found) == bare_tokens(toks.take(k)),
    ensures
        lex_from(text, i, pos, found).fault is None,
        bare_tokens(lex_from(text, i, pos, found).tokens) == bare_tokens(toks),
    decreases toks.len() - k,
{
    let rest = text.subrange(i, text.len() as int);
    if k == toks.len() {
        assert(rest.len() == 0);
        assert(i == text.len());
        assert(toks.take(k) =~= toks);
    } else {
        let t = toks[k];
        let v = t.value;
        let tail = text_of(toks, k + 1);
        assert(rest == v + (seq![' '] + tail));
        assert(rest.len() == v.len() + 1 + tail.len());
        let end = i + v.len();
        assert(text.subrange(i, end) =~= v) by {
            assert forall|j: int| 0 <= j < v.len() implies text.subrange(i, end)[j] == v[j] by {
                assert(rest[j] == text[i + j]);
                assert(rest[j] == v[j]);
            }
        }
        assert(text[end] == ' ') by {
            assert(rest[v.len() as int] == text[i + v.len()]);
            assert(rest[v.len() as int] == (seq![' '] + tail)[0]);
        }
        lemma_scan_plain(text, i, t);
        let behind = travel(text, i, end, pos);
        assert(text.subrange(end + 1, text.len() as int) =~= tail) by {
            assert forall|j: int| 0 <= j < tail.len() implies text.subrange(
                end + 1,
                text.len() as int,
            )[j] == tail[j] by {
                assert(rest[v.len() + 1 + j] == text[i + (v.len() + 1 + j)]);
                assert(rest[v.len() + 1 + j] == (seq![' '] + tail)[1 + j]);
            }
        }
        if k + 1 < toks.len() {
            let next = toks[k + 1];
            assert(tail == next.value + (seq![' '] + text_of(toks, k + 2)));
            assert(next.value.len() > 0);
            assert(tail[0] == next.value[0]);
            assert(text[end + 1] == text.subrange(end + 1, text.len() as int)[0]);
            assert(starts_token(next.value[0]));
        } else {
            assert(tail.len() == 0);
        }
        lemma_skip_one_blank(text, end, behind);
        let one = TokenModel { kind: t.kind, value: text.subrange(i, end), position: pos };
        assert(lex_from(text, i, pos, found) == lex_from(
            text,
            end + 1,
            behind.right(1),
            found.push(one),
        ));
        lemma_bare_tokens_push(found, toks.take(k), one, t);
        assert(toks.take(k).push(t) =~= toks.take(k + 1));
        lemma_cut_again(text, end + 1, behind.right(1), toks, k + 1, found.push(one));
    }
}

/// What is put into a text is cut out of it again. The text of plain
/// tokens is cut to its end, into the same tokens but for their places.
pub proof fn law_tokens_are_cut_again(toks: Seq<TokenModel>)
    requires
        plain_tokens(toks),
    ensures
        lex(text_of(toks, 0)).fault is None,
        bare_tokens(lex(text_of(toks, 0)).tokens) == bare_tokens(toks),
{
    let text = text_of(toks, 0);
    assert(text.subrange(0, text.len() as int) =~= text);
    assert(bare_tokens(Seq::<TokenModel>::empty()) =~= bare_tokens(toks.take(0)));
    if toks.len() > 0 {
        assert(text == toks[0].value + (seq![' '] + text_of(toks, 1)));
        assert(toks[0].value.len() > 0);
        assert(text[0] == toks[0].value[0]);
        assert(starts_token(toks[0].value[0]));
        assert(skip_blank(text, 0, Pos::origin(), false) == (0int, Pos::origin()));
    } else {
        assert(text.len() == 0);
    }
    lemma_cut_again(text, 0, Pos::origin(), toks, 0, Seq::empty());
}

} // verus!
