//! The executable lexer.
//!
//! Every function here is proved to return exactly what the corresponding
//! grammar function prescribes.  The lexer works over the file's characters
//! (`Vec<char>`) with character-index spans; the two mutually recursive
//! constructs — format-string literals and their embedded token sections —
//! are lexed by the same mutual recursion the grammar uses.

use crate::grammar::FmtStep;
use crate::grammar::ItemsStep;
use crate::grammar::LexedAll;
use crate::grammar::StrStep;
use crate::grammar::TokStep;
use crate::grammar::char_escape;
use crate::grammar::char_token;
use crate::grammar::classify_word_model;
use crate::grammar::digit_val;
use crate::grammar::digits_end;
use crate::grammar::digits_val;
use crate::grammar::find_close;
use crate::grammar::fmt_escape;
use crate::grammar::fstring_body;
use crate::grammar::ident_end;
use crate::grammar::is_control_char;
use crate::grammar::is_digit_char;
use crate::grammar::is_ident_char;
use crate::grammar::is_ident_start_char;
use crate::grammar::is_inline_go_trigger;
use crate::grammar::is_plain_char_char;
use crate::grammar::is_plain_fmt_char;
use crate::grammar::is_plain_string_char;
use crate::grammar::is_ws_char;
use crate::grammar::lemma_digits_val_prefix;
use crate::grammar::lex_all_model;
use crate::grammar::lex_model;
use crate::grammar::lex_token_model;
use crate::grammar::number_token;
use crate::grammar::section_items;
use crate::grammar::skip_ws;
use crate::grammar::string_body;
use crate::grammar::string_escape;
use crate::model::Context;
use crate::model::FmtModel;
use crate::model::FmtStringContents;
use crate::model::LexError;
use crate::model::LexErrorKind;
use crate::model::Span;
use crate::model::SpanModel;
use crate::model::Token;
use crate::model::TokenModel;
use crate::model::fmt_seq_view;
use crate::model::fmt_view;
use crate::model::lemma_fmt_cons;
use crate::model::lemma_spanned_cons;
use crate::model::lemma_spanned_seq_view_singleton;
use crate::model::lemma_spanned_seq_view_concat;
use crate::model::span_model;
use crate::model::spanned_seq_view;
use crate::model::token_view;
use std::rc::Rc;
use vstd::prelude::*;

verus! {

/// Relies on `Rc::clone`: the returned handle is the same shared value,
/// nothing is copied.
#[verifier::external_body]
fn rc_dup<T>(r: &Rc<T>) -> (o: Rc<T>)
    ensures
        o == *r,
{
    Rc::clone(r)
}

/// Relies on `String`'s `FromIterator` impl (through `Iterator::collect`):
/// the collected string holds exactly the characters of `v`, in order.
#[verifier::external_body]
pub(crate) fn chars_to_string(v: &Vec<char>) -> (s: String)
    ensures
        s@ == v@,
{
    v.iter().collect()
}

impl Context {
    /// A context for a file with the given name and contents.
    pub fn new(file_name: String, file_contents: Vec<char>) -> (c: Context)
        ensures
            c@.file_name == file_name@,
            c@.file_contents == file_contents@,
    {
        Context { file_name: Rc::new(file_name), file_contents: Rc::new(file_contents) }
    }
}

/// A second handle to the same file context; the file text is shared, not
/// copied.
fn ctx_dup(ctx: &Context) -> (r: Context)
    ensures
        r == *ctx,
{
    Context { file_name: rc_dup(&ctx.file_name), file_contents: rc_dup(&ctx.file_contents) }
}

/// The span `start..end` within the file of `ctx`.
fn make_span(start: usize, end: usize, ctx: &Context) -> (sp: Span)
    ensures
        sp@ == span_model(start as int, end as int, ctx@),
{
    Span { start, end, context: ctx_dup(ctx) }
}

fn is_ws_c(c: char) -> (b: bool)
    ensures
        b == is_ws_char(c),
{
    c == ' ' || c == '\t' || c == '\n' || c == '\r'
}

fn is_ident_start_c(c: char) -> (b: bool)
    ensures
        b == is_ident_start_char(c),
{
    let u = c as u32;
    (97 <= u && u <= 122) || (65 <= u && u <= 90) || c == '_'
}

fn is_digit_c(c: char) -> (b: bool)
    ensures
        b == is_digit_char(c),
{
    let u = c as u32;
    48 <= u && u <= 57
}

fn is_ident_c(c: char) -> (b: bool)
    ensures
        b == is_ident_char(c),
{
    is_ident_start_c(c) || is_digit_c(c)
}

fn is_control_c(c: char) -> (b: bool)
    ensures
        b == is_control_char(c),
{
    c == '!' || c == '=' || c == ':' || c == '{' || c == '}' || c == ';' || c == ',' || c == '&'
        || c == '(' || c == ')' || c == '-' || c == '>' || c == '.' || c == '+' || c == '*' || c
        == '/' || c == '%' || c == '|' || c == '[' || c == ']'
}

fn is_plain_string_c(c: char) -> (b: bool)
    ensures
        b == is_plain_string_char(c),
{
    c != '\\' && c != '\n' && c != '\t' && c != '"'
}

fn is_plain_fmt_c(c: char) -> (b: bool)
    ensures
        b == is_plain_fmt_char(c),
{
    is_plain_string_c(c) && c != '{'
}

fn is_plain_char_c(c: char) -> (b: bool)
    ensures
        b == is_plain_char_char(c),
{
    c != '\\' && c != '\n' && c != '\t' && c != '\''
}

fn string_escape_c(c: char) -> (r: Option<char>)
    ensures
        r == string_escape(c),
{
    if c == '\\' {
        Some('\\')
    } else if c == 'n' {
        Some('\n')
    } else if c == 't' {
        Some('\t')
    } else if c == '"' {
        Some('"')
    } else {
        None
    }
}

fn fmt_escape_c(c: char) -> (r: Option<char>)
    ensures
        r == fmt_escape(c),
{
    if c == '{' {
        Some('{')
    } else {
        string_escape_c(c)
    }
}

fn char_escape_c(c: char) -> (r: Option<char>)
    ensures
        r == char_escape(c),
{
    if c == '\\' {
        Some('\\')
    } else if c == 'n' {
        Some('\n')
    } else if c == 't' {
        Some('\t')
    } else if c == '\'' {
        Some('\'')
    } else {
        None
    }
}

/// First position at or after `pos` that holds no whitespace.
fn skip_ws_at(s: &Vec<char>, pos: usize) -> (r: usize)
    requires
        pos <= s@.len(),
    ensures
        r as int == skip_ws(s@, pos as int),
        pos <= r <= s@.len(),
{
    let mut i = pos;
    while i < s.len() && is_ws_c(s[i])
        invariant
            pos <= i <= s@.len(),
            skip_ws(s@, pos as int) == skip_ws(s@, i as int),
        decreases s@.len() - i,
    {
        i = i + 1;
    }
    i
}

/// End of the maximal identifier run starting at `pos`.
fn ident_end_at(s: &Vec<char>, pos: usize) -> (r: usize)
    requires
        pos <= s@.len(),
    ensures
        r as int == ident_end(s@, pos as int),
        pos <= r <= s@.len(),
        pos < s@.len() && is_ident_char(s@[pos as int]) ==> pos < r,
{
    let mut i = pos;
    while i < s.len() && is_ident_c(s[i])
        invariant
            pos <= i <= s@.len(),
            ident_end(s@, pos as int) == ident_end(s@, i as int),
            i != pos ==> pos < i,
        decreases s@.len() - i,
    {
        i = i + 1;
    }
    i
}

/// End of the maximal digit run starting at `pos`.
fn digits_end_at(s: &Vec<char>, pos: usize) -> (r: usize)
    requires
        pos <= s@.len(),
    ensures
        r as int == digits_end(s@, pos as int),
        pos <= r <= s@.len(),
        pos < s@.len() && is_digit_char(s@[pos as int]) ==> pos < r,
        forall|i: int| pos <= i < r ==> is_digit_char(s@[i]),
{
    let mut i = pos;
    while i < s.len() && is_digit_c(s[i])
        invariant
            pos <= i <= s@.len(),
            digits_end(s@, pos as int) == digits_end(s@, i as int),
            i != pos ==> pos < i,
            forall|j: int| pos <= j < i ==> is_digit_char(s@[j]),
        decreases s@.len() - i,
    {
        i = i + 1;
    }
    proof {
        assert(digits_end(s@, i as int) == i);
    }
    i
}

/// The characters `a..b` of the input, as their own vector.
fn copy_range(s: &Vec<char>, a: usize, b: usize) -> (v: Vec<char>)
    requires
        a <= b <= s@.len(),
    ensures
        v@ == s@.subrange(a as int, b as int),
{
    let mut v: Vec<char> = Vec::new();
    let mut i = a;
    while i < b
        invariant
            a <= i <= b <= s@.len(),
            v@ == s@.subrange(a as int, i as int),
        decreases b - i,
    {
        v.push(s[i]);
        i = i + 1;
        proof {
            assert(v@ =~= s@.subrange(a as int, i as int));
        }
    }
    v
}

/// The value of the digit run `a..b`, when it fits a signed 64-bit integer.
fn digits_to_i64(s: &Vec<char>, a: usize, b: usize) -> (r: Option<i64>)
    requires
        a <= b <= s@.len(),
        forall|i: int| a <= i < b ==> is_digit_char(s@[i]),
    ensures
        match r {
            Some(x) => x as int == digits_val(s@.subrange(a as int, b as int)),
            None => digits_val(s@.subrange(a as int, b as int)) > i64::MAX as int,
        },
{
    let mut acc: i64 = 0;
    let mut i = a;
    while i < b
        invariant
            a <= i <= b <= s@.len(),
            forall|j: int| a <= j < b ==> is_digit_char(s@[j]),
            0 <= acc,
            acc as int == digits_val(s@.subrange(a as int, i as int)),
        decreases b - i,
    {
        assert(is_digit_char(s@[i as int]));
        let d = (s[i] as u32 - 48) as i64;
        proof {
            assert(d == digit_val(s@[i as int]));
            assert(s@.subrange(a as int, i + 1).drop_last() =~= s@.subrange(a as int, i as int));
            assert(s@.subrange(a as int, i + 1).last() == s@[i as int]);
        }
        let next = match acc.checked_mul(10) {
            Some(m) => m.checked_add(d),
            None => None,
        };
        match next {
            Some(v) => {
                acc = v;
            },
            None => {
                proof {
                    let w = s@.subrange(a as int, b as int);
                    assert(digits_val(s@.subrange(a as int, i + 1)) > i64::MAX as int);
                    assert(w.take(i + 1 - a) =~= s@.subrange(a as int, i + 1));
                    lemma_digits_val_prefix(w, i + 1 - a);
                }
                return None;
            },
        }
        i = i + 1;
    }
    proof {
        assert(s@.subrange(a as int, i as int) =~= s@.subrange(a as int, b as int));
    }
    Some(acc)
}

/// Classification of a maximal identifier run: the boolean words, the
/// keyword table consulted on the whole word, else an identifier.
fn classify_word_c(word: &Vec<char>) -> (t: Token)
    ensures
        token_view(t) == classify_word_model(word@),
{
    let n = word.len();
    let kw: Option<Token> = if n == 2 {
        if word[0] == 'f' && word[1] == 'n' {
            proof {
                assert(word@ =~= seq!['f', 'n']);
            }
            Some(Token::Function)
        } else if word[0] == 'g' && word[1] == 'o' {
            proof {
                assert(word@ =~= seq!['g', 'o']);
            }
            Some(Token::Go)
        } else if word[0] == 'i' && word[1] == 'f' {
            proof {
                assert(word@ =~= seq!['i', 'f']);
            }
            Some(Token::If)
        } else if word[0] == 'a' && word[1] == 's' {
            proof {
                assert(word@ =~= seq!['a', 's']);
            }
            Some(Token::As)
        } else {
            None
        }
    } else if n == 3 {
        if word[0] == 'u' && word[1] == 's' && word[2] == 'e' {
            proof {
                assert(word@ =~= seq!['u', 's', 'e']);
            }
            Some(Token::Use)
        } else if word[0] == 'l' && word[1] == 'e' && word[2] == 't' {
            proof {
                assert(word@ =~= seq!['l', 'e', 't']);
            }
            Some(Token::Let)
        } else {
            None
        }
    } else if n == 4 {
        if word[0] == 't' && word[1] == 'y' && word[2] == 'p' && word[3] == 'e' {
            proof {
                assert(word@ =~= seq!['t', 'y', 'p', 'e']);
            }
            Some(Token::Type)
        } else if word[0] == 'd' && word[1] == 'u' && word[2] == 'c' && word[3] == 'k' {
            proof {
                assert(word@ =~= seq!['d', 'u', 'c', 'k']);
            }
            Some(Token::Duck)
        } else if word[0] == 'e' && word[1] == 'l' && word[2] == 's' && word[3] == 'e' {
            proof {
                assert(word@ =~= seq!['e', 'l', 's', 'e']);
            }
            Some(Token::Else)
        } else if word[0] == 't' && word[1] == 'r' && word[2] == 'u' && word[3] == 'e' {
            proof {
                assert(word@ =~= seq!['t', 'r', 'u', 'e']);
            }
            Some(Token::BoolLiteral(true))
        } else {
            None
        }
    } else if n == 5 {
        if word[0] == 'w' && word[1] == 'h' && word[2] == 'i' && word[3] == 'l' && word[4] == 'e' {
            proof {
                assert(word@ =~= seq!['w', 'h', 'i', 'l', 'e']);
            }
            Some(Token::While)
        } else if word[0] == 'b' && word[1] == 'r' && word[2] == 'e' && word[3] == 'a' && word[4]
            == 'k' {
            proof {
                assert(word@ =~= seq!['b', 'r', 'e', 'a', 'k']);
            }
            Some(Token::Break)
        } else if word[0] == 'm' && word[1] == 'a' && word[2] == 't' && word[3] == 'c' && word[4]
            == 'h' {
            proof {
                assert(word@ =~= seq!['m', 'a', 't', 'c', 'h']);
            }
            Some(Token::Match)
        } else if word[0] == 'f' && word[1] == 'a' && word[2] == 'l' && word[3] == 's' && word[4]
            == 'e' {
            proof {
                assert(word@ =~= seq!['f', 'a', 'l', 's', 'e']);
            }
            Some(Token::BoolLiteral(false))
        } else {
            None
        }
    } else if n == 6 {
        if word[0] == 'm' && word[1] == 'o' && word[2] == 'd' && word[3] == 'u' && word[4] == 'l'
            && word[5] == 'e' {
            proof {
                assert(word@ =~= seq!['m', 'o', 'd', 'u', 'l', 'e']);
            }
            Some(Token::Module)
        } else if word[0] == 's' && word[1] == 't' && word[2] == 'r' && word[3] == 'u' && word[4]
            == 'c' && word[5] == 't' {
            proof {
                assert(word@ =~= seq!['s', 't', 'r', 'u', 'c', 't']);
            }
            Some(Token::Struct)
        } else if word[0] == 'r' && word[1] == 'e' && word[2] == 't' && word[3] == 'u' && word[4]
            == 'r' && word[5] == 'n' {
            proof {
                assert(word@ =~= seq!['r', 'e', 't', 'u', 'r', 'n']);
            }
            Some(Token::Return)
        } else {
            None
        }
    } else if n == 8 {
        if word[0] == 'c' && word[1] == 'o' && word[2] == 'n' && word[3] == 't' && word[4] == 'i'
            && word[5] == 'n' && word[6] == 'u' && word[7] == 'e' {
            proof {
                assert(word@ =~= seq!['c', 'o', 'n', 't', 'i', 'n', 'u', 'e']);
            }
            Some(Token::Continue)
        } else {
            None
        }
    } else {
        None
    };
    match kw {
        Some(t) => t,
        None => Token::Ident(chars_to_string(word)),
    }
}

// The small constructor functions below pin down the model of each token
// they build; stating the connection once here keeps the callers' proofs
// independent of the view function's definition.
fn mk_char_lit(c: char) -> (t: Token)
    ensures
        token_view(t) == TokenModel::CharLiteral(c),
{
    Token::CharLiteral(c)
}

fn mk_control_char(c: char) -> (t: Token)
    ensures
        token_view(t) == TokenModel::ControlChar(c),
{
    Token::ControlChar(c)
}

fn mk_int_lit(v: i64) -> (t: Token)
    ensures
        token_view(t) == TokenModel::IntLiteral(v as int),
{
    Token::IntLiteral(v)
}

fn mk_float_lit(v: i64, frac: Vec<char>) -> (t: Token)
    ensures
        token_view(t) == TokenModel::FloatLiteral(v as int, frac@),
{
    Token::FloatLiteral(v, chars_to_string(&frac))
}

fn mk_string_lit(cs: Vec<char>) -> (t: Token)
    ensures
        token_view(t) == TokenModel::StringLiteral(cs@),
{
    Token::StringLiteral(chars_to_string(&cs))
}

fn mk_inline_go(cs: Vec<char>) -> (t: Token)
    ensures
        token_view(t) == TokenModel::InlineGo(cs@),
{
    Token::InlineGo(chars_to_string(&cs))
}

fn mk_fstring(items: Vec<FmtStringContents>) -> (t: Token)
    ensures
        token_view(t) == TokenModel::FormatStringLiteral(fmt_seq_view(items@)),
{
    Token::FormatStringLiteral(items)
}

fn mk_thin_arrow() -> (t: Token)
    ensures
        token_view(t) == TokenModel::ThinArrow,
{
    Token::ThinArrow
}

fn mk_scope_res() -> (t: Token)
    ensures
        token_view(t) == TokenModel::ScopeRes,
{
    Token::ScopeRes
}

fn mk_equals() -> (t: Token)
    ensures
        token_view(t) == TokenModel::Equals,
{
    Token::Equals
}

fn mk_fmt_char(c: char) -> (f: FmtStringContents)
    ensures
        fmt_view(f) == FmtModel::Char(c),
{
    FmtStringContents::Char(c)
}

fn mk_fmt_tokens(ts: Vec<(Token, Span)>) -> (f: FmtStringContents)
    ensures
        fmt_view(f) == FmtModel::Tokens(spanned_seq_view(ts@)),
{
    FmtStringContents::Tokens(ts)
}

/// Position of the `}` that brings the brace depth back to zero.
fn find_close_at(s: &Vec<char>, pos: usize, depth: usize) -> (r: Option<usize>)
    requires
        pos <= s@.len(),
        1 <= depth <= pos,
    ensures
        match r {
            Some(c) => find_close(s@, pos as int, depth as int) == Some(c as int) && pos <= c
                < s@.len(),
            None => find_close(s@, pos as int, depth as int) is None,
        },
{
    let mut i = pos;
    let mut d = depth;
    while i < s.len()
        invariant
            pos <= i <= s@.len(),
            1 <= d <= i,
            find_close(s@, pos as int, depth as int) == find_close(s@, i as int, d as int),
        decreases s@.len() - i,
    {
        let c = s[i];
        if c == '}' {
            if d == 1 {
                return Some(i);
            }
            d = d - 1;
        } else if c == '{' {
            d = d + 1;
        }
        i = i + 1;
    }
    None
}

/// Body of a string literal, decoded; `quote` is the opening quote.
fn lex_string_at(s: &Vec<char>, pos: usize, quote: usize) -> (r: Result<
    (Vec<char>, usize),
    LexError,
>)
    requires
        quote <= pos <= s@.len(),
    ensures
        match r {
            Ok((cs, n)) => string_body(s@, pos as int, quote as int) == StrStep::Chars(
                cs@,
                n as int,
            ) && pos < n <= s@.len(),
            Err(e) => string_body(s@, pos as int, quote as int) == StrStep::Fail(
                e.kind,
                e.start as int,
                e.end as int,
            ),
        },
    decreases s@.len() - pos,
{
    if pos >= s.len() {
        Err(LexError { kind: LexErrorKind::UnterminatedLiteral, start: quote, end: s.len() })
    } else {
        let c = s[pos];
        if c == '"' {
            let v: Vec<char> = Vec::new();
            proof {
                assert(v@ =~= Seq::<char>::empty());
            }
            Ok((v, pos + 1))
        } else if is_plain_string_c(c) {
            match lex_string_at(s, pos + 1, quote) {
                Ok((cs, n)) => {
                    let mut cs = cs;
                    let ghost cs0 = cs@;
                    cs.insert(0, c);
                    proof {
                        assert(cs@ =~= seq![c] + cs0);
                    }
                    Ok((cs, n))
                },
                Err(e) => Err(e),
            }
        } else if c == '\\' {
            if pos + 1 >= s.len() {
                Err(
                    LexError {
                        kind: LexErrorKind::UnterminatedLiteral,
                        start: quote,
                        end: s.len(),
                    },
                )
            } else {
                match string_escape_c(s[pos + 1]) {
                    Some(d) => match lex_string_at(s, pos + 2, quote) {
                        Ok((cs, n)) => {
                            let mut cs = cs;
                            let ghost cs0 = cs@;
                            cs.insert(0, d);
                            proof {
                                assert(cs@ =~= seq![d] + cs0);
                            }
                            Ok((cs, n))
                        },
                        Err(e) => Err(e),
                    },
                    None => Err(
                        LexError {
                            kind: LexErrorKind::UnexpectedCharacter,
                            start: pos,
                            end: pos + 2,
                        },
                    ),
                }
            }
        } else {
            Err(LexError { kind: LexErrorKind::UnexpectedCharacter, start: pos, end: pos + 1 })
        }
    }
}

/// A character literal at `pos` (the opening quote).
fn lex_char_at(s: &Vec<char>, pos: usize) -> (r: Result<(Token, usize), LexError>)
    requires
        pos < s@.len(),
        s@[pos as int] == '\'',
    ensures
        match r {
            Ok((t, n)) => char_token(s@, pos as int) == TokStep::Tok(
                token_view(t),
                pos as int,
                n as int,
            ) && pos < n <= s@.len(),
            Err(e) => char_token(s@, pos as int) == TokStep::Fail(
                e.kind,
                e.start as int,
                e.end as int,
            ),
        },
{
    let len = s.len();
    if pos + 1 >= len {
        Err(LexError { kind: LexErrorKind::UnterminatedLiteral, start: pos, end: len })
    } else if is_plain_char_c(s[pos + 1]) {
        if pos + 2 >= s.len() {
            Err(LexError { kind: LexErrorKind::UnterminatedLiteral, start: pos, end: s.len() })
        } else if s[pos + 2] == '\'' {
            Ok((mk_char_lit(s[pos + 1]), pos + 3))
        } else {
            Err(LexError { kind: LexErrorKind::UnexpectedCharacter, start: pos + 2, end: pos + 3 })
        }
    } else if s[pos + 1] == '\\' {
        if pos + 2 >= s.len() {
            Err(LexError { kind: LexErrorKind::UnterminatedLiteral, start: pos, end: s.len() })
        } else {
            match char_escape_c(s[pos + 2]) {
                Some(d) => if pos + 3 >= s.len() {
                    Err(
                        LexError {
                            kind: LexErrorKind::UnterminatedLiteral,
                            start: pos,
                            end: s.len(),
                        },
                    )
                } else if s[pos + 3] == '\'' {
                    Ok((mk_char_lit(d), pos + 4))
                } else {
                    Err(
                        LexError {
                            kind: LexErrorKind::UnexpectedCharacter,
                            start: pos + 3,
                            end: pos + 4,
                        },
                    )
                },
                None => Err(
                    LexError {
                        kind: LexErrorKind::UnexpectedCharacter,
                        start: pos + 2,
                        end: pos + 3,
                    },
                ),
            }
        }
    } else {
        Err(LexError { kind: LexErrorKind::UnexpectedCharacter, start: pos + 1, end: pos + 2 })
    }
}

/// A numeric literal at `pos` (a digit): the maximal digit run, with an
/// optional fractional part.
fn lex_number_at(s: &Vec<char>, pos: usize) -> (r: Result<(Token, usize), LexError>)
    requires
        pos < s@.len(),
        is_digit_char(s@[pos as int]),
    ensures
        match r {
            Ok((t, n)) => number_token(s@, pos as int) == TokStep::Tok(
                token_view(t),
                pos as int,
                n as int,
            ) && pos < n <= s@.len(),
            Err(e) => number_token(s@, pos as int) == TokStep::Fail(
                e.kind,
                e.start as int,
                e.end as int,
            ),
        },
{
    let de = digits_end_at(s, pos);
    match digits_to_i64(s, pos, de) {
        None => Err(LexError { kind: LexErrorKind::InvalidNumber, start: pos, end: de }),
        Some(v) => {
            if de < s.len() && s[de] == '.' && de + 1 < s.len() && is_digit_c(s[de + 1]) {
                let fe = digits_end_at(s, de + 1);
                let frac = copy_range(s, de + 1, fe);
                Ok((mk_float_lit(v, frac), fe))
            } else {
                Ok((mk_int_lit(v), de))
            }
        },
    }
}

/// One token at `pos`, which must hold a non-whitespace character: the
/// core dispatcher.  Alternatives are tried in the grammar's fixed
/// priority order; the first that matches wins.  On success the token's
/// span is `pos..next`.
fn lex_token_at(s: &Vec<char>, pos: usize, ctx: &Context) -> (r: Result<(Token, usize), LexError>)
    requires
        pos < s@.len(),
    ensures
        match r {
            Ok((t, next)) => lex_token_model(s@, pos as int, ctx@) == TokStep::Tok(
                token_view(t),
                pos as int,
                next as int,
            ) && pos < next <= s@.len(),
            Err(e) => lex_token_model(s@, pos as int, ctx@) == TokStep::Fail(
                e.kind,
                e.start as int,
                e.end as int,
            ),
        },
    decreases s@.len() - pos, 0int,
{
    let len = s.len();
    let mut is_go = false;
    if len - pos > 2 {
        if s[pos] == 'g' && s[pos + 1] == 'o' && is_ws_c(s[pos + 2]) {
            let w = skip_ws_at(s, pos + 2);
            if w < len && s[w] == '{' {
                is_go = true;
            }
        }
    }
    proof {
        assert(is_go == is_inline_go_trigger(s@, pos as int));
    }
    if is_go {
        let w = skip_ws_at(s, pos + 2);
        match find_close_at(s, w + 1, 1) {
            Some(cidx) => {
                let interior = copy_range(s, w + 1, cidx);
                Ok((mk_inline_go(interior), cidx + 1))
            },
            None => Err(
                LexError { kind: LexErrorKind::UnterminatedLiteral, start: pos, end: len },
            ),
        }
    } else if s[pos] == 'f' && pos + 1 < len && s[pos + 1] == '"' {
        match lex_fstring_body(s, pos + 2, pos, ctx) {
            Ok((items, n)) => Ok((mk_fstring(items), n)),
            Err(e) => Err(e),
        }
    } else if s[pos] == '-' && pos + 1 < len && s[pos + 1] == '>' {
        Ok((mk_thin_arrow(), pos + 2))
    } else if s[pos] == ':' && pos + 1 < len && s[pos + 1] == ':' {
        Ok((mk_scope_res(), pos + 2))
    } else if s[pos] == '=' && pos + 1 < len && s[pos + 1] == '=' {
        Ok((mk_equals(), pos + 2))
    } else if is_ident_start_c(s[pos]) {
        let e = ident_end_at(s, pos);
        let word = copy_range(s, pos, e);
        Ok((classify_word_c(&word), e))
    } else if is_control_c(s[pos]) {
        Ok((mk_control_char(s[pos]), pos + 1))
    } else if s[pos] == '"' {
        match lex_string_at(s, pos + 1, pos) {
            Ok((cs, n)) => Ok((mk_string_lit(cs), n)),
            Err(e) => Err(e),
        }
    } else if is_digit_c(s[pos]) {
        lex_number_at(s, pos)
    } else if s[pos] == '\'' {
        lex_char_at(s, pos)
    } else {
        Err(LexError { kind: LexErrorKind::UnexpectedCharacter, start: pos, end: pos + 1 })
    }
}

/// Interior of an embedded `{...}` section, from `pos` (just past the
/// opening brace) to the matching closing brace; nested brace groups keep
/// their boundary braces as real control-character tokens.
fn lex_section_items(s: &Vec<char>, pos: usize, tok_start: usize, ctx: &Context) -> (r: Result<
    (Vec<(Token, Span)>, usize),
    LexError,
>)
    requires
        pos <= s@.len(),
    ensures
        match r {
            Ok((items, n)) => section_items(s@, pos as int, tok_start as int, ctx@)
                == ItemsStep::Items(spanned_seq_view(items@), n as int) && pos < n <= s@.len(),
            Err(e) => section_items(s@, pos as int, tok_start as int, ctx@) == ItemsStep::Fail(
                e.kind,
                e.start as int,
                e.end as int,
            ),
        },
    decreases s@.len() - pos, 1int,
{
    let len = s.len();
    if pos >= len {
        Err(LexError { kind: LexErrorKind::UnterminatedLiteral, start: tok_start, end: len })
    } else if is_ws_c(s[pos]) {
        lex_section_items(s, pos + 1, tok_start, ctx)
    } else if s[pos] == '}' {
        let v: Vec<(Token, Span)> = Vec::new();
        proof {
            assert(spanned_seq_view(v@) =~= Seq::<(TokenModel, SpanModel)>::empty());
        }
        Ok((v, pos + 1))
    } else if s[pos] == '{' {
        match lex_section_items(s, pos + 1, tok_start, ctx) {
            Ok((inner, n1)) => match lex_section_items(s, n1, tok_start, ctx) {
                Ok((rest, n2)) => {
                    let ghost inner0 = inner@;
                    let ghost rest0 = rest@;
                    let mut inner = inner;
                    let mut rest = rest;
                    let open_tok = (mk_control_char('{'), make_span(pos, pos + 1, ctx));
                    let close_tok = (mk_control_char('}'), make_span(n1 - 1, n1, ctx));
                    let ghost open0 = open_tok;
                    let ghost close0 = close_tok;
                    let mut items: Vec<(Token, Span)> = Vec::new();
                    items.push(open_tok);
                    items.append(&mut inner);
                    items.push(close_tok);
                    items.append(&mut rest);
                    proof {
                        assert(items@ =~= seq![open0] + inner0 + seq![close0] + rest0);
                        lemma_spanned_seq_view_concat(seq![open0] + inner0 + seq![close0], rest0);
                        lemma_spanned_seq_view_concat(seq![open0] + inner0, seq![close0]);
                        lemma_spanned_seq_view_concat(seq![open0], inner0);
                        lemma_spanned_seq_view_singleton(open0);
                        lemma_spanned_seq_view_singleton(close0);
                    }
                    Ok((items, n2))
                },
                Err(e) => Err(e),
            },
            Err(e) => Err(e),
        }
    } else {
        match lex_token_at(s, pos, ctx) {
            Ok((t, n)) => {
                let sp = make_span(pos, n, ctx);
                match lex_section_items(s, n, tok_start, ctx) {
                    Ok((rest, n2)) => {
                        let ghost rest0 = rest@;
                        let mut rest = rest;
                        let pair = (t, sp);
                        let ghost pair0 = pair;
                        rest.insert(0, pair);
                        proof {
                            lemma_spanned_cons(pair0, rest0);
                        }
                        Ok((rest, n2))
                    },
                    Err(e) => Err(e),
                }
            },
            Err(e) => Err(e),
        }
    }
}

/// Body of a format-string literal from `pos` (just past `f"`): literal
/// characters and embedded sections up to the first unescaped quote.
fn lex_fstring_body(s: &Vec<char>, pos: usize, tok_start: usize, ctx: &Context) -> (r: Result<
    (Vec<FmtStringContents>, usize),
    LexError,
>)
    requires
        pos <= s@.len(),
    ensures
        match r {
            Ok((items, n)) => fstring_body(s@, pos as int, tok_start as int, ctx@) == FmtStep::Fmt(
                fmt_seq_view(items@),
                n as int,
            ) && pos < n <= s@.len(),
            Err(e) => fstring_body(s@, pos as int, tok_start as int, ctx@) == FmtStep::Fail(
                e.kind,
                e.start as int,
                e.end as int,
            ),
        },
    decreases s@.len() - pos, 2int,
{
    let len = s.len();
    if pos >= len {
        Err(LexError { kind: LexErrorKind::UnterminatedLiteral, start: tok_start, end: len })
    } else {
        let c = s[pos];
        if c == '"' {
            let v: Vec<FmtStringContents> = Vec::new();
            proof {
                assert(fmt_seq_view(v@) =~= Seq::<FmtModel>::empty());
            }
            Ok((v, pos + 1))
        } else if c == '{' {
            match lex_section_items(s, pos + 1, tok_start, ctx) {
                Ok((items, n)) => match lex_fstring_body(s, n, tok_start, ctx) {
                    Ok((rest, n2)) => {
                        let ghost rest0 = rest@;
                        let mut rest = rest;
                        let f = mk_fmt_tokens(items);
                        let ghost f0 = f;
                        rest.insert(0, f);
                        proof {
                            lemma_fmt_cons(f0, rest0);
                        }
                        Ok((rest, n2))
                    },
                    Err(e) => Err(e),
                },
                Err(e) => Err(e),
            }
        } else if is_plain_fmt_c(c) {
            match lex_fstring_body(s, pos + 1, tok_start, ctx) {
                Ok((rest, n)) => {
                    let ghost rest0 = rest@;
                    let mut rest = rest;
                    let f = mk_fmt_char(c);
                    let ghost f0 = f;
                    rest.insert(0, f);
                    proof {
                        lemma_fmt_cons(f0, rest0);
                    }
                    Ok((rest, n))
                },
                Err(e) => Err(e),
            }
        } else if c == '\\' {
            if pos + 1 >= len {
                Err(
                    LexError {
                        kind: LexErrorKind::UnterminatedLiteral,
                        start: tok_start,
                        end: len,
                    },
                )
            } else {
                match fmt_escape_c(s[pos + 1]) {
                    Some(d) => match lex_fstring_body(s, pos + 2, tok_start, ctx) {
                        Ok((rest, n)) => {
                            let ghost rest0 = rest@;
                            let mut rest = rest;
                            let f = mk_fmt_char(d);
                            let ghost f0 = f;
                            rest.insert(0, f);
                            proof {
                                lemma_fmt_cons(f0, rest0);
                            }
                            Ok((rest, n))
                        },
                        Err(e) => Err(e),
                    },
                    None => Err(
                        LexError {
                            kind: LexErrorKind::UnexpectedCharacter,
                            start: pos,
                            end: pos + 2,
                        },
                    ),
                }
            }
        } else {
            Err(LexError { kind: LexErrorKind::UnexpectedCharacter, start: pos, end: pos + 1 })
        }
    }
}

/// The whole input from `pos` on: whitespace skipped, one token after the
/// other, stopping at the first failure.
fn lex_all_at(s: &Vec<char>, pos: usize, ctx: &Context) -> (r: Result<
    Vec<(Token, Span)>,
    LexError,
>)
    requires
        pos <= s@.len(),
    ensures
        match r {
            Ok(ts) => lex_all_model(s@, pos as int, ctx@) == LexedAll::Toks(
                spanned_seq_view(ts@),
            ),
            Err(e) => lex_all_model(s@, pos as int, ctx@) == LexedAll::Fail(
                e.kind,
                e.start as int,
                e.end as int,
            ),
        },
    decreases s@.len() - pos, 3int,
{
    if pos >= s.len() {
        let v: Vec<(Token, Span)> = Vec::new();
        proof {
            assert(spanned_seq_view(v@) =~= Seq::<(TokenModel, SpanModel)>::empty());
        }
        Ok(v)
    } else if is_ws_c(s[pos]) {
        lex_all_at(s, pos + 1, ctx)
    } else {
        match lex_token_at(s, pos, ctx) {
            Ok((t, n)) => {
                let sp = make_span(pos, n, ctx);
                match lex_all_at(s, n, ctx) {
                    Ok(rest) => {
                        let ghost rest0 = rest@;
                        let mut rest = rest;
                        let pair = (t, sp);
                        let ghost pair0 = pair;
                        rest.insert(0, pair);
                        proof {
                            lemma_spanned_cons(pair0, rest0);
                        }
                        Ok(rest)
                    },
                    Err(e) => Err(e),
                }
            },
            Err(e) => Err(e),
        }
    }
}

/// The token sequence of a whole file: the file's characters are turned
/// into spanned tokens exactly as the grammar prescribes.  Empty or
/// whitespace-only input yields the empty sequence; the first failure is
/// reported with its kind and its span.
pub fn lexer(s: &Vec<char>, ctx: &Context) -> (r: Result<Vec<(Token, Span)>, LexError>)
    ensures
        match r {
            Ok(ts) => lex_model(s@, ctx@) == LexedAll::Toks(spanned_seq_view(ts@)),
            Err(e) => lex_model(s@, ctx@) == LexedAll::Fail(e.kind, e.start as int, e.end as int),
        },
{
    lex_all_at(s, 0, ctx)
}

/// One token from position `pos` on: leading whitespace is skipped; `None`
/// when only whitespace remains.  On success, also the position just past
/// the token.
pub fn lex_single(s: &Vec<char>, pos: usize, ctx: &Context) -> (r: Result<
    Option<(Token, Span, usize)>,
    LexError,
>)
    requires
        pos <= s@.len(),
    ensures
        ({
            let q = skip_ws(s@, pos as int);
            match r {
                Ok(o) => match o {
                    None => q == s@.len(),
                    Some((t, sp, next)) => q < s@.len() && lex_token_model(s@, q, ctx@)
                        == TokStep::Tok(token_view(t), q, next as int) && sp@ == span_model(
                        q,
                        next as int,
                        ctx@,
                    ) && q < next <= s@.len(),
                },
                Err(e) => q < s@.len() && lex_token_model(s@, q, ctx@) == TokStep::Fail(
                    e.kind,
                    e.start as int,
                    e.end as int,
                ),
            }
        }),
{
    let q = skip_ws_at(s, pos);
    if q >= s.len() {
        Ok(None)
    } else {
        match lex_token_at(s, q, ctx) {
            Ok((t, n)) => {
                let sp = make_span(q, n, ctx);
                Ok(Some((t, sp, n)))
            },
            Err(e) => Err(e),
        }
    }
}

/// The spanned tokens of one embedded `{...}` section starting at `pos`
/// (which must hold the opening brace), boundary braces included as
/// control-character tokens, together with the position just past the
/// closing brace.
pub fn lex_fstring_tokens(s: &Vec<char>, pos: usize, ctx: &Context) -> (r: Result<
    (Vec<(Token, Span)>, usize),
    LexError,
>)
    requires
        pos < s@.len(),
        s@[pos as int] == '{',
    ensures
        match r {
            Ok((ts, n)) => section_items(s@, pos as int + 1, pos as int, ctx@) matches
                ItemsStep::Items(inner, nn) && nn == n as int && spanned_seq_view(ts@) == seq![
                (TokenModel::ControlChar('{'), span_model(pos as int, pos as int + 1, ctx@)),
            ] + inner + seq![(TokenModel::ControlChar('}'), span_model(nn - 1, nn, ctx@))] && pos
                < n <= s@.len(),
            Err(e) => section_items(s@, pos as int + 1, pos as int, ctx@) == ItemsStep::Fail(
                e.kind,
                e.start as int,
                e.end as int,
            ),
        },
{
    // the length call bounds `pos + 1` within `usize`
    let _ = s.len();
    match lex_section_items(s, pos + 1, pos, ctx) {
        Ok((inner, n)) => {
            let ghost inner0 = inner@;
            let mut inner = inner;
            let open_tok = (mk_control_char('{'), make_span(pos, pos + 1, ctx));
            let close_tok = (mk_control_char('}'), make_span(n - 1, n, ctx));
            let ghost open0 = open_tok;
            let ghost close0 = close_tok;
            let mut ts: Vec<(Token, Span)> = Vec::new();
            ts.push(open_tok);
            ts.append(&mut inner);
            ts.push(close_tok);
            proof {
                assert(ts@ =~= seq![open0] + inner0 + seq![close0]);
                lemma_spanned_seq_view_concat(seq![open0] + inner0, seq![close0]);
                lemma_spanned_seq_view_concat(seq![open0], inner0);
                lemma_spanned_seq_view_singleton(open0);
                lemma_spanned_seq_view_singleton(close0);
            }
            Ok((ts, n))
        },
        Err(e) => Err(e),
    }
}

} // verus!
