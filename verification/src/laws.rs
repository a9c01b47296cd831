//! Proved statements about the lexical grammar.
//!
//! Each public proof function here states a law of the lexer over the same
//! grammar functions that the executable lexer's contracts use, so the laws
//! carry over to the executable lexer's results.

use crate::grammar::LexedAll;
use crate::grammar::StrStep;
use crate::grammar::TokStep;
use crate::grammar::classify_word_model;
use crate::grammar::digits_end;
use crate::grammar::digits_val;
use crate::grammar::ident_end;
use crate::grammar::is_digit_char;
use crate::grammar::is_ident_char;
use crate::grammar::is_ident_start_char;
use crate::grammar::is_inline_go_trigger;
use crate::grammar::is_plain_string_char;
use crate::grammar::is_ws_char;
use crate::grammar::keyword_token_model;
use crate::grammar::lex_all_model;
use crate::grammar::lex_model;
use crate::grammar::lex_token_model;
use crate::grammar::string_body;
use crate::model::CtxModel;
use crate::model::LexErrorKind;
use crate::model::TokenModel;
use crate::model::span_model;
use vstd::prelude::*;

verus! {

/// An identifier run with no end: when every character from `p` on is an
/// identifier character, maximal munch reaches the end of the input.
proof fn lemma_ident_end_all(s: Seq<char>, p: int)
    requires
        0 <= p <= s.len(),
        forall|i: int| p <= i < s.len() ==> is_ident_char(s[i]),
    ensures
        ident_end(s, p) == s.len(),
    decreases s.len() - p,
{
    if p < s.len() {
        lemma_ident_end_all(s, p + 1);
    }
}

/// Law: an input that consists of one whole identifier word (letters,
/// digits, underscores, starting with a letter or underscore, so in
/// particular free of braces) lexes to exactly one token spanning the
/// whole input — the keyword token when the word equals a keyword of the
/// table exactly, the identifier token holding the word otherwise.
/// The two boolean words, which lex as boolean literals instead, are left
/// out of this statement.
pub proof fn lemma_single_word_input(s: Seq<char>, ctx: CtxModel)
    requires
        s.len() > 0,
        is_ident_start_char(s[0]),
        forall|i: int| 0 <= i < s.len() ==> is_ident_char(s[i]),
        s != seq!['t', 'r', 'u', 'e'],
        s != seq!['f', 'a', 'l', 's', 'e'],
    ensures
        lex_model(s, ctx) == LexedAll::Toks(
            seq![(classify_word_model(s), span_model(0, s.len() as int, ctx))],
        ),
        keyword_token_model(s) is Some ==> classify_word_model(s) == keyword_token_model(
            s,
        )->Some_0,
        keyword_token_model(s) is None ==> classify_word_model(s) == TokenModel::Ident(s),
{
    assert(!is_ws_char(s[0]));
    assert(!is_inline_go_trigger(s, 0)) by {
        if 2 < s.len() {
            assert(is_ident_char(s[2]));
            assert(!is_ws_char(s[2]));
        }
    }
    assert(1 < s.len() ==> s[1] != '"');
    lemma_ident_end_all(s, 0);
    assert(s.subrange(0, s.len() as int) =~= s);
    let tok = classify_word_model(s);
    assert(lex_token_model(s, 0, ctx) == TokStep::Tok(tok, 0, s.len() as int));
    assert(lex_all_model(s, s.len() as int, ctx) == LexedAll::Toks(Seq::empty()));
    assert(seq![(tok, span_model(0, s.len() as int, ctx))] + Seq::empty() =~= seq![
        (tok, span_model(0, s.len() as int, ctx)),
    ]);
}

/// Law: at any position holding `->`, the dispatcher produces the single
/// thin-arrow token covering both characters — never a `-` control
/// character followed by `>`.
pub proof fn lemma_thin_arrow(s: Seq<char>, p: int, ctx: CtxModel)
    requires
        0 <= p,
        p + 1 < s.len(),
        s[p] == '-',
        s[p + 1] == '>',
    ensures
        lex_token_model(s, p, ctx) == TokStep::Tok(TokenModel::ThinArrow, p, p + 2),
{
    assert(!is_inline_go_trigger(s, p));
}

/// Law: at any position holding `::`, the dispatcher produces the single
/// scope-resolution token covering both characters — never a `:` control
/// character followed by `:`.
pub proof fn lemma_scope_res(s: Seq<char>, p: int, ctx: CtxModel)
    requires
        0 <= p,
        p + 1 < s.len(),
        s[p] == ':',
        s[p + 1] == ':',
    ensures
        lex_token_model(s, p, ctx) == TokStep::Tok(TokenModel::ScopeRes, p, p + 2),
{
    assert(!is_inline_go_trigger(s, p));
}

/// Law: at any position starting a digit run that fits a signed 64-bit
/// integer and is followed by `.` and a further digit, the dispatcher
/// produces one single float literal token covering the whole
/// `digits.digits` shape — never an integer, a `.` control character and
/// a second integer.
pub proof fn lemma_float_single_token(s: Seq<char>, p: int, ctx: CtxModel)
    requires
        0 <= p < s.len(),
        is_digit_char(s[p]),
        digits_val(s.subrange(p, digits_end(s, p))) <= i64::MAX as int,
        digits_end(s, p) < s.len(),
        s[digits_end(s, p)] == '.',
        digits_end(s, p) + 1 < s.len(),
        is_digit_char(s[digits_end(s, p) + 1]),
    ensures
        ({
            let de = digits_end(s, p);
            let fe = digits_end(s, de + 1);
            lex_token_model(s, p, ctx) == TokStep::Tok(
                TokenModel::FloatLiteral(
                    digits_val(s.subrange(p, de)),
                    s.subrange(de + 1, fe),
                ),
                p,
                fe,
            )
        }),
{
    assert(!is_inline_go_trigger(s, p));
}

/// A string body that runs to the end of input without a closing quote
/// fails as unterminated, located at the opening quote.
proof fn lemma_string_body_runs_out(s: Seq<char>, q: int, quote: int)
    requires
        0 <= q <= s.len(),
        forall|i: int| q <= i < s.len() ==> is_plain_string_char(s[i]) && s[i] != '"',
    ensures
        string_body(s, q, quote) == StrStep::Fail(
            LexErrorKind::UnterminatedLiteral,
            quote,
            s.len() as int,
        ),
    decreases s.len() - q,
{
    if q < s.len() {
        lemma_string_body_runs_out(s, q + 1, quote);
    }
}

/// Law: an input that opens a string literal at `p` and never closes it
/// (no further quote, and only characters a string body takes as-is)
/// fails with an unterminated-literal error whose span starts at the
/// opening quote and runs to the end of the input.
pub proof fn lemma_unterminated_string(s: Seq<char>, p: int, ctx: CtxModel)
    requires
        0 <= p < s.len(),
        s[p] == '"',
        forall|i: int| p < i < s.len() ==> is_plain_string_char(s[i]) && s[i] != '"',
    ensures
        lex_token_model(s, p, ctx) == TokStep::Fail(
            LexErrorKind::UnterminatedLiteral,
            p,
            s.len() as int,
        ),
{
    assert(!is_inline_go_trigger(s, p));
    lemma_string_body_runs_out(s, p + 1, p);
}

/// Whitespace from `p` on lexes to nothing.
proof fn lemma_all_ws_from(s: Seq<char>, p: int, ctx: CtxModel)
    requires
        0 <= p <= s.len(),
        forall|i: int| p <= i < s.len() ==> is_ws_char(s[i]),
    ensures
        lex_all_model(s, p, ctx) == LexedAll::Toks(Seq::<(TokenModel, crate::model::SpanModel)>::empty()),
    decreases s.len() - p,
{
    if p < s.len() {
        lemma_all_ws_from(s, p + 1, ctx);
    }
}

/// Law: whitespace-only input (the empty input included) yields the empty
/// token sequence, with no error.
pub proof fn lemma_whitespace_only(s: Seq<char>, ctx: CtxModel)
    requires
        forall|i: int| 0 <= i < s.len() ==> is_ws_char(s[i]),
    ensures
        lex_model(s, ctx) == LexedAll::Toks(Seq::<(TokenModel, crate::model::SpanModel)>::empty()),
{
    lemma_all_ws_from(s, 0, ctx);
}

} // verus!
