//! The lexical grammar, stated mathematically.
//!
//! Every function here is a specification over `Seq<char>`: together they
//! define, position by position, which token the lexer must produce at each
//! point of the input, or how it must fail.  The executable lexer is proved
//! to return exactly these results.
//!
//! Dispatch order at a position (significant, first full match wins):
//! inline host-code block, format-string literal, thin arrow `->`, scope
//! resolution `::`, equals `==`, identifier/keyword/boolean (maximal munch,
//! classified as a whole word), control character, string literal, numeric
//! literal, character literal.

use crate::model::CtxModel;
use crate::model::FmtModel;
use crate::model::LexErrorKind;
use crate::model::SpanModel;
use crate::model::TokenModel;
use crate::model::span_model;
use vstd::prelude::*;

verus! {

/// Whitespace, skipped silently between tokens.
pub open spec fn is_ws_char(c: char) -> bool {
    c == ' ' || c == '\t' || c == '\n' || c == '\r'
}

/// First character of an identifier: ASCII letter or underscore.
pub open spec fn is_ident_start_char(c: char) -> bool {
    ('a' as u32 <= c as u32 && c as u32 <= 'z' as u32) || ('A' as u32 <= c as u32 && c as u32
        <= 'Z' as u32) || c == '_'
}

/// Continuation character of an identifier: letter, digit or underscore.
pub open spec fn is_ident_char(c: char) -> bool {
    is_ident_start_char(c) || is_digit_char(c)
}

/// ASCII decimal digit.
pub open spec fn is_digit_char(c: char) -> bool {
    '0' as u32 <= c as u32 && c as u32 <= '9' as u32
}

/// Numeric value of a decimal digit.
pub open spec fn digit_val(c: char) -> int {
    c as u32 - '0' as u32
}

/// The fixed set of single control characters.
pub open spec fn is_control_char(c: char) -> bool {
    c == '!' || c == '=' || c == ':' || c == '{' || c == '}' || c == ';' || c == ',' || c == '&'
        || c == '(' || c == ')' || c == '-' || c == '>' || c == '.' || c == '+' || c == '*' || c
        == '/' || c == '%' || c == '|' || c == '[' || c == ']'
}

/// Escape sequences accepted inside a string literal, by the character
/// following the backslash.
pub open spec fn string_escape(c: char) -> Option<char> {
    if c == '\\' {
        Some('\\')
    } else if c == 'n' {
        Some('\n')
    } else if c == 't' {
        Some('\t')
    } else if c == '"' {
        Some('"')
    } else {
        None
    }
}

/// Escape sequences accepted inside a format-string literal: those of a
/// string literal plus `\{` for a literal opening brace.
pub open spec fn fmt_escape(c: char) -> Option<char> {
    if c == '{' {
        Some('{')
    } else {
        string_escape(c)
    }
}

/// Escape sequences accepted inside a character literal.
pub open spec fn char_escape(c: char) -> Option<char> {
    if c == '\\' {
        Some('\\')
    } else if c == 'n' {
        Some('\n')
    } else if c == 't' {
        Some('\t')
    } else if c == '\'' {
        Some('\'')
    } else {
        None
    }
}

/// A character a string literal takes as-is: anything but backslash, raw
/// newline, raw tab and the closing quote.
pub open spec fn is_plain_string_char(c: char) -> bool {
    c != '\\' && c != '\n' && c != '\t' && c != '"'
}

/// A character a format-string literal takes as-is: as in a string literal,
/// and an unescaped `{` instead starts an embedded section.
pub open spec fn is_plain_fmt_char(c: char) -> bool {
    is_plain_string_char(c) && c != '{'
}

/// A character a character literal takes as-is.
pub open spec fn is_plain_char_char(c: char) -> bool {
    c != '\\' && c != '\n' && c != '\t' && c != '\''
}

/// First position at or after `p` that does not hold whitespace.
pub open spec fn skip_ws(s: Seq<char>, p: int) -> int
    decreases s.len() - p,
{
    if 0 <= p < s.len() && is_ws_char(s[p]) {
        skip_ws(s, p + 1)
    } else {
        p
    }
}

/// End of the maximal identifier run starting at `p`.
pub open spec fn ident_end(s: Seq<char>, p: int) -> int
    decreases s.len() - p,
{
    if 0 <= p < s.len() && is_ident_char(s[p]) {
        ident_end(s, p + 1)
    } else {
        p
    }
}

/// End of the maximal digit run starting at `p`.
pub open spec fn digits_end(s: Seq<char>, p: int) -> int
    decreases s.len() - p,
{
    if 0 <= p < s.len() && is_digit_char(s[p]) {
        digits_end(s, p + 1)
    } else {
        p
    }
}

/// Value of a run of decimal digits, most significant first.
pub open spec fn digits_val(w: Seq<char>) -> int
    decreases w.len(),
{
    if w.len() == 0 {
        0
    } else {
        digits_val(w.drop_last()) * 10 + digit_val(w.last())
    }
}

/// The keyword table: an exact, full-word match maps to its keyword token.
pub open spec fn keyword_token_model(w: Seq<char>) -> Option<TokenModel> {
    if w == seq!['m', 'o', 'd', 'u', 'l', 'e'] {
        Some(TokenModel::Module)
    } else if w == seq!['u', 's', 'e'] {
        Some(TokenModel::Use)
    } else if w == seq!['t', 'y', 'p', 'e'] {
        Some(TokenModel::Type)
    } else if w == seq!['d', 'u', 'c', 'k'] {
        Some(TokenModel::Duck)
    } else if w == seq!['g', 'o'] {
        Some(TokenModel::Go)
    } else if w == seq!['s', 't', 'r', 'u', 'c', 't'] {
        Some(TokenModel::Struct)
    } else if w == seq!['f', 'n'] {
        Some(TokenModel::Function)
    } else if w == seq!['r', 'e', 't', 'u', 'r', 'n'] {
        Some(TokenModel::Return)
    } else if w == seq!['l', 'e', 't'] {
        Some(TokenModel::Let)
    } else if w == seq!['i', 'f'] {
        Some(TokenModel::If)
    } else if w == seq!['e', 'l', 's', 'e'] {
        Some(TokenModel::Else)
    } else if w == seq!['w', 'h', 'i', 'l', 'e'] {
        Some(TokenModel::While)
    } else if w == seq!['b', 'r', 'e', 'a', 'k'] {
        Some(TokenModel::Break)
    } else if w == seq!['c', 'o', 'n', 't', 'i', 'n', 'u', 'e'] {
        Some(TokenModel::Continue)
    } else if w == seq!['a', 's'] {
        Some(TokenModel::As)
    } else if w == seq!['m', 'a', 't', 'c', 'h'] {
        Some(TokenModel::Match)
    } else {
        None
    }
}

/// Classification of a maximal identifier run: the boolean words become
/// boolean literals, the keyword table is consulted on the whole word, and
/// everything else is an identifier.  Keyword recognition is never a prefix
/// match: the word is compared as a whole.
pub open spec fn classify_word_model(w: Seq<char>) -> TokenModel {
    if w == seq!['t', 'r', 'u', 'e'] {
        TokenModel::BoolLiteral(true)
    } else if w == seq!['f', 'a', 'l', 's', 'e'] {
        TokenModel::BoolLiteral(false)
    } else {
        match keyword_token_model(w) {
            Some(t) => t,
            None => TokenModel::Ident(w),
        }
    }
}

/// Result of lexing one token at a position: `Tok(token, start, next)`
/// (the token's span is `start..next`) or `Fail(kind, start, end)`.
pub enum TokStep {
    Tok(TokenModel, int, int),
    Fail(LexErrorKind, int, int),
}

/// Result of lexing the interior of an embedded `{...}` section:
/// `Items(tokens, next)` where `next` is just past the closing brace.
pub enum ItemsStep {
    Items(Seq<(TokenModel, SpanModel)>, int),
    Fail(LexErrorKind, int, int),
}

/// Result of lexing a format-string body: `Fmt(contents, next)` where
/// `next` is just past the closing quote.
pub enum FmtStep {
    Fmt(Seq<FmtModel>, int),
    Fail(LexErrorKind, int, int),
}

/// Result of lexing a string-literal body: `Chars(decoded, next)` where
/// `next` is just past the closing quote.
pub enum StrStep {
    Chars(Seq<char>, int),
    Fail(LexErrorKind, int, int),
}

/// Result of lexing a whole input: the spanned token sequence, or the
/// first failure.
pub enum LexedAll {
    Toks(Seq<(TokenModel, SpanModel)>),
    Fail(LexErrorKind, int, int),
}

/// Body of a string literal whose opening quote stands at `quote`,
/// starting at `p`: plain characters and escapes, decoded, up to the
/// closing quote.  Reaching the end of input is an unterminated literal
/// whose reported span starts at the opening quote.
pub open spec fn string_body(s: Seq<char>, p: int, quote: int) -> StrStep
    decreases s.len() - p,
{
    if p < 0 || p >= s.len() {
        StrStep::Fail(LexErrorKind::UnterminatedLiteral, quote, s.len() as int)
    } else if s[p] == '"' {
        StrStep::Chars(Seq::empty(), p + 1)
    } else if is_plain_string_char(s[p]) {
        match string_body(s, p + 1, quote) {
            StrStep::Chars(cs, n) => StrStep::Chars(seq![s[p]] + cs, n),
            fail => fail,
        }
    } else if s[p] == '\\' {
        if p + 1 >= s.len() {
            StrStep::Fail(LexErrorKind::UnterminatedLiteral, quote, s.len() as int)
        } else {
            match string_escape(s[p + 1]) {
                Some(d) => match string_body(s, p + 2, quote) {
                    StrStep::Chars(cs, n) => StrStep::Chars(seq![d] + cs, n),
                    fail => fail,
                },
                None => StrStep::Fail(LexErrorKind::UnexpectedCharacter, p, p + 2),
            }
        }
    } else {
        // a raw newline or tab inside the literal
        StrStep::Fail(LexErrorKind::UnexpectedCharacter, p, p + 1)
    }
}

/// A character literal starting at `p` (which holds the opening quote).
pub open spec fn char_token(s: Seq<char>, p: int) -> TokStep {
    if p + 1 >= s.len() {
        TokStep::Fail(LexErrorKind::UnterminatedLiteral, p, s.len() as int)
    } else if is_plain_char_char(s[p + 1]) {
        if p + 2 >= s.len() {
            TokStep::Fail(LexErrorKind::UnterminatedLiteral, p, s.len() as int)
        } else if s[p + 2] == '\'' {
            TokStep::Tok(TokenModel::CharLiteral(s[p + 1]), p, p + 3)
        } else {
            TokStep::Fail(LexErrorKind::UnexpectedCharacter, p + 2, p + 3)
        }
    } else if s[p + 1] == '\\' {
        if p + 2 >= s.len() {
            TokStep::Fail(LexErrorKind::UnterminatedLiteral, p, s.len() as int)
        } else {
            match char_escape(s[p + 2]) {
                Some(d) => if p + 3 >= s.len() {
                    TokStep::Fail(LexErrorKind::UnterminatedLiteral, p, s.len() as int)
                } else if s[p + 3] == '\'' {
                    TokStep::Tok(TokenModel::CharLiteral(d), p, p + 4)
                } else {
                    TokStep::Fail(LexErrorKind::UnexpectedCharacter, p + 3, p + 4)
                },
                None => TokStep::Fail(LexErrorKind::UnexpectedCharacter, p + 2, p + 3),
            }
        }
    } else {
        // an empty literal, a raw newline or a raw tab
        TokStep::Fail(LexErrorKind::UnexpectedCharacter, p + 1, p + 2)
    }
}

/// A numeric literal starting at `p` (which holds a digit): the maximal
/// digit run, optionally followed by `.` and a further digit run.  The
/// integer part must fit a signed 64-bit integer in either case.
pub open spec fn number_token(s: Seq<char>, p: int) -> TokStep {
    let de = digits_end(s, p);
    let v = digits_val(s.subrange(p, de));
    if v > i64::MAX as int {
        TokStep::Fail(LexErrorKind::InvalidNumber, p, de)
    } else if de < s.len() && s[de] == '.' && de + 1 < s.len() && is_digit_char(s[de + 1]) {
        let fe = digits_end(s, de + 1);
        TokStep::Tok(TokenModel::FloatLiteral(v, s.subrange(de + 1, fe)), p, fe)
    } else {
        TokStep::Tok(TokenModel::IntLiteral(v), p, de)
    }
}

/// Position of the `}` that brings the brace depth back to zero, scanning
/// from `p` at depth `depth`; `None` when the input ends first.
pub open spec fn find_close(s: Seq<char>, p: int, depth: int) -> Option<int>
    decreases s.len() - p,
{
    if p < 0 || p >= s.len() {
        None
    } else if s[p] == '}' {
        if depth <= 1 {
            Some(p)
        } else {
            find_close(s, p + 1, depth - 1)
        }
    } else if s[p] == '{' {
        find_close(s, p + 1, depth + 1)
    } else {
        find_close(s, p + 1, depth)
    }
}

/// Whether position `p` starts an inline host-code block: the word `go`,
/// at least one whitespace character, then `{`.
pub open spec fn is_inline_go_trigger(s: Seq<char>, p: int) -> bool {
    &&& 0 <= p
    &&& p + 2 < s.len()
    &&& s[p] == 'g'
    &&& s[p + 1] == 'o'
    &&& is_ws_char(s[p + 2])
    &&& skip_ws(s, p + 2) < s.len()
    &&& s[skip_ws(s, p + 2)] == '{'
}

/// An inline host-code block starting at `p` (the trigger holds): capture
/// everything between the outermost braces verbatim, tracking brace depth;
/// the outermost pair itself is stripped.
pub open spec fn inline_go_token(s: Seq<char>, p: int) -> TokStep {
    let w = skip_ws(s, p + 2);
    match find_close(s, w + 1, 1) {
        Some(c) => TokStep::Tok(TokenModel::InlineGo(s.subrange(w + 1, c)), p, c + 1),
        None => TokStep::Fail(LexErrorKind::UnterminatedLiteral, p, s.len() as int),
    }
}

/// One token at position `p`, which must hold a non-whitespace character.
/// This is the core dispatcher: alternatives are tried in the fixed
/// priority order and the first that matches wins.
pub open spec fn lex_token_model(s: Seq<char>, p: int, ctx: CtxModel) -> TokStep
    decreases s.len() - p, 0int,
{
    if p < 0 || p >= s.len() {
        TokStep::Fail(LexErrorKind::UnexpectedCharacter, p, p + 1)
    } else {
        let c = s[p];
        if is_inline_go_trigger(s, p) {
            inline_go_token(s, p)
        } else if c == 'f' && p + 1 < s.len() && s[p + 1] == '"' {
            match fstring_body(s, p + 2, p, ctx) {
                FmtStep::Fmt(items, n) => TokStep::Tok(
                    TokenModel::FormatStringLiteral(items),
                    p,
                    n,
                ),
                FmtStep::Fail(k, a, b) => TokStep::Fail(k, a, b),
            }
        } else if c == '-' && p + 1 < s.len() && s[p + 1] == '>' {
            TokStep::Tok(TokenModel::ThinArrow, p, p + 2)
        } else if c == ':' && p + 1 < s.len() && s[p + 1] == ':' {
            TokStep::Tok(TokenModel::ScopeRes, p, p + 2)
        } else if c == '=' && p + 1 < s.len() && s[p + 1] == '=' {
            TokStep::Tok(TokenModel::Equals, p, p + 2)
        } else if is_ident_start_char(c) {
            TokStep::Tok(classify_word_model(s.subrange(p, ident_end(s, p))), p, ident_end(s, p))
        } else if is_control_char(c) {
            TokStep::Tok(TokenModel::ControlChar(c), p, p + 1)
        } else if c == '"' {
            match string_body(s, p + 1, p) {
                StrStep::Chars(cs, n) => TokStep::Tok(TokenModel::StringLiteral(cs), p, n),
                StrStep::Fail(k, a, b) => TokStep::Fail(k, a, b),
            }
        } else if is_digit_char(c) {
            number_token(s, p)
        } else if c == '\'' {
            char_token(s, p)
        } else {
            TokStep::Fail(LexErrorKind::UnexpectedCharacter, p, p + 1)
        }
    }
}

/// Interior of an embedded `{...}` section of a format string, from `p`
/// (just past the opening brace) to the matching closing brace.  Each
/// round skips whitespace, then: the matching `}` closes the section; a
/// further `{` descends one level, its boundary braces kept as real
/// control-character tokens; anything else is one ordinary token lexed by
/// the full dispatcher.  `tok_start` locates unterminated-literal errors.
pub open spec fn section_items(s: Seq<char>, p: int, tok_start: int, ctx: CtxModel) -> ItemsStep
    decreases s.len() - p, 1int,
{
    if p < 0 {
        ItemsStep::Fail(LexErrorKind::UnexpectedCharacter, p, p + 1)
    } else if p >= s.len() {
        ItemsStep::Fail(LexErrorKind::UnterminatedLiteral, tok_start, s.len() as int)
    } else if is_ws_char(s[p]) {
        section_items(s, p + 1, tok_start, ctx)
    } else if s[p] == '}' {
        ItemsStep::Items(Seq::empty(), p + 1)
    } else if s[p] == '{' {
        match section_items(s, p + 1, tok_start, ctx) {
            ItemsStep::Items(inner, n1) => if p + 1 < n1 <= s.len() {
                match section_items(s, n1, tok_start, ctx) {
                    ItemsStep::Items(rest, n2) => ItemsStep::Items(
                        seq![(TokenModel::ControlChar('{'), span_model(p, p + 1, ctx))] + inner
                            + seq![
                            (TokenModel::ControlChar('}'), span_model(n1 - 1, n1, ctx)),
                        ] + rest,
                        n2,
                    ),
                    fail => fail,
                }
            } else {
                ItemsStep::Fail(LexErrorKind::UnexpectedCharacter, p, p + 1)
            },
            fail => fail,
        }
    } else {
        match lex_token_model(s, p, ctx) {
            TokStep::Tok(t, st, n) => if p < n <= s.len() {
                match section_items(s, n, tok_start, ctx) {
                    ItemsStep::Items(rest, n2) => ItemsStep::Items(
                        seq![(t, span_model(st, n, ctx))] + rest,
                        n2,
                    ),
                    fail => fail,
                }
            } else {
                ItemsStep::Fail(LexErrorKind::UnexpectedCharacter, p, p + 1)
            },
            TokStep::Fail(k, a, b) => ItemsStep::Fail(k, a, b),
        }
    }
}

/// Body of a format-string literal from `p` (just past `f"`): literal
/// characters (plain or escaped) and embedded `{...}` sections, up to the
/// first unescaped closing quote.  `tok_start` is the position of the `f`,
/// used to locate unterminated-literal errors.
pub open spec fn fstring_body(s: Seq<char>, p: int, tok_start: int, ctx: CtxModel) -> FmtStep
    decreases s.len() - p, 2int,
{
    if p < 0 {
        FmtStep::Fail(LexErrorKind::UnexpectedCharacter, p, p + 1)
    } else if p >= s.len() {
        FmtStep::Fail(LexErrorKind::UnterminatedLiteral, tok_start, s.len() as int)
    } else if s[p] == '"' {
        FmtStep::Fmt(Seq::empty(), p + 1)
    } else if s[p] == '{' {
        match section_items(s, p + 1, tok_start, ctx) {
            ItemsStep::Items(items, n) => if p < n <= s.len() {
                match fstring_body(s, n, tok_start, ctx) {
                    FmtStep::Fmt(rest, n2) => FmtStep::Fmt(seq![FmtModel::Tokens(items)] + rest, n2),
                    fail => fail,
                }
            } else {
                FmtStep::Fail(LexErrorKind::UnexpectedCharacter, p, p + 1)
            },
            ItemsStep::Fail(k, a, b) => FmtStep::Fail(k, a, b),
        }
    } else if is_plain_fmt_char(s[p]) {
        match fstring_body(s, p + 1, tok_start, ctx) {
            FmtStep::Fmt(rest, n) => FmtStep::Fmt(seq![FmtModel::Char(s[p])] + rest, n),
            fail => fail,
        }
    } else if s[p] == '\\' {
        if p + 1 >= s.len() {
            FmtStep::Fail(LexErrorKind::UnterminatedLiteral, tok_start, s.len() as int)
        } else {
            match fmt_escape(s[p + 1]) {
                Some(d) => match fstring_body(s, p + 2, tok_start, ctx) {
                    FmtStep::Fmt(rest, n) => FmtStep::Fmt(seq![FmtModel::Char(d)] + rest, n),
                    fail => fail,
                },
                None => FmtStep::Fail(LexErrorKind::UnexpectedCharacter, p, p + 2),
            }
        }
    } else {
        // a raw newline or tab inside the literal
        FmtStep::Fail(LexErrorKind::UnexpectedCharacter, p, p + 1)
    }
}

/// The whole input from position `p` on: whitespace is skipped, tokens are
/// lexed one after the other until the input is exhausted; empty or
/// whitespace-only input yields the empty sequence.  The first failure
/// stops the lex.
pub open spec fn lex_all_model(s: Seq<char>, p: int, ctx: CtxModel) -> LexedAll
    decreases s.len() - p, 3int,
{
    if p < 0 {
        LexedAll::Fail(LexErrorKind::UnexpectedCharacter, p, p + 1)
    } else if p >= s.len() {
        LexedAll::Toks(Seq::empty())
    } else if is_ws_char(s[p]) {
        lex_all_model(s, p + 1, ctx)
    } else {
        match lex_token_model(s, p, ctx) {
            TokStep::Tok(t, st, n) => if p < n <= s.len() {
                match lex_all_model(s, n, ctx) {
                    LexedAll::Toks(rest) => LexedAll::Toks(
                        seq![(t, span_model(st, n, ctx))] + rest,
                    ),
                    fail => fail,
                }
            } else {
                LexedAll::Fail(LexErrorKind::UnexpectedCharacter, p, p + 1)
            },
            TokStep::Fail(k, a, b) => LexedAll::Fail(k, a, b),
        }
    }
}

/// The token sequence of a whole file.
pub open spec fn lex_model(s: Seq<char>, ctx: CtxModel) -> LexedAll {
    lex_all_model(s, 0, ctx)
}

/// The value of a digit run is never negative.
pub proof fn lemma_digits_val_nonneg(w: Seq<char>)
    requires
        forall|i: int| 0 <= i < w.len() ==> is_digit_char(w[i]),
    ensures
        digits_val(w) >= 0,
    decreases w.len(),
{
    if w.len() > 0 {
        lemma_digits_val_nonneg(w.drop_last());
    }
}

/// The value of a digit run is at least the value of any of its prefixes.
pub proof fn lemma_digits_val_prefix(w: Seq<char>, k: int)
    requires
        forall|i: int| 0 <= i < w.len() ==> is_digit_char(w[i]),
        0 <= k <= w.len(),
    ensures
        digits_val(w.take(k)) <= digits_val(w),
    decreases w.len(),
{
    if k == w.len() {
        assert(w.take(k) =~= w);
    } else {
        assert(w.drop_last().take(k) =~= w.take(k));
        lemma_digits_val_prefix(w.drop_last(), k);
        lemma_digits_val_nonneg(w.drop_last());
    }
}

} // verus!
