//! The token data model.
//!
//! Executable types (`Token`, `FmtStringContents`, `Span`, `Context`,
//! `LexError`) together with their mathematical models (`TokenModel`,
//! `FmtModel`, `SpanModel`, `CtxModel`) and the view functions that relate
//! the two.  Contracts throughout the crate speak about the models.

use std::rc::Rc;
use vstd::prelude::*;
use vstd::string::StringExecFns;

verus! {

/// Shared, read-only identity of a source file: its name and full contents.
/// Every span derived from one file holds the same context; the reference
/// counted fields make the handle cheap to copy, the file text is never
/// duplicated per token.
#[derive(Debug, PartialEq, Eq)]
pub struct Context {
    pub file_name: Rc<String>,
    pub file_contents: Rc<Vec<char>>,
}

/// Byte/character offsets `start..end` into the source text of one file,
/// plus the shared identity of that file.
#[derive(Debug, PartialEq, Eq)]
pub struct Span {
    pub start: usize,
    pub end: usize,
    pub context: Context,
}

/// One content item of a format-string literal: either a single decoded
/// literal character, or the spanned token sequence of one embedded
/// `{...}` section.
#[derive(Debug, PartialEq)]
pub enum FmtStringContents {
    Char(char),
    Tokens(Vec<(Token, Span)>),
}

/// The smallest classified lexical unit produced by the lexer.
///
/// A float literal is carried exactly: as its integer part and the decimal
/// digits of its fractional part, so `1.1` is `FloatLiteral(1, "1")`.
#[derive(Debug, PartialEq)]
pub enum Token {
    Use,
    Type,
    Go,
    Struct,
    Duck,
    Function,
    Return,
    Ident(String),
    ControlChar(char),
    StringLiteral(String),
    FormatStringLiteral(Vec<FmtStringContents>),
    IntLiteral(i64),
    BoolLiteral(bool),
    CharLiteral(char),
    FloatLiteral(i64, String),
    Equals,
    Match,
    If,
    Else,
    Let,
    While,
    Break,
    Continue,
    As,
    InlineGo(String),
    Module,
    ScopeRes,
    ThinArrow,
}

/// How a lex failure is classified.
#[derive(Debug, PartialEq, Eq, Structural)]
pub enum LexErrorKind {
    /// No alternative of the dispatch order matches at the position.
    UnexpectedCharacter,
    /// A digit run does not fit a signed 64-bit integer.
    InvalidNumber,
    /// A string, character, format-string or inline host-code block reaches
    /// the end of input (or an unresolved brace) before its terminator.
    UnterminatedLiteral,
}

/// A located, classified lex failure: the offending span `start..end`.
#[derive(Debug, PartialEq, Eq, Structural)]
pub struct LexError {
    pub kind: LexErrorKind,
    pub start: usize,
    pub end: usize,
}

/// Mathematical model of a `Context`.
pub struct CtxModel {
    pub file_name: Seq<char>,
    pub file_contents: Seq<char>,
}

/// Mathematical model of a `Span`.
pub struct SpanModel {
    pub start: int,
    pub end: int,
    pub ctx: CtxModel,
}

/// Mathematical model of a `Token`.
pub enum TokenModel {
    Use,
    Type,
    Go,
    Struct,
    Duck,
    Function,
    Return,
    Ident(Seq<char>),
    ControlChar(char),
    StringLiteral(Seq<char>),
    FormatStringLiteral(Seq<FmtModel>),
    IntLiteral(int),
    BoolLiteral(bool),
    CharLiteral(char),
    FloatLiteral(int, Seq<char>),
    Equals,
    Match,
    If,
    Else,
    Let,
    While,
    Break,
    Continue,
    As,
    InlineGo(Seq<char>),
    Module,
    ScopeRes,
    ThinArrow,
}

/// Mathematical model of a `FmtStringContents`.
pub enum FmtModel {
    Char(char),
    Tokens(Seq<(TokenModel, SpanModel)>),
}

impl View for Context {
    type V = CtxModel;

    open spec fn view(&self) -> CtxModel {
        CtxModel { file_name: self.file_name@, file_contents: self.file_contents@ }
    }
}

impl View for Span {
    type V = SpanModel;

    open spec fn view(&self) -> SpanModel {
        SpanModel { start: self.start as int, end: self.end as int, ctx: self.context@ }
    }
}

/// Model of a span whose `start..end` is `start..end` within the file `ctx`.
pub open spec fn span_model(start: int, end: int, ctx: CtxModel) -> SpanModel {
    SpanModel { start, end, ctx }
}

/// The model of one executable token.
pub open spec fn token_view(t: Token) -> TokenModel
    decreases t,
{
    match t {
        Token::Use => TokenModel::Use,
        Token::Type => TokenModel::Type,
        Token::Go => TokenModel::Go,
        Token::Struct => TokenModel::Struct,
        Token::Duck => TokenModel::Duck,
        Token::Function => TokenModel::Function,
        Token::Return => TokenModel::Return,
        Token::Ident(s) => TokenModel::Ident(s@),
        Token::ControlChar(c) => TokenModel::ControlChar(c),
        Token::StringLiteral(s) => TokenModel::StringLiteral(s@),
        Token::FormatStringLiteral(cs) => TokenModel::FormatStringLiteral(fmt_seq_view(cs@)),
        Token::IntLiteral(i) => TokenModel::IntLiteral(i as int),
        Token::BoolLiteral(b) => TokenModel::BoolLiteral(b),
        Token::CharLiteral(c) => TokenModel::CharLiteral(c),
        Token::FloatLiteral(i, f) => TokenModel::FloatLiteral(i as int, f@),
        Token::Equals => TokenModel::Equals,
        Token::Match => TokenModel::Match,
        Token::If => TokenModel::If,
        Token::Else => TokenModel::Else,
        Token::Let => TokenModel::Let,
        Token::While => TokenModel::While,
        Token::Break => TokenModel::Break,
        Token::Continue => TokenModel::Continue,
        Token::As => TokenModel::As,
        Token::InlineGo(s) => TokenModel::InlineGo(s@),
        Token::Module => TokenModel::Module,
        Token::ScopeRes => TokenModel::ScopeRes,
        Token::ThinArrow => TokenModel::ThinArrow,
    }
}

/// The model of one executable format-string content item.
pub open spec fn fmt_view(c: FmtStringContents) -> FmtModel
    decreases c,
{
    match c {
        FmtStringContents::Char(ch) => FmtModel::Char(ch),
        FmtStringContents::Tokens(ts) => FmtModel::Tokens(spanned_seq_view(ts@)),
    }
}

/// The model of a sequence of format-string content items, element-wise.
pub open spec fn fmt_seq_view(cs: Seq<FmtStringContents>) -> Seq<FmtModel>
    decreases cs,
{
    if cs.len() == 0 {
        Seq::empty()
    } else {
        seq![fmt_view(cs[0])] + fmt_seq_view(cs.drop_first())
    }
}

/// The model of a sequence of spanned tokens, element-wise.
pub open spec fn spanned_seq_view(ts: Seq<(Token, Span)>) -> Seq<(TokenModel, SpanModel)>
    decreases ts,
{
    if ts.len() == 0 {
        Seq::empty()
    } else {
        seq![(token_view(ts[0].0), ts[0].1@)] + spanned_seq_view(ts.drop_first())
    }
}

/// `fmt_seq_view` maps element-wise: it keeps the length and views each item.
pub proof fn lemma_fmt_seq_view_elts(cs: Seq<FmtStringContents>)
    ensures
        fmt_seq_view(cs).len() == cs.len(),
        forall|i: int| 0 <= i < cs.len() ==> fmt_seq_view(cs)[i] == fmt_view(cs[i]),
    decreases cs,
{
    if cs.len() > 0 {
        lemma_fmt_seq_view_elts(cs.drop_first());
    }
}

/// `spanned_seq_view` maps element-wise: it keeps the length and views each item.
pub proof fn lemma_spanned_seq_view_elts(ts: Seq<(Token, Span)>)
    ensures
        spanned_seq_view(ts).len() == ts.len(),
        forall|i: int| 0 <= i < ts.len() ==> spanned_seq_view(ts)[i] == (token_view(ts[i].0), ts[i].1@),
    decreases ts,
{
    if ts.len() > 0 {
        lemma_spanned_seq_view_elts(ts.drop_first());
    }
}

/// Viewing a concatenation concatenates the views.
pub proof fn lemma_spanned_seq_view_concat(a: Seq<(Token, Span)>, b: Seq<(Token, Span)>)
    ensures
        spanned_seq_view(a + b) == spanned_seq_view(a) + spanned_seq_view(b),
    decreases a,
{
    if a.len() == 0 {
        assert(a + b =~= b);
        assert(spanned_seq_view(a) + spanned_seq_view(b) =~= spanned_seq_view(b));
    } else {
        assert((a + b).drop_first() =~= a.drop_first() + b);
        lemma_spanned_seq_view_concat(a.drop_first(), b);
        assert(spanned_seq_view(a + b) =~= spanned_seq_view(a) + spanned_seq_view(b));
    }
}

/// The short diagnostic text for each kind of token: keywords and
/// operators as themselves, literal kinds by their kind name, a control
/// character as that character, a string literal with its decoded text.
pub open spec fn token_describe(t: TokenModel) -> Seq<char> {
    match t {
        TokenModel::Use => seq!['u', 's', 'e'],
        TokenModel::Type => seq!['t', 'y', 'p', 'e'],
        TokenModel::Go => seq!['g', 'o'],
        TokenModel::Struct => seq!['s', 't', 'r', 'u', 'c', 't'],
        TokenModel::Duck => seq!['d', 'u', 'c', 'k'],
        TokenModel::Function => seq!['f', 'n'],
        TokenModel::Return => seq!['r', 'e', 't', 'u', 'r', 'n'],
        TokenModel::Ident(_) => seq!['i', 'd', 'e', 'n', 't', 'i', 'f', 'i', 'e', 'r'],
        TokenModel::ControlChar(c) => seq![c],
        TokenModel::StringLiteral(s) => seq!['s', 't', 'r', 'i', 'n', 'g', ' '] + s,
        TokenModel::FormatStringLiteral(_) => seq!['f', '-', 's', 't', 'r', 'i', 'n', 'g'],
        TokenModel::IntLiteral(_) => seq!['i', 'n', 't'],
        TokenModel::BoolLiteral(_) => seq!['b', 'o', 'o', 'l'],
        TokenModel::CharLiteral(_) => seq!['c', 'h', 'a', 'r'],
        TokenModel::FloatLiteral(_, _) => seq!['f', 'l', 'o', 'a', 't'],
        TokenModel::Equals => seq!['e', 'q', 'u', 'a', 'l', 's'],
        TokenModel::Match => seq!['m', 'a', 't', 'c', 'h'],
        TokenModel::If => seq!['i', 'f'],
        TokenModel::Else => seq!['e', 'l', 's', 'e'],
        TokenModel::Let => seq!['l', 'e', 't'],
        TokenModel::While => seq!['w', 'h', 'i', 'l', 'e'],
        TokenModel::Break => seq!['b', 'r', 'e', 'a', 'k'],
        TokenModel::Continue => seq!['c', 'o', 'n', 't', 'i', 'n', 'u', 'e'],
        TokenModel::As => seq!['a', 's'],
        TokenModel::InlineGo(_) => seq!['i', 'n', 'l', 'i', 'n', 'e', ' ', 'g', 'o'],
        TokenModel::Module => seq!['m', 'o', 'd', 'u', 'l', 'e'],
        TokenModel::ScopeRes => seq![':', ':'],
        TokenModel::ThinArrow => seq!['-', '>'],
    }
}

impl Token {
    /// The token's short diagnostic text, for error messages.  Keywords
    /// and operators render as themselves, literal kinds by their kind
    /// name, a control character as that character, a string literal with
    /// its decoded text; a format string renders as its kind name without
    /// its contents.
    pub fn describe(&self) -> (r: String)
        ensures
            r@ == token_describe(token_view(*self)),
    {
        match self {
            Token::Use => {
                proof {
                    reveal_strlit("use");
                }
                String::from_str("use")
            },
            Token::Type => {
                proof {
                    reveal_strlit("type");
                }
                String::from_str("type")
            },
            Token::Go => {
                proof {
                    reveal_strlit("go");
                }
                String::from_str("go")
            },
            Token::Struct => {
                proof {
                    reveal_strlit("struct");
                }
                String::from_str("struct")
            },
            Token::Duck => {
                proof {
                    reveal_strlit("duck");
                }
                String::from_str("duck")
            },
            Token::Function => {
                proof {
                    reveal_strlit("fn");
                }
                String::from_str("fn")
            },
            Token::Return => {
                proof {
                    reveal_strlit("return");
                }
                String::from_str("return")
            },
            Token::Ident(_) => {
                proof {
                    reveal_strlit("identifier");
                }
                String::from_str("identifier")
            },
            Token::ControlChar(c) => {
                let mut v: Vec<char> = Vec::new();
                v.push(*c);
                proof {
                    assert(v@ =~= seq![*c]);
                }
                crate::lexer::chars_to_string(&v)
            },
            Token::StringLiteral(s) => {
                proof {
                    reveal_strlit("string ");
                }
                let mut out = String::from_str("string ");
                out.append(s);
                out
            },
            Token::FormatStringLiteral(_) => {
                proof {
                    reveal_strlit("f-string");
                }
                String::from_str("f-string")
            },
            Token::IntLiteral(_) => {
                proof {
                    reveal_strlit("int");
                }
                String::from_str("int")
            },
            Token::BoolLiteral(_) => {
                proof {
                    reveal_strlit("bool");
                }
                String::from_str("bool")
            },
            Token::CharLiteral(_) => {
                proof {
                    reveal_strlit("char");
                }
                String::from_str("char")
            },
            Token::FloatLiteral(_, _) => {
                proof {
                    reveal_strlit("float");
                }
                String::from_str("float")
            },
            Token::Equals => {
                proof {
                    reveal_strlit("equals");
                }
                String::from_str("equals")
            },
            Token::Match => {
                proof {
                    reveal_strlit("match");
                }
                String::from_str("match")
            },
            Token::If => {
                proof {
                    reveal_strlit("if");
                }
                String::from_str("if")
            },
            Token::Else => {
                proof {
                    reveal_strlit("else");
                }
                String::from_str("else")
            },
            Token::Let => {
                proof {
                    reveal_strlit("let");
                }
                String::from_str("let")
            },
            Token::While => {
                proof {
                    reveal_strlit("while");
                }
                String::from_str("while")
            },
            Token::Break => {
                proof {
                    reveal_strlit("break");
                }
                String::from_str("break")
            },
            Token::Continue => {
                proof {
                    reveal_strlit("continue");
                }
                String::from_str("continue")
            },
            Token::As => {
                proof {
                    reveal_strlit("as");
                }
                String::from_str("as")
            },
            Token::InlineGo(_) => {
                proof {
                    reveal_strlit("inline go");
                }
                String::from_str("inline go")
            },
            Token::Module => {
                proof {
                    reveal_strlit("module");
                }
                String::from_str("module")
            },
            Token::ScopeRes => {
                proof {
                    reveal_strlit("::");
                }
                String::from_str("::")
            },
            Token::ThinArrow => {
                proof {
                    reveal_strlit("->");
                }
                String::from_str("->")
            },
        }
    }
}

/// The view of a one-item sequence.
pub proof fn lemma_spanned_seq_view_singleton(x: (Token, Span))
    ensures
        spanned_seq_view(seq![x]) == seq![(token_view(x.0), x.1@)],
{
    assert(seq![x].drop_first() =~= Seq::<(Token, Span)>::empty());
    assert(spanned_seq_view(Seq::<(Token, Span)>::empty()) =~= Seq::empty());
    assert(spanned_seq_view(seq![x]) =~= seq![(token_view(x.0), x.1@)]);
}

/// Viewing after prepending one element prepends its view.
pub proof fn lemma_spanned_cons(x: (Token, Span), rest: Seq<(Token, Span)>)
    ensures
        spanned_seq_view(rest.insert(0, x)) == seq![(token_view(x.0), x.1@)] + spanned_seq_view(
            rest,
        ),
{
    let s = rest.insert(0, x);
    assert(s[0] == x);
    assert(s.drop_first() =~= rest);
    assert(spanned_seq_view(s) == seq![(token_view(s[0].0), s[0].1@)] + spanned_seq_view(
        s.drop_first(),
    ));
}

/// Viewing after prepending one content item prepends its view.
pub proof fn lemma_fmt_cons(x: FmtStringContents, rest: Seq<FmtStringContents>)
    ensures
        fmt_seq_view(rest.insert(0, x)) == seq![fmt_view(x)] + fmt_seq_view(rest),
{
    let s = rest.insert(0, x);
    assert(s[0] == x);
    assert(s.drop_first() =~= rest);
    assert(fmt_seq_view(s) == seq![fmt_view(s[0])] + fmt_seq_view(s.drop_first()));
}

} // verus!
