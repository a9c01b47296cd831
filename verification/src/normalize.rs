//! Span normalization, a test-support utility.
//!
//! `token_empty_range` rewrites every span of a spanned token — including
//! the spans of tokens nested arbitrarily deep inside format-string
//! literals — to the sentinel empty span, so that tests can compare token
//! content independent of position.  The production pipeline never uses it.

use crate::model::Context;
use crate::model::CtxModel;
use crate::model::FmtModel;
use crate::model::FmtStringContents;
use crate::model::Span;
use crate::model::SpanModel;
use crate::model::Token;
use crate::model::TokenModel;
use crate::model::fmt_seq_view;
use crate::model::fmt_view;
use crate::model::lemma_fmt_seq_view_elts;
use crate::model::lemma_spanned_seq_view_elts;
use crate::model::span_model;
use crate::model::spanned_seq_view;
use crate::model::token_view;
use vstd::prelude::*;

verus! {

/// Model of the sentinel context: a nameless, empty file.
pub open spec fn empty_ctx_model() -> CtxModel {
    CtxModel { file_name: Seq::empty(), file_contents: Seq::empty() }
}

/// Model of the sentinel span.
pub open spec fn empty_span_model() -> SpanModel {
    span_model(0, 0, empty_ctx_model())
}

/// A token with every span in it rewritten to the sentinel span.
pub open spec fn strip_token_model(t: TokenModel) -> TokenModel
    decreases t,
{
    match t {
        TokenModel::FormatStringLiteral(cs) => TokenModel::FormatStringLiteral(strip_fmt_seq(cs)),
        _ => t,
    }
}

/// One format-string content item, spans rewritten.
pub open spec fn strip_fmt(c: FmtModel) -> FmtModel
    decreases c,
{
    match c {
        FmtModel::Char(ch) => FmtModel::Char(ch),
        FmtModel::Tokens(ts) => FmtModel::Tokens(strip_spanned_seq(ts)),
    }
}

/// A sequence of content items, spans rewritten element-wise.
pub open spec fn strip_fmt_seq(cs: Seq<FmtModel>) -> Seq<FmtModel>
    decreases cs,
{
    if cs.len() == 0 {
        Seq::empty()
    } else {
        seq![strip_fmt(cs[0])] + strip_fmt_seq(cs.drop_first())
    }
}

/// A sequence of spanned tokens: every token stripped, every span made
/// the sentinel.
pub open spec fn strip_spanned_seq(ts: Seq<(TokenModel, SpanModel)>) -> Seq<
    (TokenModel, SpanModel),
>
    decreases ts,
{
    if ts.len() == 0 {
        Seq::empty()
    } else {
        seq![(strip_token_model(ts[0].0), empty_span_model())] + strip_spanned_seq(ts.drop_first())
    }
}

/// `strip_fmt_seq` maps element-wise.
pub proof fn lemma_strip_fmt_seq_elts(cs: Seq<FmtModel>)
    ensures
        strip_fmt_seq(cs).len() == cs.len(),
        forall|i: int| 0 <= i < cs.len() ==> strip_fmt_seq(cs)[i] == strip_fmt(cs[i]),
    decreases cs,
{
    if cs.len() > 0 {
        lemma_strip_fmt_seq_elts(cs.drop_first());
    }
}

/// `strip_spanned_seq` maps element-wise.
pub proof fn lemma_strip_spanned_seq_elts(ts: Seq<(TokenModel, SpanModel)>)
    ensures
        strip_spanned_seq(ts).len() == ts.len(),
        forall|i: int| 0 <= i < ts.len() ==> strip_spanned_seq(ts)[i] == (
        strip_token_model(ts[i].0),
        empty_span_model(),
        ),
    decreases ts,
{
    if ts.len() > 0 {
        lemma_strip_spanned_seq_elts(ts.drop_first());
    }
}

/// The sentinel span: offsets `0..0` in a nameless, empty file.
pub fn empty_span() -> (sp: Span)
    ensures
        sp@ == empty_span_model(),
{
    Span { start: 0, end: 0, context: Context::new(String::new(), Vec::new()) }
}

/// The token with every span inside it rewritten to the sentinel span.
#[verifier::loop_isolation(false)]
fn strip_token(t: Token) -> (r: Token)
    ensures
        token_view(r) == strip_token_model(token_view(t)),
    decreases t,
{
    let ghost t0 = t;
    match t {
        Token::FormatStringLiteral(cs) => {
            let ghost csv = cs;
            let ghost cs0 = cs@;
            let mut cs = cs;
            let mut out: Vec<FmtStringContents> = Vec::new();
            while cs.len() > 0
                invariant
                    t0 == Token::FormatStringLiteral(csv),
                    csv@ == cs0,
                    out@.len() + cs@.len() == cs0.len(),
                    cs@ == cs0.subrange(out@.len() as int, cs0.len() as int),
                    forall|i: int|
                        0 <= i < out@.len() ==> fmt_view(out@[i]) == strip_fmt(fmt_view(cs0[i])),
                decreases cs@.len(),
            {
                let ghost k = out@.len() as int;
                let x = cs.remove(0);
                let ghost x0 = x;
                proof {
                    assert(x0 == cs0[k]);
                }
                let y = match x {
                    FmtStringContents::Char(ch) => FmtStringContents::Char(ch),
                    FmtStringContents::Tokens(ts2) => {
                        let ghost ts2v = ts2;
                        let ghost ts20 = ts2@;
                        let mut ts2 = ts2;
                        let mut out2: Vec<(Token, Span)> = Vec::new();
                        while ts2.len() > 0
                            invariant
                                t0 == Token::FormatStringLiteral(csv),
                                csv@ == cs0,
                                0 <= k < cs0.len(),
                                cs0[k] == x0,
                                x0 == FmtStringContents::Tokens(ts2v),
                                ts2v@ == ts20,
                                out2@.len() + ts2@.len() == ts20.len(),
                                ts2@ == ts20.subrange(out2@.len() as int, ts20.len() as int),
                                forall|j: int|
                                    0 <= j < out2@.len() ==> token_view(out2@[j].0)
                                        == strip_token_model(token_view(ts20[j].0)) && out2@[j].1@
                                        == empty_span_model(),
                            decreases ts2@.len(),
                        {
                            let ghost j = out2@.len() as int;
                            let pair = ts2.remove(0);
                            let ghost pair0 = pair;
                            let (ptok, _psp) = pair;
                            proof {
                                assert(pair0 == ts20[j]);
                                assert(ptok == ts20[j].0);
                                assert(decreases_to!(t0 => t0->FormatStringLiteral_0));
                                assert(t0->FormatStringLiteral_0 == csv);
                                assert(decreases_to!(csv => csv@));
                                assert(decreases_to!(cs0 => cs0[k]));
                                assert(decreases_to!(x0 => x0->Tokens_0));
                                assert(x0->Tokens_0 == ts2v);
                                assert(decreases_to!(ts2v => ts2v@));
                                assert(decreases_to!(ts20 => ts20[j]));
                                assert(decreases_to!(ts20[j] => ts20[j].0));
                                assert(decreases_to!(t0 => ptok));
                            }
                            let st = strip_token(ptok);
                            out2.push((st, empty_span()));
                        }
                        proof {
                            lemma_spanned_seq_view_elts(out2@);
                            lemma_spanned_seq_view_elts(ts20);
                            lemma_strip_spanned_seq_elts(spanned_seq_view(ts20));
                            assert(spanned_seq_view(out2@) =~= strip_spanned_seq(
                                spanned_seq_view(ts20),
                            ));
                        }
                        FmtStringContents::Tokens(out2)
                    },
                };
                out.push(y);
            }
            proof {
                assert(cs@ =~= Seq::<FmtStringContents>::empty());
                lemma_fmt_seq_view_elts(out@);
                lemma_fmt_seq_view_elts(cs0);
                lemma_strip_fmt_seq_elts(fmt_seq_view(cs0));
                assert(fmt_seq_view(out@) =~= strip_fmt_seq(fmt_seq_view(cs0)));
            }
            Token::FormatStringLiteral(out)
        },
        other => other,
    }
}

/// Rewrites the pair's span, and every span nested inside the token, to
/// the sentinel empty span; the token's content is kept.
pub fn token_empty_range(token_span: &mut (Token, Span))
    ensures
        token_view(final (token_span).0) == strip_token_model(token_view(old(token_span).0)),
        final (token_span).1@ == empty_span_model(),
{
    let mut t = Token::Module;
    core::mem::swap(&mut token_span.0, &mut t);
    let stripped = strip_token(t);
    token_span.0 = stripped;
    token_span.1 = empty_span();
}

} // verus!
