//! Tokens that the attribute makes in more than one place.

use vstd::prelude::*;
use crate::token::{
    group_view, lemma_views_empty, punct_view, push_token, views, Delimiter, Spacing, Span, Stream,
    Token, TokenView,
};

verus! {

/// The invocation `compile_error!("msg")`, reported at `span`.
pub open spec fn err_view(span: Span, msg: Seq<char>) -> Stream {
    seq![
        TokenView::Ident("compile_error"@, span),
        punct_view('!', Spacing::Alone),
        group_view(Delimiter::Parenthesis, seq![TokenView::Text(msg, Span::Call)]),
    ]
}

/// The empty argument list `()`.
pub open spec fn empty_args_view() -> TokenView {
    group_view(Delimiter::Parenthesis, Seq::<TokenView>::empty())
}

/// Tokens that make the compiler report `msg` at `span`.
pub fn err(span: Span, msg: &str) -> (r: Vec<Token>)
    ensures
        views(r@) == err_view(span, msg@),
{
    let mut inner: Vec<Token> = Vec::new();
    proof {
        lemma_views_empty(inner@);
    }
    push_token(&mut inner, Token::Text(String::from_str(msg), Span::Call));
    let mut r: Vec<Token> = Vec::new();
    proof {
        lemma_views_empty(r@);
    }
    push_token(&mut r, Token::Ident(String::from_str("compile_error"), span));
    push_token(&mut r, Token::punct('!', Spacing::Alone));
    push_token(&mut r, Token::group(Delimiter::Parenthesis, inner));
    r
}

/// The empty argument list `()`.
pub fn empty_args() -> (r: Token)
    ensures
        r@ == empty_args_view(),
{
    let inner: Vec<Token> = Vec::new();
    proof {
        lemma_views_empty(inner@);
    }
    Token::group(Delimiter::Parenthesis, inner)
}

} // verus!
