//! The attribute: from a test function to the controlled test.

use vstd::prelude::*;
use crate::config::base::{parsed, Config};
use crate::config::base_emit::{generic_view, lock_view, skip_view, test_decl_view, timeout_view};
use crate::function::{parsed_function, Function};
use crate::token::{
    extend_tokens, group_view, lemma_views_empty, push_token, views, Delimiter, Span, Stream, Token,
};
use crate::utils::{err, err_view};

verus! {

/// What the attribute `attr` makes of the function `item`: the tokens
/// that reject the attribute or the function, or else the test
/// attribute, the function's declaration, and a body that starts with
/// the location, checks for skipping, reserves the resources, and only
/// then runs the function's own body under its timeout.
pub open spec fn expanded(attr: Stream, item: Stream) -> Stream {
    match parsed(attr) {
        Err(e) => e,
        Ok(c) => match parsed_function(item) {
            Err(e) => err_view(Span::Call, "failed to parse function "@ + e.name_view()),
            Ok(f) => test_decl_view(c, f) + f.decl + seq![
                group_view(
                    Delimiter::Brace,
                    generic_view() + skip_view(c, f) + lock_view(c) + timeout_view(c, f),
                ),
            ],
        },
    }
}

/// Rewrites the test function `item` as its attribute `attr` says.
pub fn etest(attr: Vec<Token>, item: Vec<Token>) -> (r: Vec<Token>)
    ensures
        views(r@) == expanded(views(attr@), views(item@)),
{
    let cfg = match Config::parse(attr) {
        Ok(c) => c,
        Err(e) => {
            return e;
        },
    };
    let func = match Function::parse(&item) {
        Err(e) => {
            let mut msg = String::from_str("failed to parse function ");
            msg.append(e.name());
            return err(Span::Call, msg.as_str());
        },
        Ok(f) => f,
    };
    let mut res: Vec<Token> = Vec::new();
    proof {
        lemma_views_empty(res@);
    }
    let decl = cfg.emit_test_decl(&func);
    extend_tokens(&mut res, &decl);

    let mut body: Vec<Token> = Vec::new();
    proof {
        lemma_views_empty(body@);
    }
    let generic = cfg.emit_generic(&func);
    extend_tokens(&mut body, &generic);
    let skip = cfg.emit_skip_fn(&func);
    extend_tokens(&mut body, &skip);
    let lock = cfg.emit_lock(&func);
    extend_tokens(&mut body, &lock);
    let run = cfg.emit_timeout(&func);
    extend_tokens(&mut body, &run);
    assert(views(body@) =~= generic_view() + skip_view(cfg@, func@) + lock_view(cfg@)
        + timeout_view(cfg@, func@));

    extend_tokens(&mut res, &func.decl);
    push_token(&mut res, Token::group(Delimiter::Brace, body));
    assert(views(res@) =~= expanded(views(attr@), views(item@)));
    res
}

} // verus!
