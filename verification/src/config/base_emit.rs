//! The code that the attribute puts around the test.

use vstd::prelude::*;
use crate::config::base::{Config, ConfigView};
use crate::config::set::streams;
use crate::function::{default_return_view, Function, FunctionView};
use crate::token::{
    copy_tokens, extend_tokens, group_view, ident_view, lemma_views, lemma_views_empty, path_sep,
    punct_view, push_path_sep, push_token, views, Delimiter, Spacing, Span, Stream, Token,
    TokenView,
};

verus! {

/// Each token of `attr` behind a `#` of its own.
pub open spec fn hashed(attr: Stream) -> Stream
    decreases attr.len(),
{
    if attr.len() == 0 {
        Seq::empty()
    } else {
        hashed(attr.drop_last()) + seq![punct_view('#', Spacing::Alone), attr.last()]
    }
}

/// The method call `.method(e)` for each expression `e` of `list`.
pub open spec fn calls(method: Seq<char>, list: Seq<Stream>) -> Stream
    decreases list.len(),
{
    if list.len() == 0 {
        Seq::empty()
    } else {
        calls(method, list.drop_last()) + seq![
            punct_view('.', Spacing::Alone),
            ident_view(method),
            group_view(Delimiter::Parenthesis, list.last()),
        ]
    }
}

/// The content of the test attribute: what `test_fn` says, else
/// `tokio::test` for an async function and `test` for any other.
pub open spec fn test_attr_view(c: ConfigView, f: FunctionView) -> Stream {
    match c.test_fn {
        Some(t) => t,
        None => if f.is_async {
            seq![ident_view("tokio"@)] + path_sep() + seq![ident_view("test"@)]
        } else {
            seq![ident_view("test"@)]
        },
    }
}

/// The attributes in front of the generated function: the test
/// attribute, then those that the function had; nothing at all where
/// `test_fn` is `()`.
pub open spec fn test_decl_view(c: ConfigView, f: FunctionView) -> Stream {
    if !c.has_test_fn() {
        Seq::empty()
    } else {
        seq![
            punct_view('#', Spacing::Alone),
            group_view(Delimiter::Bracket, test_attr_view(c, f)),
        ] + hashed(f.attr)
    }
}

/// `etest::Location::new()`.
pub open spec fn capture_view() -> Stream {
    seq![ident_view("etest"@)] + path_sep() + seq![ident_view("Location"@)] + path_sep() + seq![
        ident_view("new"@),
        group_view(Delimiter::Parenthesis, Seq::empty()),
    ]
}

/// The start of every generated body:
/// `use etest::prelude::*; let etest_current_test = (|| { etest::Location::new() })();`.
/// The closure keeps the location that of the test.
pub open spec fn generic_view() -> Stream {
    seq![ident_view("use"@), ident_view("etest"@)] + path_sep() + seq![ident_view("prelude"@)]
        + path_sep() + seq![
        punct_view('*', Spacing::Alone),
        punct_view(';', Spacing::Alone),
        ident_view("let"@),
        ident_view("etest_current_test"@),
        punct_view('=', Spacing::Alone),
        group_view(
            Delimiter::Parenthesis,
            seq![
                punct_view('|', Spacing::Alone),
                punct_view('|', Spacing::Alone),
                group_view(Delimiter::Brace, capture_view()),
            ],
        ),
        group_view(Delimiter::Parenthesis, Seq::empty()),
        punct_view(';', Spacing::Alone),
    ]
}

/// What a skipped test does:
/// `etest::mark_skipped(&etest_current_test); return` and the skip value.
pub open spec fn skip_block_view(c: ConfigView, f: FunctionView) -> Stream {
    seq![ident_view("etest"@)] + path_sep() + seq![
        ident_view("mark_skipped"@),
        group_view(
            Delimiter::Parenthesis,
            seq![punct_view('&', Spacing::Joint), ident_view("etest_current_test"@)],
        ),
        punct_view(';', Spacing::Alone),
        TokenView::Ident("return"@, Span::Call),
    ] + match c.skip_result {
        Some(r) => r,
        None => default_return_view(f),
    }
}

/// The skip check, `if !(skip) {} else { .. }`; nothing without `skip`.
pub open spec fn skip_view(c: ConfigView, f: FunctionView) -> Stream {
    match c.skip_fn {
        None => Seq::empty(),
        Some(skip) => seq![
            ident_view("if"@),
            punct_view('!', Spacing::Alone),
            group_view(Delimiter::Parenthesis, skip),
            group_view(Delimiter::Brace, Seq::empty()),
            ident_view("else"@),
            group_view(Delimiter::Brace, skip_block_view(c, f)),
        ],
    }
}

/// The arguments of the reservation: `&etest::RESOURCES, &etest_current_test`.
pub open spec fn reserve_args_view() -> Stream {
    seq![punct_view('&', Spacing::Alone), ident_view("etest"@)] + path_sep() + seq![
        ident_view("RESOURCES"@),
        punct_view(',', Spacing::Alone),
        punct_view('&', Spacing::Joint),
        ident_view("etest_current_test"@),
    ]
}

/// The reservation,
/// `let _resource_lock = etest::ResourceBuilder::new().uses(..).consumes(..).reserve(..);`
/// with the uses before the consumes; nothing where no resource is named.
pub open spec fn lock_view(c: ConfigView) -> Stream {
    if c.uses.len() == 0 && c.consumes.len() == 0 {
        Seq::empty()
    } else {
        seq![
            ident_view("let"@),
            ident_view("_resource_lock"@),
            punct_view('=', Spacing::Alone),
            ident_view("etest"@),
        ] + path_sep() + seq![ident_view("ResourceBuilder"@)] + path_sep() + seq![
            ident_view("new"@),
            group_view(Delimiter::Parenthesis, Seq::empty()),
        ] + calls("uses"@, c.uses) + calls("consumes"@, c.consumes) + seq![
            punct_view('.', Spacing::Alone),
            ident_view("reserve"@),
            group_view(Delimiter::Parenthesis, reserve_args_view()),
            punct_view(';', Spacing::Joint),
        ]
    }
}

/// The arguments of the supervisor:
/// `&etest_current_test, timeout, move ||` and the body, `async` before
/// the body of an async function.
pub open spec fn timeout_args_view(timeout: Stream, f: FunctionView) -> Stream {
    seq![
        punct_view('&', Spacing::Joint),
        ident_view("etest_current_test"@),
        punct_view(',', Spacing::Alone),
    ] + timeout + seq![
        punct_view(',', Spacing::Alone),
        ident_view("move"@),
        punct_view('|', Spacing::Alone),
        punct_view('|', Spacing::Alone),
    ] + (if f.is_async {
        seq![ident_view("async"@)]
    } else {
        Seq::empty()
    }) + f.body
}

/// The body under its timeout, `etest::panic_after(..)`, awaited for an
/// async function; the bare body without `timeout`.
pub open spec fn timeout_view(c: ConfigView, f: FunctionView) -> Stream {
    match c.timeout {
        None => f.body,
        Some(timeout) => seq![ident_view("etest"@)] + path_sep() + seq![
            ident_view("panic_after"@),
            group_view(Delimiter::Parenthesis, timeout_args_view(timeout, f)),
        ] + (if f.is_async {
            seq![punct_view('.', Spacing::Alone), ident_view("await"@)]
        } else {
            Seq::empty()
        }),
    }
}

fn new_stream() -> (r: Vec<Token>)
    ensures
        views(r@) == Seq::<TokenView>::empty(),
        r@.len() == 0,
{
    let r: Vec<Token> = Vec::new();
    proof {
        lemma_views_empty(r@);
    }
    r
}

fn push_calls(out: &mut Vec<Token>, method: &str, list: &Vec<Vec<Token>>)
    ensures
        views(final(out)@) == views(old(out)@) + calls(method@, streams(list@)),
{
    let ghost all = streams(list@);
    let mut k: usize = 0;
    assert(views(out@) =~= views(old(out)@) + calls(method@, all.subrange(0, 0)));
    while k < list.len()
        invariant
            k <= list.len(),
            all == streams(list@),
            views(out@) == views(old(out)@) + calls(method@, all.subrange(0, k as int)),
        decreases list.len() - k,
    {
        let ghost before = views(out@);
        push_token(out, Token::punct('.', Spacing::Alone));
        push_token(out, Token::ident(method));
        push_token(out, Token::group(Delimiter::Parenthesis, copy_tokens(&list[k])));
        proof {
            let next = all.subrange(0, k + 1);
            assert(next.drop_last() =~= all.subrange(0, k as int));
            assert(next.last() == views(list@[k as int]@));
            assert(views(out@) =~= views(old(out)@) + calls(method@, next));
        }
        k += 1;
    }
    assert(all.subrange(0, k as int) =~= all);
}

impl Config {
    /// The attributes in front of the generated function.
    pub fn emit_test_decl(&self, func: &Function) -> (r: Vec<Token>)
        ensures
            views(r@) == test_decl_view(self@, func@),
    {
        let mut res = new_stream();
        if !self.has_test_fn() {
            return res;
        }
        let test_attr = match &self.test_fn {
            Some(f) => copy_tokens(f),
            None => {
                let mut a = new_stream();
                if func.is_async {
                    push_token(&mut a, Token::ident("tokio"));
                    push_path_sep(&mut a);
                    push_token(&mut a, Token::ident("test"));
                } else {
                    push_token(&mut a, Token::ident("test"));
                }
                assert(views(a@) =~= test_attr_view(self@, func@));
                a
            },
        };
        push_token(&mut res, Token::punct('#', Spacing::Alone));
        push_token(&mut res, Token::group(Delimiter::Bracket, test_attr));
        let ghost head = views(res@);
        let ghost attr = views(func.attr@);
        let mut k: usize = 0;
        proof {
            lemma_views(func.attr@);
            assert(views(res@) =~= head + hashed(attr.subrange(0, 0)));
        }
        while k < func.attr.len()
            invariant
                k <= func.attr.len(),
                attr == views(func.attr@),
                attr.len() == func.attr@.len(),
                forall|i: int| 0 <= i < func.attr@.len() ==> (#[trigger] attr[i]) == func.attr@[i]@,
                views(res@) == head + hashed(attr.subrange(0, k as int)),
            decreases func.attr.len() - k,
        {
            push_token(&mut res, Token::punct('#', Spacing::Alone));
            push_token(&mut res, func.attr[k].clone());
            proof {
                let next = attr.subrange(0, k + 1);
                assert(next.drop_last() =~= attr.subrange(0, k as int));
                assert(views(res@) =~= head + hashed(next));
            }
            k += 1;
        }
        assert(attr.subrange(0, k as int) =~= attr);
        res
    }

    /// The start of every generated body.
    pub fn emit_generic(&self, _func: &Function) -> (r: Vec<Token>)
        ensures
            views(r@) == generic_view(),
    {
        let mut capture = new_stream();
        push_token(&mut capture, Token::ident("etest"));
        push_path_sep(&mut capture);
        push_token(&mut capture, Token::ident("Location"));
        push_path_sep(&mut capture);
        push_token(&mut capture, Token::ident("new"));
        push_token(&mut capture, Token::group(Delimiter::Parenthesis, new_stream()));
        assert(views(capture@) =~= capture_view());

        let mut closure = new_stream();
        push_token(&mut closure, Token::punct('|', Spacing::Alone));
        push_token(&mut closure, Token::punct('|', Spacing::Alone));
        push_token(&mut closure, Token::group(Delimiter::Brace, capture));
        let ghost closure_view = seq![
            punct_view('|', Spacing::Alone),
            punct_view('|', Spacing::Alone),
            group_view(Delimiter::Brace, capture_view()),
        ];
        assert(views(closure@) =~= closure_view);

        let mut res = new_stream();
        push_token(&mut res, Token::ident("use"));
        push_token(&mut res, Token::ident("etest"));
        push_path_sep(&mut res);
        push_token(&mut res, Token::ident("prelude"));
        push_path_sep(&mut res);
        push_token(&mut res, Token::punct('*', Spacing::Alone));
        push_token(&mut res, Token::punct(';', Spacing::Alone));
        push_token(&mut res, Token::ident("let"));
        push_token(&mut res, Token::ident("etest_current_test"));
        push_token(&mut res, Token::punct('=', Spacing::Alone));
        push_token(&mut res, Token::group(Delimiter::Parenthesis, closure));
        push_token(&mut res, Token::group(Delimiter::Parenthesis, new_stream()));
        push_token(&mut res, Token::punct(';', Spacing::Alone));
        assert(views(res@) =~= generic_view());
        res
    }

    /// The check whether the test is skipped.
    pub fn emit_skip_fn(&self, func: &Function) -> (r: Vec<Token>)
        ensures
            views(r@) == skip_view(self@, func@),
    {
        let skip_fn = match &self.skip_fn {
            None => {
                return new_stream();
            },
            Some(s) => s,
        };
        let mut loc = new_stream();
        push_token(&mut loc, Token::punct('&', Spacing::Joint));
        push_token(&mut loc, Token::ident("etest_current_test"));
        assert(views(loc@) =~= seq![
            punct_view('&', Spacing::Joint),
            ident_view("etest_current_test"@),
        ]);

        let mut inner_block = new_stream();
        push_token(&mut inner_block, Token::ident("etest"));
        push_path_sep(&mut inner_block);
        push_token(&mut inner_block, Token::ident("mark_skipped"));
        push_token(&mut inner_block, Token::group(Delimiter::Parenthesis, loc));
        push_token(&mut inner_block, Token::punct(';', Spacing::Alone));
        push_token(&mut inner_block, Token::Ident(String::from_str("return"), Span::Call));
        match &self.skip_result {
            Some(r) => {
                extend_tokens(&mut inner_block, r);
            },
            None => {
                let d = func.default_return();
                extend_tokens(&mut inner_block, &d);
            },
        }
        assert(views(inner_block@) =~= skip_block_view(self@, func@));

        let mut res = new_stream();
        push_token(&mut res, Token::ident("if"));
        push_token(&mut res, Token::punct('!', Spacing::Alone));
        push_token(&mut res, Token::group(Delimiter::Parenthesis, copy_tokens(skip_fn)));
        push_token(&mut res, Token::group(Delimiter::Brace, new_stream()));
        push_token(&mut res, Token::ident("else"));
        push_token(&mut res, Token::group(Delimiter::Brace, inner_block));
        assert(views(res@) =~= skip_view(self@, func@));
        res
    }

    /// The reservation of the resources.
    pub fn emit_lock(&self, _func: &Function) -> (r: Vec<Token>)
        ensures
            views(r@) == lock_view(self@),
    {
        if self.uses.is_empty() && self.consumes.is_empty() {
            return new_stream();
        }
        let mut args = new_stream();
        push_token(&mut args, Token::punct('&', Spacing::Alone));
        push_token(&mut args, Token::ident("etest"));
        push_path_sep(&mut args);
        push_token(&mut args, Token::ident("RESOURCES"));
        push_token(&mut args, Token::punct(',', Spacing::Alone));
        push_token(&mut args, Token::punct('&', Spacing::Joint));
        push_token(&mut args, Token::ident("etest_current_test"));
        assert(views(args@) =~= reserve_args_view());

        let mut builder = new_stream();
        push_token(&mut builder, Token::ident("let"));
        push_token(&mut builder, Token::ident("_resource_lock"));
        push_token(&mut builder, Token::punct('=', Spacing::Alone));
        push_token(&mut builder, Token::ident("etest"));
        push_path_sep(&mut builder);
        push_token(&mut builder, Token::ident("ResourceBuilder"));
        push_path_sep(&mut builder);
        push_token(&mut builder, Token::ident("new"));
        push_token(&mut builder, Token::group(Delimiter::Parenthesis, new_stream()));
        push_calls(&mut builder, "uses", self.uses.items());
        push_calls(&mut builder, "consumes", self.consumes.items());
        push_token(&mut builder, Token::punct('.', Spacing::Alone));
        push_token(&mut builder, Token::ident("reserve"));
        push_token(&mut builder, Token::group(Delimiter::Parenthesis, args));
        push_token(&mut builder, Token::punct(';', Spacing::Joint));
        assert(views(builder@) =~= lock_view(self@));
        builder
    }

    /// The body, under its timeout where one is configured.
    pub fn emit_timeout(&self, func: &Function) -> (r: Vec<Token>)
        ensures
            views(r@) == timeout_view(self@, func@),
    {
        let timeout = match &self.timeout {
            None => {
                return copy_tokens(&func.body);
            },
            Some(t) => t,
        };
        let mut args = new_stream();
        push_token(&mut args, Token::punct('&', Spacing::Joint));
        push_token(&mut args, Token::ident("etest_current_test"));
        push_token(&mut args, Token::punct(',', Spacing::Alone));
        extend_tokens(&mut args, timeout);
        push_token(&mut args, Token::punct(',', Spacing::Alone));
        push_token(&mut args, Token::ident("move"));
        push_token(&mut args, Token::punct('|', Spacing::Alone));
        push_token(&mut args, Token::punct('|', Spacing::Alone));
        if func.is_async {
            push_token(&mut args, Token::ident("async"));
        }
        extend_tokens(&mut args, &func.body);
        assert(views(args@) =~= timeout_args_view(views(timeout@), func@));

        let mut res = new_stream();
        push_token(&mut res, Token::ident("etest"));
        push_path_sep(&mut res);
        push_token(&mut res, Token::ident("panic_after"));
        push_token(&mut res, Token::group(Delimiter::Parenthesis, args));
        if func.is_async {
            push_token(&mut res, Token::punct('.', Spacing::Alone));
            push_token(&mut res, Token::ident("await"));
        }
        assert(views(res@) =~= timeout_view(self@, func@));
        res
    }
}

} // verus!
