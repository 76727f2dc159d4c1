//! The declaration of the test function.

use vstd::prelude::*;
use crate::errors::Error;
use crate::token::{
    copy_tokens, group_view, ident_view, lemma_views, lemma_views_empty, path_sep, push_path_sep, push_token,
    views, Delimiter, Stream, Token, TokenView,
};
use crate::utils::{empty_args, empty_args_view};

verus! {

/// A test function, taken apart.
#[derive(Debug, PartialEq, Eq)]
pub struct Function {
    /// The attributes in front of the function, each without its `#`.
    pub attr: Vec<Token>,
    /// The declaration up to the body, with `!` as return type replaced
    /// by `()`.
    pub decl: Vec<Token>,
    /// The body.
    pub body: Vec<Token>,
    pub name: String,
    pub is_async: bool,
    /// The function was declared to return `!`.
    pub no_return: bool,
    /// The return type, where one is written.
    pub ret: Option<Vec<Token>>,
}

/// A test function as plain values.
pub struct FunctionView {
    pub attr: Stream,
    pub decl: Stream,
    pub body: Stream,
    pub name: Seq<char>,
    pub is_async: bool,
    pub no_return: bool,
    pub ret: Option<Stream>,
}

impl View for Function {
    type V = FunctionView;

    open spec fn view(&self) -> FunctionView {
        FunctionView {
            attr: views(self.attr@),
            decl: views(self.decl@),
            body: views(self.body@),
            name: self.name@,
            is_async: self.is_async,
            no_return: self.no_return,
            ret: match self.ret {
                Some(tokens) => Some(views(tokens@)),
                None => None,
            },
        }
    }
}

/// What stands in front of the function's name.
pub struct Prefix {
    /// The position behind `fn`.
    pub next: int,
    pub attr: Stream,
    pub decl: Stream,
    pub is_async: bool,
}

/// What stands between the arguments and the end of the body.
pub struct Tail {
    /// The position behind the body.
    pub next: int,
    pub decl: Stream,
    pub ret: Option<Stream>,
    pub no_return: bool,
    pub body: Option<TokenView>,
}

/// Reads from `pos` up to `fn`: `#` takes the token behind it as an
/// attribute, everything else goes to the declaration, and `async`
/// on the way marks the function.
pub open spec fn prefix_from(s: Stream, pos: int, attr: Stream, decl: Stream, is_async: bool)
    -> Result<Prefix, Error>
    decreases s.len() - pos,
{
    if pos < 0 || pos >= s.len() {
        Err(Error::FunctionDeclIncomplete)
    } else if s[pos].is_punct('#') {
        if pos + 1 >= s.len() {
            Err(Error::FunctionDeclBad)
        } else {
            prefix_from(s, pos + 2, attr.push(s[pos + 1]), decl, is_async)
        }
    } else if s[pos].is_ident("fn"@) {
        Ok(Prefix { next: pos + 1, attr, decl: decl.push(s[pos]), is_async })
    } else {
        prefix_from(s, pos + 1, attr, decl.push(s[pos]), is_async || s[pos].is_ident("async"@))
    }
}

/// The token is a group in parentheses.
pub open spec fn is_paren(t: TokenView) -> bool {
    t matches TokenView::Group(delimiter, _, _) && delimiter == Delimiter::Parenthesis
}

/// The token is a group in braces.
pub open spec fn is_brace(t: TokenView) -> bool {
    t matches TokenView::Group(delimiter, _, _) && delimiter == Delimiter::Brace
}

/// Position of the first group in parentheses at or after `from`, or the
/// length of `s` if there is none.
pub open spec fn first_paren(s: Stream, from: int) -> int
    decreases s.len() - from,
{
    if from < 0 || from >= s.len() {
        s.len() as int
    } else if is_paren(s[from]) {
        from
    } else {
        first_paren(s, from + 1)
    }
}

/// Reads from `pos`, behind the arguments, up to the body. `->` opens
/// the return type, which runs up to the first group in braces behind at
/// least one token of it, or up to `!`, which is replaced by `()` in the
/// declaration and followed at once by the body. Without `->` the
/// first group is the body.
pub open spec fn tail_from(
    s: Stream,
    pos: int,
    decl: Stream,
    result: Stream,
    has_result: bool,
    expect_gt: bool,
) -> Result<Tail, Error>
    decreases s.len() - pos,
{
    if pos < 0 || pos >= s.len() {
        Err(Error::FunctionDeclIncomplete)
    } else {
        let t = s[pos];
        if t.is_punct('-') && !has_result && !expect_gt {
            tail_from(s, pos + 1, decl.push(t), result, false, true)
        } else if t.is_punct('>') && !has_result && expect_gt {
            tail_from(s, pos + 1, decl.push(t), result, true, false)
        } else if t.is_punct('!') && has_result {
            Ok(
                Tail {
                    next: if pos + 1 < s.len() {
                        pos + 2
                    } else {
                        pos + 1
                    },
                    decl: decl.push(empty_args_view()),
                    ret: None,
                    no_return: true,
                    body: if pos + 1 < s.len() {
                        Some(s[pos + 1])
                    } else {
                        None
                    },
                },
            )
        } else if t is Group && !has_result {
            Ok(Tail { next: pos + 1, decl, ret: None, no_return: false, body: Some(t) })
        } else if is_brace(t) && result.len() > 0 {
            Ok(Tail { next: pos + 1, decl, ret: Some(result), no_return: false, body: Some(t) })
        } else if has_result {
            tail_from(s, pos + 1, decl.push(t), result.push(t), true, expect_gt)
        } else {
            Err(Error::FunctionDeclBad)
        }
    }
}

/// The function that the tokens `s` declare, or what is wrong with them.
pub open spec fn parsed_function(s: Stream) -> Result<FunctionView, Error> {
    match prefix_from(s, 0, Seq::empty(), Seq::empty(), false) {
        Err(e) => Err(e),
        Ok(prefix) => {
            let p = prefix.next;
            if p >= s.len() {
                Err(Error::FunctionDeclIncomplete)
            } else {
                match s[p] {
                    TokenView::Ident(name, _) => {
                        let args = first_paren(s, p + 1);
                        if args >= s.len() {
                            Err(Error::FunctionDeclIncomplete)
                        } else {
                            let decl = prefix.decl + s.subrange(p, args + 1);
                            match tail_from(s, args + 1, decl, Seq::empty(), false, false) {
                                Err(e) => Err(e),
                                Ok(tail) => match tail.body {
                                    None => Err(Error::FunctionNoBody),
                                    Some(body) => if tail.next < s.len() {
                                        Err(Error::FunctionExtraTokens)
                                    } else {
                                        Ok(
                                            FunctionView {
                                                attr: prefix.attr,
                                                decl: tail.decl,
                                                body: seq![body],
                                                name,
                                                is_async: prefix.is_async,
                                                no_return: tail.no_return,
                                                ret: tail.ret,
                                            },
                                        )
                                    },
                                },
                            }
                        }
                    },
                    _ => Err(Error::FunctionDeclBad),
                }
            }
        },
    }
}

/// The expression that a skipped test returns where none is configured:
/// `()` for a function declared to return `!`, nothing for one without
/// return type, else `etest::DefaultReturn::default_return()`.
pub open spec fn default_return_view(f: FunctionView) -> Stream {
    match f.ret {
        None => if f.no_return {
            seq![empty_args_view()]
        } else {
            Seq::empty()
        },
        Some(_) => seq![ident_view("etest"@)] + path_sep() + seq![ident_view("DefaultReturn"@)]
            + path_sep() + seq![
            ident_view("default_return"@),
            group_view(Delimiter::Parenthesis, Seq::empty()),
        ],
    }
}

fn is_paren_token(t: &Token) -> (r: bool)
    ensures
        r == is_paren(t@),
{
    match t {
        Token::Group(delimiter, _, _) => match delimiter {
            Delimiter::Parenthesis => true,
            _ => false,
        },
        _ => false,
    }
}

fn is_brace_token(t: &Token) -> (r: bool)
    ensures
        r == is_brace(t@),
{
    match t {
        Token::Group(delimiter, _, _) => match delimiter {
            Delimiter::Brace => true,
            _ => false,
        },
        _ => false,
    }
}

fn is_group_token(t: &Token) -> (r: bool)
    ensures
        r == (t@ is Group),
{
    match t {
        Token::Group(_, _, _) => true,
        _ => false,
    }
}

impl Function {
    /// The expression that a skipped test returns where none is
    /// configured.
    pub fn default_return(&self) -> (r: Vec<Token>)
        ensures
            views(r@) == default_return_view(self@),
    {
        let mut res: Vec<Token> = Vec::new();
        proof {
            lemma_views_empty(res@);
        }
        match &self.ret {
            None => {
                if self.no_return {
                    push_token(&mut res, empty_args());
                }
                res
            },
            Some(_) => {
                push_token(&mut res, Token::ident("etest"));
                push_path_sep(&mut res);
                push_token(&mut res, Token::ident("DefaultReturn"));
                push_path_sep(&mut res);
                push_token(&mut res, Token::ident("default_return"));
                let inner: Vec<Token> = Vec::new();
                proof {
                    lemma_views_empty(inner@);
                }
                push_token(&mut res, Token::group(Delimiter::Parenthesis, inner));
                assert(views(res@) =~= default_return_view(self@));
                res
            },
        }
    }

    /// Takes the declaration `t` of a function apart.
    #[verifier::loop_isolation(false)]
    pub fn parse(t: &Vec<Token>) -> (r: Result<Self, Error>)
        ensures
            match parsed_function(views(t@)) {
                Ok(f) => r matches Ok(got) && got@ == f,
                Err(e) => r == Err::<Self, Error>(e),
            },
    {
        let ghost s = views(t@);
        proof {
            lemma_views(t@);
        }
        let len = t.len();
        let mut attr: Vec<Token> = Vec::new();
        let mut decl: Vec<Token> = Vec::new();
        let mut is_async = false;
        let mut pos: usize = 0;
        proof {
            lemma_views_empty(attr@);
            lemma_views_empty(decl@);
        }
        // up to `fn`
        let mut found = false;
        while !found
            invariant
                pos <= len,
                !found ==> prefix_from(s, 0, Seq::empty(), Seq::empty(), false) == prefix_from(
                    s,
                    pos as int,
                    views(attr@),
                    views(decl@),
                    is_async,
                ),
                found ==> prefix_from(s, 0, Seq::empty(), Seq::empty(), false) == Ok::<
                    Prefix,
                    Error,
                >(
                    Prefix {
                        next: pos as int,
                        attr: views(attr@),
                        decl: views(decl@),
                        is_async,
                    },
                ),
            decreases len - pos,
        {
            if pos >= len {
                return Err(Error::FunctionDeclIncomplete);
            }
            let tok = &t[pos];
            if tok.is_punct('#') {
                if pos + 1 >= len {
                    return Err(Error::FunctionDeclBad);
                }
                push_token(&mut attr, t[pos + 1].clone());
                pos = pos + 2;
            } else if tok.is_ident("fn") {
                push_token(&mut decl, tok.clone());
                pos = pos + 1;
                found = true;
            } else {
                if tok.is_ident("async") {
                    is_async = true;
                }
                push_token(&mut decl, tok.clone());
                pos = pos + 1;
            }
        }
        // the name
        if pos >= len {
            return Err(Error::FunctionDeclIncomplete);
        }
        let name = match &t[pos] {
            Token::Ident(id, _) => id.clone(),
            _ => {
                return Err(Error::FunctionDeclBad);
            },
        };
        let ghost p = pos as int;
        let ghost prefix_decl = views(decl@);
        push_token(&mut decl, t[pos].clone());
        pos = pos + 1;
        assert(views(decl@) =~= prefix_decl + s.subrange(p, pos as int));
        // the arguments
        let mut found = false;
        while !found
            invariant
                0 <= p < pos <= len,
                views(decl@) == prefix_decl + s.subrange(p, pos as int),
                !found ==> first_paren(s, p + 1) == first_paren(s, pos as int),
                found ==> first_paren(s, p + 1) == pos - 1,
            decreases len - pos,
        {
            if pos >= len {
                return Err(Error::FunctionDeclIncomplete);
            }
            let tok = &t[pos];
            found = is_paren_token(tok);
            push_token(&mut decl, tok.clone());
            assert(views(decl@) =~= prefix_decl + s.subrange(p, pos + 1));
            pos = pos + 1;
        }
        // the return type, up to the body
        let mut result: Vec<Token> = Vec::new();
        let mut has_result = false;
        let mut expect_gt = false;
        let mut no_return = false;
        let mut ret: Option<Vec<Token>> = None;
        let mut body: Option<Token> = None;
        let mut done = false;
        let ghost start = pos as int;
        let ghost start_decl = views(decl@);
        proof {
            lemma_views_empty(result@);
        }
        while !done
            invariant
                pos <= len,
                !done ==> tail_from(s, start, start_decl, Seq::empty(), false, false) == tail_from(
                    s,
                    pos as int,
                    views(decl@),
                    views(result@),
                    has_result,
                    expect_gt,
                ),
                !done ==> ret is None && !no_return,
                done ==> tail_from(s, start, start_decl, Seq::empty(), false, false) == Ok::<
                    Tail,
                    Error,
                >(
                    Tail {
                        next: pos as int,
                        decl: views(decl@),
                        ret: match ret {
                            Some(tokens) => Some(views(tokens@)),
                            None => None,
                        },
                        no_return,
                        body: match body {
                            Some(b) => Some(b@),
                            None => None,
                        },
                    },
                ),
            decreases len - pos,
        {
            if pos >= len {
                return Err(Error::FunctionDeclIncomplete);
            }
            proof {
                lemma_views(result@);
            }
            let tok = &t[pos];
            if tok.is_punct('-') && !has_result && !expect_gt {
                push_token(&mut decl, tok.clone());
                expect_gt = true;
                pos = pos + 1;
            } else if tok.is_punct('>') && !has_result && expect_gt {
                push_token(&mut decl, tok.clone());
                expect_gt = false;
                has_result = true;
                pos = pos + 1;
            } else if tok.is_punct('!') && has_result {
                push_token(&mut decl, empty_args());
                no_return = true;
                if pos + 1 < len {
                    body = Some(t[pos + 1].clone());
                    pos = pos + 2;
                } else {
                    body = None;
                    pos = pos + 1;
                }
                done = true;
            } else if is_group_token(tok) && !has_result {
                body = Some(tok.clone());
                pos = pos + 1;
                done = true;
            } else if is_brace_token(tok) && result.len() > 0 {
                let taken = copy_tokens(&result);
                ret = Some(taken);
                body = Some(tok.clone());
                pos = pos + 1;
                done = true;
            } else if has_result {
                push_token(&mut decl, tok.clone());
                push_token(&mut result, tok.clone());
                pos = pos + 1;
            } else {
                return Err(Error::FunctionDeclBad);
            }
        }
        let body = match body {
            None => {
                return Err(Error::FunctionNoBody);
            },
            Some(b) => {
                let mut only: Vec<Token> = Vec::new();
                proof {
                    lemma_views_empty(only@);
                }
                push_token(&mut only, b);
                only
            },
        };
        if pos < len {
            return Err(Error::FunctionExtraTokens);
        }
        Ok(Function { attr, decl, body, name, is_async, no_return, ret })
    }
}

} // verus!
