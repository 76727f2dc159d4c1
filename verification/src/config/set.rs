//! A list of resources as the attribute spells it.

use vstd::prelude::*;
use crate::config::iterator::{element_at, lemma_first_comma, ListIterator};
use crate::errors::Error;
use crate::token::{copy_tokens, lemma_views, views, Delimiter, Stream, Token, TokenView};

verus! {

/// The views of a list of token sequences, member by member.
pub open spec fn streams(v: Seq<Vec<Token>>) -> Seq<Stream> {
    Seq::new(v.len(), |i: int| views(v[i]@))
}

/// The elements of the comma-separated list `s` from position `pos` on,
/// or nothing if one of them is missing.
pub open spec fn elements_from(s: Stream, pos: int) -> Option<Seq<Stream>>
    decreases s.len() - pos,
{
    match element_at(s, pos) {
        (None, _) => Some(Seq::empty()),
        (Some(Err(_)), _) => None,
        (Some(Ok(element)), next) => if pos < next <= s.len() {
            match elements_from(s, next) {
                None => None,
                Some(rest) => Some(seq![element] + rest),
            }
        } else {
            None
        },
    }
}

/// What the value `s` of `uses` or `consumes` lists: a single literal is
/// a list of one; a group in braces or brackets lists its elements;
/// anything else, or anything behind it, is an error.
pub open spec fn set_of(s: Stream) -> Result<Seq<Stream>, Error> {
    if s.len() == 0 {
        Err(Error::NoValue)
    } else if s[0].is_literal() {
        if s.len() > 1 {
            Err(Error::ExtraData)
        } else {
            Ok(seq![seq![s[0]]])
        }
    } else {
        match s[0] {
            TokenView::Group(delimiter, inner, _) => if delimiter == Delimiter::Brace || delimiter
                == Delimiter::Bracket {
                match elements_from(inner, 0) {
                    None => Err(Error::BadValue),
                    Some(list) => if s.len() > 1 {
                        Err(Error::ExtraData)
                    } else {
                        Ok(list)
                    },
                }
            } else {
                Err(Error::BadValue)
            },
            _ => Err(Error::BadValue),
        }
    }
}

/// A list of expressions, each a sequence of tokens.
#[derive(Debug, PartialEq, Eq)]
pub struct TokenSet(pub Vec<Vec<Token>>);

impl View for TokenSet {
    type V = Seq<Stream>;

    open spec fn view(&self) -> Seq<Stream> {
        streams(self.0@)
    }
}

impl Default for TokenSet {
    fn default() -> (r: Self)
        ensures
            r@ == Seq::<Stream>::empty(),
    {
        let r = TokenSet(Vec::new());
        assert(r@ =~= Seq::<Stream>::empty());
        r
    }
}

impl TokenSet {
    /// The elements of a group's content.
    pub fn from_group(inner: &Vec<Token>) -> (r: Result<Self, Error>)
        ensures
            match elements_from(views(inner@), 0) {
                None => r == Err::<Self, Error>(Error::BadValue),
                Some(list) => r matches Ok(set) && set@ == list,
            },
    {
        let ghost s = views(inner@);
        let mut res: Vec<Vec<Token>> = Vec::new();
        let mut it = ListIterator::new(copy_tokens(inner));
        assert(streams(res@) =~= Seq::<Stream>::empty());
        loop
            invariant
                it.wf(),
                s == views(inner@),
                it.stream() == s,
                0 <= it.position() <= s.len(),
                elements_from(s, 0) == match elements_from(s, it.position()) {
                    None => None::<Seq<Stream>>,
                    Some(rest) => Some(streams(res@) + rest),
                },
            decreases s.len() - it.position(),
        {
            let ghost pos = it.position();
            proof {
                lemma_first_comma(s, pos);
            }
            match it.next() {
                None => {
                    proof {
                        assert(streams(res@) + Seq::<Stream>::empty() =~= streams(res@));
                    }
                    return Ok(TokenSet(res));
                },
                Some(Err(_)) => {
                    return Err(Error::BadValue);
                },
                Some(Ok(element)) => {
                    let ghost before = res@;
                    let ghost ev = views(element@);
                    res.push(element);
                    proof {
                        assert(streams(res@) =~= streams(before) + seq![ev]);
                        match elements_from(s, it.position()) {
                            None => {},
                            Some(rest) => {
                                assert(streams(before) + (seq![ev] + rest) =~= streams(res@)
                                    + rest);
                            },
                        }
                    }
                },
            }
        }
    }

    /// The resources that the value `tokens` lists.
    pub fn from_stream(tokens: &Vec<Token>) -> (r: Result<Self, Error>)
        ensures
            match set_of(views(tokens@)) {
                Ok(list) => r matches Ok(set) && set@ == list,
                Err(e) => r == Err::<Self, Error>(e),
            },
    {
        proof {
            lemma_views(tokens@);
        }
        if tokens.len() == 0 {
            return Err(Error::NoValue);
        }
        let res = match &tokens[0] {
            Token::Literal(_, _) => {
                let mut one: Vec<Vec<Token>> = Vec::new();
                let mut single: Vec<Token> = Vec::new();
                single.push(tokens[0].clone());
                proof {
                    lemma_views(single@);
                    assert(views(single@) =~= seq![tokens@[0]@]);
                }
                one.push(single);
                assert(streams(one@) =~= seq![seq![tokens@[0]@]]);
                TokenSet(one)
            },
            Token::Text(_, _) => {
                let mut one: Vec<Vec<Token>> = Vec::new();
                let mut single: Vec<Token> = Vec::new();
                single.push(tokens[0].clone());
                proof {
                    lemma_views(single@);
                    assert(views(single@) =~= seq![tokens@[0]@]);
                }
                one.push(single);
                assert(streams(one@) =~= seq![seq![tokens@[0]@]]);
                TokenSet(one)
            },
            Token::Group(delimiter, inner, _) => {
                match delimiter {
                    Delimiter::Brace | Delimiter::Bracket => match TokenSet::from_group(inner) {
                        Ok(set) => set,
                        Err(e) => {
                            return Err(e);
                        },
                    },
                    _ => {
                        return Err(Error::BadValue);
                    },
                }
            },
            _ => {
                return Err(Error::BadValue);
            },
        };
        if tokens.len() > 1 {
            return Err(Error::ExtraData);
        }
        Ok(res)
    }

    /// Appends one expression.
    pub fn push(&mut self, tokens: Vec<Token>)
        ensures
            final(self)@ == old(self)@.push(views(tokens@)),
    {
        self.0.push(tokens);
        assert(final(self)@ =~= old(self)@.push(views(tokens@)));
    }

    /// The expressions of the list.
    pub fn items(&self) -> (r: &Vec<Vec<Token>>)
        ensures
            streams(r@) == self@,
    {
        &self.0
    }

    /// Tells whether the list has no expressions.
    pub fn is_empty(&self) -> (r: bool)
        ensures
            r == (self@.len() == 0),
    {
        self.0.len() == 0
    }
}

} // verus!
