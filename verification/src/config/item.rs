//! One `key` or `key = value` of the attribute.

use vstd::prelude::*;
use crate::config::set::{set_of, TokenSet};
use crate::errors::Error;
use crate::token::{copy_tokens, views, Span, Stream, Token};
use crate::utils::{err, err_view};

verus! {

/// A key with the tokens of its value, if it has one.
#[derive(Debug, PartialEq, Eq)]
pub struct ConfigItem {
    pub key: String,
    pub span: Span,
    pub val: Option<Vec<Token>>,
}

/// A configuration item as plain values.
pub struct ItemView {
    pub key: Seq<char>,
    pub span: Span,
    pub val: Option<Stream>,
}

impl View for ConfigItem {
    type V = ItemView;

    open spec fn view(&self) -> ItemView {
        ItemView {
            key: self.key@,
            span: self.span,
            val: match self.val {
                Some(tokens) => Some(views(tokens@)),
                None => None,
            },
        }
    }
}

impl ItemView {
    /// The value as tokens; an item without value has none to give.
    pub open spec fn stream(self) -> Result<Stream, Error> {
        match self.val {
            Some(tokens) => Ok(tokens),
            None => Err(Error::NoValue),
        }
    }

    /// The value as a list of resources.
    pub open spec fn set(self) -> Result<Seq<Stream>, Error> {
        match self.val {
            Some(tokens) => set_of(tokens),
            None => Err(Error::NoValue),
        }
    }

    /// The message that rejects the value: `bad '{key}' value: {error}`.
    pub open spec fn bad_value(self, e: Error) -> Seq<char> {
        "bad '"@ + self.key + "' value: "@ + e.name_view()
    }
}

impl ConfigItem {
    /// The value as tokens.
    pub fn try_into_stream(&self) -> (r: Result<Vec<Token>, Error>)
        ensures
            match self@.stream() {
                Ok(tokens) => r matches Ok(got) && views(got@) == tokens,
                Err(e) => r == Err::<Vec<Token>, Error>(e),
            },
    {
        match &self.val {
            Some(tokens) => Ok(copy_tokens(tokens)),
            None => Err(Error::NoValue),
        }
    }

    /// The value as a list of resources.
    pub fn try_into_set(&self) -> (r: Result<TokenSet, Error>)
        ensures
            match self@.set() {
                Ok(list) => r matches Ok(got) && got@ == list,
                Err(e) => r == Err::<TokenSet, Error>(e),
            },
    {
        match &self.val {
            Some(tokens) => TokenSet::from_stream(tokens),
            None => Err(Error::NoValue),
        }
    }

    /// The tokens that reject the value of this item for the reason `e`.
    pub fn reject(&self, e: Error) -> (r: Vec<Token>)
        ensures
            views(r@) == err_view(Span::Call, self@.bad_value(e)),
    {
        let mut msg = String::from_str("bad '");
        msg.append(self.key.as_str());
        msg.append("' value: ");
        msg.append(e.name());
        err(Span::Call, msg.as_str())
    }

    /// The value as tokens, or the tokens that reject it.
    pub fn convert_stream(&self) -> (r: Result<Option<Vec<Token>>, Vec<Token>>)
        ensures
            match self@.stream() {
                Ok(tokens) => r matches Ok(Some(got)) && views(got@) == tokens,
                Err(e) => r matches Err(got) && views(got@) == err_view(
                    Span::Call,
                    self@.bad_value(e),
                ),
            },
    {
        match self.try_into_stream() {
            Ok(tokens) => Ok(Some(tokens)),
            Err(e) => Err(self.reject(e)),
        }
    }

    /// The value as a list of resources, or the tokens that reject it.
    pub fn convert_set(&self) -> (r: Result<Option<TokenSet>, Vec<Token>>)
        ensures
            match self@.set() {
                Ok(list) => r matches Ok(Some(got)) && got@ == list,
                Err(e) => r matches Err(got) && views(got@) == err_view(
                    Span::Call,
                    self@.bad_value(e),
                ),
            },
    {
        match self.try_into_set() {
            Ok(set) => Ok(Some(set)),
            Err(e) => Err(self.reject(e)),
        }
    }

    /// The key as text.
    pub fn get_key(&self) -> (r: String)
        ensures
            r@ == self@.key,
    {
        self.key.clone()
    }
}

} // verus!
