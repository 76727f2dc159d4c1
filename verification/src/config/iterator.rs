//! Splits the attribute into items, and a list into its elements.

use vstd::prelude::*;
use crate::config::item::{ConfigItem, ItemView};
use crate::token::{copy_range, lemma_views, views, Stream, Token, TokenView};
use crate::utils::{err, err_view};

verus! {

/// Position of the first comma of `s` at or after `from`, or the length
/// of `s` if there is none.
pub open spec fn first_comma(s: Stream, from: int) -> int
    decreases s.len() - from,
{
    if from < 0 || from >= s.len() {
        s.len() as int
    } else if s[from].is_comma() {
        from
    } else {
        first_comma(s, from + 1)
    }
}

/// The position after the element that ends before position `comma`:
/// behind the comma, if there is one.
pub open spec fn after_comma(s: Stream, comma: int) -> int {
    if comma < s.len() {
        comma + 1
    } else {
        s.len() as int
    }
}

/// The first comma lies between `from` and the end, and nothing before
/// it is a comma.
pub proof fn lemma_first_comma(s: Stream, from: int)
    requires
        0 <= from <= s.len(),
    ensures
        from <= first_comma(s, from) <= s.len(),
        first_comma(s, from) < s.len() ==> s[first_comma(s, from)].is_comma(),
        forall|i: int| from <= i < first_comma(s, from) ==> !(#[trigger] s[i]).is_comma(),
    decreases s.len() - from,
{
    if from < s.len() && !s[from].is_comma() {
        lemma_first_comma(s, from + 1);
    }
}

/// What the item that starts at `pos` is, and where the next one starts.
/// An item is a key, that is an identifier, followed by the end, by a
/// comma, or by `=` and a value that runs up to the next comma.
pub open spec fn item_at(s: Stream, pos: int) -> (Option<Result<ItemView, Stream>>, int) {
    if pos < 0 || pos >= s.len() {
        (None, pos)
    } else {
        match s[pos] {
            TokenView::Ident(key, span) => {
                if pos + 1 >= s.len() {
                    (Some(Ok(ItemView { key, span, val: None })), pos + 1)
                } else if s[pos + 1].is_punct(',') {
                    (Some(Ok(ItemView { key, span, val: None })), pos + 2)
                } else if s[pos + 1].is_punct('=') {
                    let end = first_comma(s, pos + 2);
                    (
                        Some(Ok(ItemView { key, span, val: Some(s.subrange(pos + 2, end)) })),
                        after_comma(s, end),
                    )
                } else {
                    (Some(Err(err_view(s[pos + 1].span(), "unexpected delimeter"@))), pos + 2)
                }
            },
            other => (Some(Err(err_view(other.span(), "unexpected key"@))), pos + 1),
        }
    }
}

/// What the list element that starts at `pos` is, and where the next one
/// starts. An element is a run of tokens, at least one, up to the next
/// comma; a comma where an element should start is an error.
pub open spec fn element_at(s: Stream, pos: int) -> (Option<Result<Stream, Stream>>, int) {
    if pos < 0 || pos >= s.len() {
        (None, pos)
    } else if s[pos].is_comma() {
        (Some(Err(err_view(s[pos].span(), "unexpected delimeter"@))), pos + 1)
    } else {
        let end = first_comma(s, pos);
        (Some(Ok(s.subrange(pos, end))), after_comma(s, end))
    }
}

fn find_comma(tokens: &Vec<Token>, from: usize) -> (r: usize)
    requires
        from <= tokens@.len(),
    ensures
        r == first_comma(views(tokens@), from as int),
        from <= r <= tokens@.len(),
{
    let mut i: usize = from;
    proof {
        lemma_views(tokens@);
    }
    while i < tokens.len() && !tokens[i].is_punct(',')
        invariant
            from <= i <= tokens@.len(),
            views(tokens@).len() == tokens@.len(),
            forall|k: int| 0 <= k < tokens@.len() ==> (#[trigger] views(tokens@)[k]) == tokens@[k]@,
            first_comma(views(tokens@), from as int) == first_comma(views(tokens@), i as int),
        decreases tokens.len() - i,
    {
        i += 1;
    }
    i
}

/// Walks over the items of an attribute.
pub struct ConfigIterator {
    tokens: Vec<Token>,
    pos: usize,
}

impl ConfigIterator {
    /// The tokens that are walked over.
    pub closed spec fn stream(&self) -> Stream {
        views(self.tokens@)
    }

    /// Where the next item starts.
    pub closed spec fn position(&self) -> int {
        self.pos as int
    }

    /// The position lies within the tokens. Every iterator that this
    /// module hands out is well formed.
    pub closed spec fn wf(&self) -> bool {
        self.pos <= self.tokens@.len()
    }

    /// An iterator at the start of `t`.
    pub fn new(t: Vec<Token>) -> (r: Self)
        ensures
            r.wf(),
            r.stream() == views(t@),
            r.position() == 0,
    {
        ConfigIterator { tokens: t, pos: 0 }
    }

    /// The next item, or the tokens that report what is wrong with it;
    /// nothing at the end.
    pub fn next(&mut self) -> (r: Option<Result<ConfigItem, Vec<Token>>>)
        requires
            old(self).wf(),
        ensures
            final(self).wf(),
            final(self).stream() == old(self).stream(),
            final(self).position() == item_at(old(self).stream(), old(self).position()).1,
            match item_at(old(self).stream(), old(self).position()).0 {
                None => r is None,
                Some(Ok(item)) => r matches Some(Ok(got)) && got@ == item,
                Some(Err(e)) => r matches Some(Err(got)) && views(got@) == e,
            },
            r is Some ==> final(self).position() > old(self).position(),
    {
        proof {
            lemma_views(self.tokens@);
        }
        let len = self.tokens.len();
        if self.pos >= len {
            return None;
        }
        let start = self.pos;
        let (key, span) = match &self.tokens[start] {
            Token::Ident(name, span) => (name.clone(), *span),
            other => {
                let e = err(other.span(), "unexpected key");
                self.pos = start + 1;
                return Some(Err(e));
            },
        };
        if start + 1 >= len {
            self.pos = start + 1;
            return Some(Ok(ConfigItem { key, span, val: None }));
        }
        if self.tokens[start + 1].is_punct(',') {
            self.pos = start + 2;
            return Some(Ok(ConfigItem { key, span, val: None }));
        }
        if self.tokens[start + 1].is_punct('=') {
            let end = find_comma(&self.tokens, start + 2);
            let val = copy_range(&self.tokens, start + 2, end);
            self.pos = if end < len {
                end + 1
            } else {
                len
            };
            return Some(Ok(ConfigItem { key, span, val: Some(val) }));
        }
        let e = err(self.tokens[start + 1].span(), "unexpected delimeter");
        self.pos = start + 2;
        Some(Err(e))
    }
}

/// Walks over the elements of a comma-separated list.
pub struct ListIterator {
    tokens: Vec<Token>,
    pos: usize,
}

impl ListIterator {
    /// The tokens that are walked over.
    pub closed spec fn stream(&self) -> Stream {
        views(self.tokens@)
    }

    /// Where the next element starts.
    pub closed spec fn position(&self) -> int {
        self.pos as int
    }

    /// The position lies within the tokens. Every iterator that this
    /// module hands out is well formed.
    pub closed spec fn wf(&self) -> bool {
        self.pos <= self.tokens@.len()
    }

    /// An iterator at the start of `t`.
    pub fn new(t: Vec<Token>) -> (r: Self)
        ensures
            r.wf(),
            r.stream() == views(t@),
            r.position() == 0,
    {
        ListIterator { tokens: t, pos: 0 }
    }

    /// The next element, or the tokens that report what is wrong with
    /// it; nothing at the end.
    pub fn next(&mut self) -> (r: Option<Result<Vec<Token>, Vec<Token>>>)
        requires
            old(self).wf(),
        ensures
            final(self).wf(),
            final(self).stream() == old(self).stream(),
            final(self).position() == element_at(old(self).stream(), old(self).position()).1,
            match element_at(old(self).stream(), old(self).position()).0 {
                None => r is None,
                Some(Ok(element)) => r matches Some(Ok(got)) && views(got@) == element,
                Some(Err(e)) => r matches Some(Err(got)) && views(got@) == e,
            },
            r is Some ==> final(self).position() > old(self).position(),
    {
        proof {
            lemma_views(self.tokens@);
        }
        let len = self.tokens.len();
        if self.pos >= len {
            return None;
        }
        let start = self.pos;
        if self.tokens[start].is_punct(',') {
            let e = err(self.tokens[start].span(), "unexpected delimeter");
            self.pos = start + 1;
            return Some(Err(e));
        }
        let end = find_comma(&self.tokens, start);
        proof {
            lemma_first_comma(views(self.tokens@), start as int);
        }
        let element = copy_range(&self.tokens, start, end);
        self.pos = if end < len {
            end + 1
        } else {
            len
        };
        Some(Ok(element))
    }
}

} // verus!
