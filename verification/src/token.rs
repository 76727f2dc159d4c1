//! Tokens of a test's declaration and of its attribute.

use vstd::prelude::*;

verus! {

/// The brackets around a group.
#[derive(Clone, Copy, Debug, PartialEq, Eq, Structural)]
pub enum Delimiter {
    Parenthesis,
    Brace,
    Bracket,
    Invisible,
}

/// Whether a punctuation character is followed at once by another.
#[derive(Clone, Copy, Debug, PartialEq, Eq, Structural)]
pub enum Spacing {
    Alone,
    Joint,
}

/// Where a token counts as written.
#[derive(Clone, Copy, Debug, PartialEq, Eq, Structural)]
pub enum Span {
    /// At the place where the attribute is used.
    Call,
    /// At the attribute's definition for local names, at its use for the
    /// rest.
    Mixed,
    /// In the source, at the place with this number.
    Source(u32),
}

/// One token tree.
#[derive(Debug, PartialEq, Eq)]
pub enum Token {
    Ident(String, Span),
    Punct(char, Spacing, Span),
    /// A literal, as it is written.
    Literal(String, Span),
    /// The string literal that stands for this text.
    Text(String, Span),
    Group(Delimiter, Vec<Token>, Span),
}

/// A token tree as plain values.
pub enum TokenView {
    Ident(Seq<char>, Span),
    Punct(char, Spacing, Span),
    Literal(Seq<char>, Span),
    Text(Seq<char>, Span),
    Group(Delimiter, Seq<TokenView>, Span),
}

/// The views of the tokens of `s` from position `from` on.
pub open spec fn views_from(s: Seq<Token>, from: int) -> Seq<TokenView>
    decreases s, s.len() - from,
{
    if 0 <= from < s.len() {
        seq![s[from].view()] + views_from(s, from + 1)
    } else {
        Seq::empty()
    }
}

/// The views of the tokens of `s`.
pub open spec fn views(s: Seq<Token>) -> Seq<TokenView> {
    views_from(s, 0)
}

impl View for Token {
    type V = TokenView;

    open spec fn view(&self) -> TokenView
        decreases self,
    {
        match self {
            Token::Ident(name, span) => TokenView::Ident(name@, *span),
            Token::Punct(c, spacing, span) => TokenView::Punct(*c, *spacing, *span),
            Token::Literal(text, span) => TokenView::Literal(text@, *span),
            Token::Text(text, span) => TokenView::Text(text@, *span),
            Token::Group(delimiter, inner, span) => TokenView::Group(
                *delimiter,
                views_from(inner@, 0),
                *span,
            ),
        }
    }
}

/// The views of a sequence, member by member.
pub proof fn lemma_views(s: Seq<Token>)
    ensures
        views(s).len() == s.len(),
        forall|i: int| 0 <= i < s.len() ==> (#[trigger] views(s)[i]) == s[i]@,
{
    lemma_views_from(s, 0);
}

proof fn lemma_views_from(s: Seq<Token>, from: int)
    requires
        0 <= from <= s.len(),
    ensures
        views_from(s, from).len() == s.len() - from,
        forall|i: int|
            0 <= i < s.len() - from ==> (#[trigger] views_from(s, from)[i]) == s[from + i]@,
    decreases s.len() - from,
{
    if from < s.len() {
        lemma_views_from(s, from + 1);
        let rest = views_from(s, from + 1);
        assert(views_from(s, from) == seq![s[from]@] + rest);
        assert forall|i: int| 0 <= i < s.len() - from implies (#[trigger] views_from(s, from)[i])
            == s[from + i]@ by {
            if i > 0 {
                assert(views_from(s, from)[i] == rest[i - 1]);
            }
        }
    }
}

impl Clone for Token {
    fn clone(&self) -> (r: Self)
        ensures
            r@ == self@,
        decreases self,
    {
        match self {
            Token::Ident(name, span) => Token::Ident(name.clone(), *span),
            Token::Punct(c, spacing, span) => Token::Punct(*c, *spacing, *span),
            Token::Literal(text, span) => Token::Literal(text.clone(), *span),
            Token::Text(text, span) => Token::Text(text.clone(), *span),
            Token::Group(delimiter, inner, span) => {
                let mut copy: Vec<Token> = Vec::new();
                let mut i: usize = 0;
                while i < inner.len()
                    invariant
                        i <= inner.len(),
                        copy@.len() == i,
                        forall|j: int| 0 <= j < i ==> (#[trigger] copy@[j])@ == inner@[j]@,
                        decreases_to!(self => inner),
                    decreases inner.len() - i,
                {
                    copy.push(inner[i].clone());
                    i += 1;
                }
                proof {
                    lemma_views(copy@);
                    lemma_views(inner@);
                    assert(views(copy@) =~= views(inner@));
                }
                Token::Group(*delimiter, copy, *span)
            },
        }
    }
}

/// A sequence of token trees as plain values.
pub type Stream = Seq<TokenView>;

impl TokenView {
    /// Where the token counts as written.
    pub open spec fn span(self) -> Span {
        match self {
            TokenView::Ident(_, span) => span,
            TokenView::Punct(_, _, span) => span,
            TokenView::Literal(_, span) => span,
            TokenView::Text(_, span) => span,
            TokenView::Group(_, _, span) => span,
        }
    }

    /// The token is a literal of either form.
    pub open spec fn is_literal(self) -> bool {
        self is Literal || self is Text
    }

    /// The token is the punctuation character `c`.
    pub open spec fn is_punct(self, c: char) -> bool {
        self matches TokenView::Punct(d, _, _) && d == c
    }

    /// The token is the identifier `name`.
    pub open spec fn is_ident(self, name: Seq<char>) -> bool {
        self matches TokenView::Ident(n, _) && n == name
    }

    /// The token is a comma.
    pub open spec fn is_comma(self) -> bool {
        self.is_punct(',')
    }
}

/// An identifier made by the attribute.
pub open spec fn ident_view(name: Seq<char>) -> TokenView {
    TokenView::Ident(name, Span::Mixed)
}

/// A punctuation character made by the attribute.
pub open spec fn punct_view(c: char, spacing: Spacing) -> TokenView {
    TokenView::Punct(c, spacing, Span::Call)
}

/// A group made by the attribute.
pub open spec fn group_view(delimiter: Delimiter, inner: Stream) -> TokenView {
    TokenView::Group(delimiter, inner, Span::Call)
}

/// The path separator `::`.
pub open spec fn path_sep() -> Stream {
    seq![punct_view(':', Spacing::Joint), punct_view(':', Spacing::Alone)]
}

/// Appending a token appends its view.
pub proof fn lemma_views_push(s: Seq<Token>, t: Token)
    ensures
        views(s.push(t)) == views(s).push(t@),
{
    lemma_views(s);
    lemma_views(s.push(t));
    assert(views(s.push(t)) =~= views(s).push(t@));
}

/// Nothing has no views.
pub proof fn lemma_views_empty(s: Seq<Token>)
    requires
        s.len() == 0,
    ensures
        views(s) == Seq::<TokenView>::empty(),
{
    lemma_views(s);
    assert(views(s) =~= Seq::<TokenView>::empty());
}

impl Token {
    /// Where the token counts as written.
    pub fn span(&self) -> (r: Span)
        ensures
            r == self@.span(),
    {
        match self {
            Token::Ident(_, span) => *span,
            Token::Punct(_, _, span) => *span,
            Token::Literal(_, span) => *span,
            Token::Text(_, span) => *span,
            Token::Group(_, _, span) => *span,
        }
    }

    /// Tells whether the token is a literal of either form.
    pub fn is_literal(&self) -> (r: bool)
        ensures
            r == self@.is_literal(),
    {
        match self {
            Token::Literal(_, _) => true,
            Token::Text(_, _) => true,
            _ => false,
        }
    }

    /// Tells whether the token is the punctuation character `c`.
    pub fn is_punct(&self, c: char) -> (r: bool)
        ensures
            r == self@.is_punct(c),
    {
        match self {
            Token::Punct(d, _, _) => *d == c,
            _ => false,
        }
    }

    /// Tells whether the token is the identifier `name`.
    pub fn is_ident(&self, name: &str) -> (r: bool)
        ensures
            r == self@.is_ident(name@),
    {
        match self {
            Token::Ident(n, _) => text_is(n, name),
            _ => false,
        }
    }

    /// An identifier made by the attribute.
    pub fn ident(name: &str) -> (r: Token)
        ensures
            r@ == ident_view(name@),
    {
        Token::Ident(String::from_str(name), Span::Mixed)
    }

    /// A punctuation character made by the attribute.
    pub fn punct(c: char, spacing: Spacing) -> (r: Token)
        ensures
            r@ == punct_view(c, spacing),
    {
        Token::Punct(c, spacing, Span::Call)
    }

    /// A group made by the attribute.
    pub fn group(delimiter: Delimiter, inner: Vec<Token>) -> (r: Token)
        ensures
            r@ == group_view(delimiter, views(inner@)),
    {
        Token::Group(delimiter, inner, Span::Call)
    }
}

/// Compares a string with a literal by their characters.
pub fn text_is(text: &String, literal: &str) -> (r: bool)
    ensures
        r == (text@ == literal@),
{
    let other = String::from_str(literal);
    *text == other
}

/// Appends `t` to `v`.
pub fn push_token(v: &mut Vec<Token>, t: Token)
    ensures
        final(v)@ == old(v)@.push(t),
        views(final(v)@) == views(old(v)@).push(t@),
{
    proof {
        lemma_views_push(v@, t);
    }
    v.push(t);
}

/// Appends the path separator `::` to `v`.
pub fn push_path_sep(v: &mut Vec<Token>)
    ensures
        views(final(v)@) == views(old(v)@) + path_sep(),
{
    push_token(v, Token::punct(':', Spacing::Joint));
    push_token(v, Token::punct(':', Spacing::Alone));
    assert(views(v@) =~= views(old(v)@) + path_sep());
}

/// Appends copies of the tokens of `src` to `dst`.
pub fn extend_tokens(dst: &mut Vec<Token>, src: &Vec<Token>)
    ensures
        views(final(dst)@) == views(old(dst)@) + views(src@),
{
    let mut i: usize = 0;
    proof {
        lemma_views_empty(src@.subrange(0, 0));
        assert(views(dst@) =~= views(old(dst)@) + views(src@.subrange(0, 0)));
    }
    while i < src.len()
        invariant
            i <= src.len(),
            views(dst@) == views(old(dst)@) + views(src@.subrange(0, i as int)),
        decreases src.len() - i,
    {
        proof {
            assert(src@.subrange(0, i + 1) =~= src@.subrange(0, i as int).push(src@[i as int]));
            lemma_views_push(src@.subrange(0, i as int), src@[i as int]);
        }
        push_token(dst, src[i].clone());
        assert(views(dst@) =~= views(old(dst)@) + views(src@.subrange(0, i + 1)));
        i += 1;
    }
    assert(src@.subrange(0, i as int) =~= src@);
}

/// Copies of the tokens of `src` from `from` up to `to`.
pub fn copy_range(src: &Vec<Token>, from: usize, to: usize) -> (r: Vec<Token>)
    requires
        from <= to <= src@.len(),
    ensures
        views(r@) == views(src@).subrange(from as int, to as int),
{
    let mut r: Vec<Token> = Vec::new();
    let mut i: usize = from;
    proof {
        lemma_views_empty(r@);
        lemma_views(src@);
        assert(views(r@) =~= views(src@).subrange(from as int, from as int));
    }
    while i < to
        invariant
            from <= i <= to <= src@.len(),
            views(r@) == views(src@).subrange(from as int, i as int),
        decreases to - i,
    {
        proof {
            lemma_views(src@);
        }
        push_token(&mut r, src[i].clone());
        assert(views(r@) =~= views(src@).subrange(from as int, i + 1));
        i += 1;
    }
    r
}

/// Copies of the tokens of `src`.
pub fn copy_tokens(src: &Vec<Token>) -> (r: Vec<Token>)
    ensures
        views(r@) == views(src@),
{
    proof {
        lemma_views(src@);
        assert(views(src@).subrange(0, src@.len() as int) =~= views(src@));
    }
    copy_range(src, 0, src.len())
}

} // verus!
