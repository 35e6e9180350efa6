use vstd::prelude::*;

use crate::error::Error;
use crate::error::ErrorKind;
use crate::error::ErrorKindView;
use crate::error::ErrorView;
use crate::error::Expected;
use crate::literal::string_of;
use crate::token::Delimiter;
use crate::token::Ident;
use crate::token::Span;
use crate::token::Token;

verus! {

/// A cursor over a run of tokens.
///
/// The cursor looks through groups without brackets: it reads what such a
/// group holds as if it stood in the group's place. See [`flat`].
///
/// `scope` is the place that stands for the end of the run: the closing
/// bracket of the group the tokens came from, or the annotation as a whole.
/// A diagnostic about tokens that end too early points there.
pub struct ParseStream<'a> {
    tokens: Vec<&'a Token>,
    pos: usize,
    scope: Span,
}

/// The tokens that a cursor over `tokens` reads, in order: each token as it
/// stands, but for a group without brackets, in whose place stand the
/// tokens that a cursor over what it holds reads.
pub open spec fn flat(tokens: Seq<Token>) -> Seq<Token>
    decreases tokens,
{
    if tokens.len() == 0 {
        Seq::empty()
    } else {
        match tokens.last() {
            Token::Group { delimiter: Delimiter::Invisible, tokens: inner, .. } => flat(
                tokens.drop_last(),
            ) + flat(inner@),
            token => flat(tokens.drop_last()).push(token),
        }
    }
}

/// Among tokens of which none is a group without brackets, a cursor reads
/// each as it stands.
pub proof fn lemma_flat_plain(tokens: Seq<Token>)
    requires
        forall|i: int|
            0 <= i < tokens.len() ==> !((#[trigger] tokens[i]) matches Token::Group {
                delimiter: Delimiter::Invisible,
                ..
            }),
    ensures
        flat(tokens) == tokens,
    decreases tokens.len(),
{
    if tokens.len() > 0 {
        let head = tokens.drop_last();
        assert forall|i: int| 0 <= i < head.len() implies !((#[trigger] head[i]) matches Token::Group {
            delimiter: Delimiter::Invisible,
            ..
        }) by {
            assert(head[i] == tokens[i]);
        }
        lemma_flat_plain(head);
        assert(!(tokens[tokens.len() - 1] matches Token::Group {
            delimiter: Delimiter::Invisible,
            ..
        }));
        assert(head.push(tokens.last()) =~= tokens);
    } else {
        assert(flat(tokens) =~= tokens);
    }
}

/// The tokens that `refs` point at.
pub open spec fn pointed_at(refs: Seq<&Token>) -> Seq<Token> {
    refs.map_values(|token: &Token| *token)
}

/// Appends to `refs` the tokens that a cursor over `tokens` reads.
fn flatten<'a>(tokens: &'a Vec<Token>, refs: &mut Vec<&'a Token>)
    ensures
        pointed_at(final(refs)@) == pointed_at(old(refs)@) + flat(tokens@),
    decreases tokens,
{
    let mut i: usize = 0;
    proof {
        assert(tokens@.take(0) =~= Seq::<Token>::empty());
        assert(pointed_at(refs@) =~= pointed_at(old(refs)@) + flat(tokens@.take(0)));
    }
    while i < tokens.len()
        invariant
            0 <= i <= tokens@.len(),
            pointed_at(refs@) == pointed_at(old(refs)@) + flat(tokens@.take(i as int)),
        decreases tokens@.len() - i,
    {
        let ghost before = pointed_at(refs@);
        let ghost head = tokens@.take(i as int);
        proof {
            assert(tokens@.take(i + 1).drop_last() =~= head);
            assert(tokens@.take(i + 1).last() == tokens@[i as int]);
        }
        let token: &'a Token = &tokens[i];
        match token {
            Token::Group { delimiter: Delimiter::Invisible, tokens: inner, .. } => {
                proof {
                    broadcast use vstd::std_specs::vec::axiom_vec_index_decreases;

                    assert(decreases_to!(tokens => tokens[i as int]));
                }
                flatten(inner, refs);
                proof {
                    assert(pointed_at(refs@) =~= pointed_at(old(refs)@) + (flat(head) + flat(
                        inner@,
                    )));
                }
            },
            _ => {
                refs.push(token);
                proof {
                    assert(pointed_at(refs@) =~= before.push(*token));
                    assert(pointed_at(refs@) =~= pointed_at(old(refs)@) + flat(head).push(*token));
                }
            },
        }
        i = i + 1;
    }
    proof {
        assert(tokens@.take(i as int) =~= tokens@);
    }
}

/// The diagnostic for a place `pos` in `tokens` where `what` should stand
/// and does not: at the token that stands there, or, past the last token, at `scope`.
pub open spec fn expected_at(tokens: Seq<Token>, pos: int, scope: Span, what: Expected) -> ErrorView {
    if 0 <= pos < tokens.len() {
        ErrorView { span: tokens[pos].spec_span(), kind: ErrorKindView::Expected(what) }
    } else {
        ErrorView { span: scope, kind: ErrorKindView::UnexpectedEnd(what) }
    }
}

/// The place of the token at `pos` in `tokens`, or, past the last token, `scope`.
pub open spec fn span_at(tokens: Seq<Token>, pos: int, scope: Span) -> Span {
    if 0 <= pos < tokens.len() {
        tokens[pos].spec_span()
    } else {
        scope
    }
}

/// Whether the token at `pos` in `tokens` is a group in round brackets.
pub open spec fn is_parenthesized(tokens: Seq<Token>, pos: int) -> bool {
    &&& 0 <= pos < tokens.len()
    &&& tokens[pos] matches Token::Group { delimiter, .. }
    &&& delimiter == Delimiter::Parenthesis
}

impl<'a> ParseStream<'a> {
    /// All the tokens of the run, those behind the cursor too.
    pub closed spec fn tokens(&self) -> Seq<Token> {
        pointed_at(self.tokens@)
    }

    /// How many tokens are behind the cursor.
    pub closed spec fn pos(&self) -> int {
        if self.pos <= self.tokens@.len() {
            self.pos as int
        } else {
            self.tokens@.len() as int
        }
    }

    /// The place that stands for the end of the run.
    pub closed spec fn scope(&self) -> Span {
        self.scope
    }

    /// Whether `self` is `before` after `n` more tokens were read.
    pub open spec fn advanced(&self, before: &Self, n: int) -> bool {
        &&& self.tokens() == before.tokens()
        &&& self.scope() == before.scope()
        &&& self.pos() == before.pos() + n
    }

    /// A cursor before the first of the tokens that it reads in `tokens`.
    pub fn new(tokens: &'a Vec<Token>, scope: Span) -> (r: Self)
        ensures
            r.tokens() == flat(tokens@),
            r.pos() == 0,
            r.scope() == scope,
    {
        let mut refs: Vec<&'a Token> = Vec::new();
        flatten(tokens, &mut refs);
        proof {
            assert(pointed_at(refs@) =~= flat(tokens@));
        }
        ParseStream { tokens: refs, pos: 0, scope }
    }

    /// The next token, if one is left.
    fn current(&self) -> (r: Option<&'a Token>)
        ensures
            match r {
                Some(token) => self.pos() < self.tokens().len() && *token == self.tokens()[self.pos()],
                None => self.pos() == self.tokens().len(),
            },
            r is Some ==> self.pos < self.tokens@.len() <= usize::MAX,
    {
        if self.pos < self.tokens.len() {
            Some(self.tokens[self.pos])
        } else {
            None
        }
    }

    /// The cursor never stands outside its tokens.
    pub proof fn lemma_pos_in_range(&self)
        ensures
            0 <= self.pos() <= self.tokens().len(),
    {
    }

    /// Whether no token is left.
    pub fn is_empty(&self) -> (r: bool)
        ensures
            r == (self.pos() == self.tokens().len()),
    {
        self.pos >= self.tokens.len()
    }

    /// The place of the next token, or of the end of the run.
    pub fn span(&self) -> (r: Span)
        ensures
            r == span_at(self.tokens(), self.pos(), self.scope()),
    {
        match self.current() {
            Some(token) => token.span(),
            None => self.scope,
        }
    }

    /// The diagnostic that `what` should stand at the cursor.
    pub fn error(&self, what: Expected) -> (r: Error)
        ensures
            r@ == expected_at(self.tokens(), self.pos(), self.scope(), what),
    {
        match self.current() {
            Some(token) => Error::new(token.span(), ErrorKind::Expected(what)),
            None => Error::new(self.scope, ErrorKind::UnexpectedEnd(what)),
        }
    }

    /// Whether the next token is a group in round brackets.
    pub fn peek_parenthesized(&self) -> (r: bool)
        ensures
            r == is_parenthesized(self.tokens(), self.pos()),
    {
        match self.current() {
            Some(Token::Group { delimiter: Delimiter::Parenthesis, .. }) => true,
            _ => false,
        }
    }

    /// Reads a group in round brackets and hands out a cursor over what it
    /// holds, whose end is the closing bracket. Reads nothing where the next
    /// token is no such group.
    pub fn parenthesized(&mut self) -> (r: Option<ParseStream<'a>>)
        ensures
            match r {
                Some(content) => {
                    &&& is_parenthesized(old(self).tokens(), old(self).pos())
                    &&& old(self).tokens()[old(self).pos()] matches Token::Group { tokens, close, .. }
                    &&& content.tokens() == flat(tokens@)
                    &&& content.pos() == 0
                    &&& content.scope() == close
                    &&& final(self).advanced(old(self), 1)
                },
                None => {
                    &&& !is_parenthesized(old(self).tokens(), old(self).pos())
                    &&& final(self).advanced(old(self), 0)
                },
            },
    {
        match self.current() {
            Some(Token::Group { delimiter: Delimiter::Parenthesis, tokens: inner, close, .. }) => {
                self.pos = self.pos + 1;
                Some(ParseStream::new(inner, *close))
            },
            _ => None,
        }
    }

    /// Reads a word. Reads nothing where the next token is no word.
    pub fn parse_ident(&mut self) -> (r: Result<Ident, Error>)
        ensures
            match r {
                Ok(ident) => {
                    &&& old(self).pos() < old(self).tokens().len()
                    &&& old(self).tokens()[old(self).pos()] == Token::Ident(ident)
                    &&& final(self).advanced(old(self), 1)
                },
                Err(error) => {
                    &&& !(old(self).pos() < old(self).tokens().len() && old(self).tokens()[old(
                        self,
                    ).pos()] is Ident)
                    &&& error@ == expected_at(
                        old(self).tokens(),
                        old(self).pos(),
                        old(self).scope(),
                        Expected::Identifier,
                    )
                    &&& final(self).advanced(old(self), 0)
                },
            },
    {
        match self.current() {
            Some(Token::Ident(ident)) => {
                let ident = ident.clone();
                self.pos = self.pos + 1;
                Ok(ident)
            },
            _ => Err(self.error(Expected::Identifier)),
        }
    }

    /// Reads the punctuation character `ch`, which `what` stands for in a
    /// diagnostic, and gives its place. Reads nothing where the next token is
    /// something else.
    fn parse_punct(&mut self, ch: char, what: Expected) -> (r: Result<Span, Error>)
        ensures
            match r {
                Ok(span) => {
                    &&& old(self).pos() < old(self).tokens().len()
                    &&& old(self).tokens()[old(self).pos()].spec_is_punct(ch)
                    &&& span == old(self).tokens()[old(self).pos()].spec_span()
                    &&& final(self).advanced(old(self), 1)
                },
                Err(error) => {
                    &&& !(old(self).pos() < old(self).tokens().len() && old(self).tokens()[old(
                        self,
                    ).pos()].spec_is_punct(ch))
                    &&& error@ == expected_at(
                        old(self).tokens(),
                        old(self).pos(),
                        old(self).scope(),
                        what,
                    )
                    &&& final(self).advanced(old(self), 0)
                },
            },
    {
        match self.current() {
            Some(token) => {
                if token.is_punct(ch) {
                    let span = token.span();
                    self.pos = self.pos + 1;
                    Ok(span)
                } else {
                    Err(self.error(what))
                }
            },
            None => Err(self.error(what)),
        }
    }

    /// Reads a `=`. Reads nothing where the next token is something else.
    pub fn parse_eq(&mut self) -> (r: Result<Span, Error>)
        ensures
            match r {
                Ok(span) => {
                    &&& old(self).pos() < old(self).tokens().len()
                    &&& old(self).tokens()[old(self).pos()].spec_is_punct('=')
                    &&& span == old(self).tokens()[old(self).pos()].spec_span()
                    &&& final(self).advanced(old(self), 1)
                },
                Err(error) => {
                    &&& !(old(self).pos() < old(self).tokens().len() && old(self).tokens()[old(
                        self,
                    ).pos()].spec_is_punct('='))
                    &&& error@ == expected_at(
                        old(self).tokens(),
                        old(self).pos(),
                        old(self).scope(),
                        Expected::Equals,
                    )
                    &&& final(self).advanced(old(self), 0)
                },
            },
    {
        self.parse_punct('=', Expected::Equals)
    }

    /// Reads a `,`. Reads nothing where the next token is something else.
    pub fn parse_comma(&mut self) -> (r: Result<Span, Error>)
        ensures
            match r {
                Ok(span) => {
                    &&& old(self).pos() < old(self).tokens().len()
                    &&& old(self).tokens()[old(self).pos()].spec_is_punct(',')
                    &&& span == old(self).tokens()[old(self).pos()].spec_span()
                    &&& final(self).advanced(old(self), 1)
                },
                Err(error) => {
                    &&& !(old(self).pos() < old(self).tokens().len() && old(self).tokens()[old(
                        self,
                    ).pos()].spec_is_punct(','))
                    &&& error@ == expected_at(
                        old(self).tokens(),
                        old(self).pos(),
                        old(self).scope(),
                        Expected::Comma,
                    )
                    &&& final(self).advanced(old(self), 0)
                },
            },
    {
        self.parse_punct(',', Expected::Comma)
    }

    /// Reads a string and gives its text as a name at the string's place.
    /// Reads nothing where the next token is something else, a literal that
    /// is still in its source text too.
    pub fn parse_lit_str(&mut self) -> (r: Result<Ident, Error>)
        ensures
            match r {
                Ok(ident) => {
                    &&& old(self).pos() < old(self).tokens().len()
                    &&& string_of(old(self).tokens()[old(self).pos()]) == Some(ident@)
                    &&& final(self).advanced(old(self), 1)
                },
                Err(error) => {
                    &&& !(old(self).pos() < old(self).tokens().len() && string_of(
                        old(self).tokens()[old(self).pos()],
                    ) is Some)
                    &&& error@ == expected_at(
                        old(self).tokens(),
                        old(self).pos(),
                        old(self).scope(),
                        Expected::StringLiteral,
                    )
                    &&& final(self).advanced(old(self), 0)
                },
            },
    {
        match self.current() {
            Some(Token::Str { value, span }) => {
                let ident = Ident { name: value.clone(), span: *span };
                self.pos = self.pos + 1;
                Ok(ident)
            },
            _ => Err(self.error(Expected::StringLiteral)),
        }
    }
}

} // verus!
