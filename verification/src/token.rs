use vstd::prelude::*;

verus! {

/// A location tag. Every token carries one, and every diagnostic points at one.
///
/// The library never looks inside a tag: it hands it on, from the token that
/// was read to the directive or the error that came of it, so that a caller
/// can lead a diagnostic back to the place in the annotated source.
#[derive(Clone, Copy, Debug, PartialEq, Eq, Structural)]
pub struct Span {
    pub id: usize,
}

impl Span {
    /// The tag with the given number.
    pub fn new(id: usize) -> (r: Span)
        ensures
            r.id == id,
    {
        Span { id }
    }
}

/// An identifier: a name, and the place where it was written.
#[derive(Debug, PartialEq, Eq)]
pub struct Ident {
    pub name: String,
    pub span: Span,
}

/// The mathematical model of an [`Ident`].
pub struct IdentView {
    pub name: Seq<char>,
    pub span: Span,
}

impl View for Ident {
    type V = IdentView;

    open spec fn view(&self) -> IdentView {
        IdentView { name: self.name@, span: self.span }
    }
}

impl DeepView for Ident {
    type V = IdentView;

    open spec fn deep_view(&self) -> IdentView {
        self@
    }
}

impl Clone for Ident {
    fn clone(&self) -> (r: Self)
        ensures
            r == *self,
    {
        Ident { name: self.name.clone(), span: self.span }
    }
}

impl Ident {
    /// The identifier spelled `name`, written at `span`.
    pub fn new(name: &str, span: Span) -> (r: Ident)
        ensures
            r@ == (IdentView { name: name@, span }),
    {
        Ident { name: String::from_str(name), span }
    }

    /// The place where the identifier was written.
    pub fn span(&self) -> (r: Span)
        ensures
            r == self.span,
    {
        self.span
    }

    /// Whether the identifier is spelled exactly `word`.
    pub fn is(&self, word: &str) -> (r: bool)
        ensures
            r == (self@.name == word@),
    {
        self.name == String::from_str(word)
    }

    /// Whether two identifiers are spelled alike, wherever they were written.
    pub fn same_name(&self, other: &Ident) -> (r: bool)
        ensures
            r == (self@.name == other@.name),
    {
        self.name == other.name
    }

    /// The identifier spelled as `self` followed by `suffix`, at the place of `self`.
    pub fn with_suffix(&self, suffix: &str) -> (r: Ident)
        ensures
            r@ == (IdentView { name: self@.name + suffix@, span: self.span }),
    {
        Ident { name: self.name.clone().concat(suffix), span: self.span }
    }
}

/// The brackets around a [`Token::Group`].
#[derive(Clone, Copy, Debug, PartialEq, Eq, Structural)]
pub enum Delimiter {
    /// `( ... )`
    Parenthesis,
    /// `{ ... }`
    Brace,
    /// `[ ... ]`
    Bracket,
    /// No brackets in the source: a group that a macro expansion left
    /// behind. A cursor looks through it.
    Invisible,
}

/// One token tree of an annotation's contents.
#[derive(Debug, PartialEq, Eq)]
pub enum Token {
    /// A word: an identifier or a keyword.
    Ident(Ident),
    /// A single punctuation character.
    Punct { ch: char, span: Span },
    /// A string literal that was read: `value` is the text it denotes, with
    /// no quotes around it and no escapes in it.
    Str { value: String, span: Span },
    /// A literal that was not read: `repr` is its source text, for a string
    /// literal with its quotes and escapes. The grammar takes it for no string.
    Literal { repr: String, span: Span },
    /// A bracketed run of tokens, with the places of its two brackets.
    Group { delimiter: Delimiter, tokens: Vec<Token>, open: Span, close: Span },
}

impl Token {
    /// The place a diagnostic about this token points at: the token itself,
    /// or the opening bracket of a group.
    pub open spec fn spec_span(&self) -> Span {
        match *self {
            Token::Ident(ident) => ident.span,
            Token::Punct { span, .. } => span,
            Token::Str { span, .. } => span,
            Token::Literal { span, .. } => span,
            Token::Group { open, .. } => open,
        }
    }

    /// The place a diagnostic about this token points at.
    #[verifier::when_used_as_spec(spec_span)]
    pub fn span(&self) -> (r: Span)
        ensures
            r == self.spec_span(),
    {
        match self {
            Token::Ident(ident) => ident.span,
            Token::Punct { span, .. } => *span,
            Token::Str { span, .. } => *span,
            Token::Literal { span, .. } => *span,
            Token::Group { open, .. } => *open,
        }
    }

    /// Whether the token is the punctuation character `ch`.
    pub open spec fn spec_is_punct(&self, ch: char) -> bool {
        *self matches Token::Punct { ch: c, .. } && c == ch
    }

    /// Whether the token is the punctuation character `ch`.
    #[verifier::when_used_as_spec(spec_is_punct)]
    pub fn is_punct(&self, ch: char) -> (r: bool)
        ensures
            r == self.spec_is_punct(ch),
    {
        match self {
            Token::Punct { ch: c, .. } => *c == ch,
            _ => false,
        }
    }
}

} // verus!
