use vstd::prelude::*;

use crate::token::Span;

verus! {

/// What the grammar asks for at a place where something else stands.
#[derive(Clone, Copy, Debug, PartialEq, Eq, Structural)]
pub enum Expected {
    Identifier,
    Equals,
    Comma,
    StringLiteral,
}

impl Expected {
    /// The words that a diagnostic uses for what was expected.
    pub open spec fn spec_message(self) -> Seq<char> {
        match self {
            Expected::Identifier => "expected identifier"@,
            Expected::Equals => "expected `=`"@,
            Expected::Comma => "expected `,`"@,
            Expected::StringLiteral => "expected string literal"@,
        }
    }

    /// The words that a diagnostic uses for what was expected.
    pub fn message(self) -> (r: &'static str)
        ensures
            r@ == self.spec_message(),
    {
        match self {
            Expected::Identifier => "expected identifier",
            Expected::Equals => "expected `=`",
            Expected::Comma => "expected `,`",
            Expected::StringLiteral => "expected string literal",
        }
    }
}

/// Why the engine gave up on a declaration.
#[derive(Debug, PartialEq, Eq)]
pub enum ErrorKind {
    /// A token stands where the grammar asks for something else.
    Expected(Expected),
    /// The tokens end where the grammar asks for something more.
    UnexpectedEnd(Expected),
    /// A token stands where the tokens should have ended.
    UnexpectedToken,
    /// The engine's own arguments hold a word other than `debug`.
    UnknownArgument { found: String },
    /// A directive list holds a word that is no directive.
    UnknownDirective { found: String },
    /// A directive's parameter list holds a word that it has no use for.
    UnexpectedKeyword { found: String },
    /// A parameter list gives a name twice.
    NameAlreadySpecified,
    /// A parameter list gives a style twice.
    StyleAlreadySpecified,
    /// A directive that needs a name has none: none was given, and the field has none.
    NameMissing,
    /// The directive `directive` cannot stand on a field with `excluded_by`,
    /// which came before it.
    MutuallyExclusive { directive: String, excluded_by: String },
    /// The directive `directive` stands on a field of a tagged union, for
    /// which nothing can be generated from it.
    UnsupportedForEnum { directive: String },
    /// What was annotated is neither a record type nor a tagged union.
    ExpectedStructOrEnum,
}

/// The mathematical model of an [`ErrorKind`].
pub enum ErrorKindView {
    Expected(Expected),
    UnexpectedEnd(Expected),
    UnexpectedToken,
    UnknownArgument { found: Seq<char> },
    UnknownDirective { found: Seq<char> },
    UnexpectedKeyword { found: Seq<char> },
    NameAlreadySpecified,
    StyleAlreadySpecified,
    NameMissing,
    MutuallyExclusive { directive: Seq<char>, excluded_by: Seq<char> },
    UnsupportedForEnum { directive: Seq<char> },
    ExpectedStructOrEnum,
}

impl View for ErrorKind {
    type V = ErrorKindView;

    open spec fn view(&self) -> ErrorKindView {
        match *self {
            ErrorKind::Expected(what) => ErrorKindView::Expected(what),
            ErrorKind::UnexpectedEnd(what) => ErrorKindView::UnexpectedEnd(what),
            ErrorKind::UnexpectedToken => ErrorKindView::UnexpectedToken,
            ErrorKind::UnknownArgument { found } => ErrorKindView::UnknownArgument { found: found@ },
            ErrorKind::UnknownDirective { found } => ErrorKindView::UnknownDirective { found: found@ },
            ErrorKind::UnexpectedKeyword { found } => ErrorKindView::UnexpectedKeyword {
                found: found@,
            },
            ErrorKind::NameAlreadySpecified => ErrorKindView::NameAlreadySpecified,
            ErrorKind::StyleAlreadySpecified => ErrorKindView::StyleAlreadySpecified,
            ErrorKind::NameMissing => ErrorKindView::NameMissing,
            ErrorKind::MutuallyExclusive { directive, excluded_by } => {
                ErrorKindView::MutuallyExclusive { directive: directive@, excluded_by: excluded_by@ }
            },
            ErrorKind::UnsupportedForEnum { directive } => ErrorKindView::UnsupportedForEnum {
                directive: directive@,
            },
            ErrorKind::ExpectedStructOrEnum => ErrorKindView::ExpectedStructOrEnum,
        }
    }
}

impl ErrorKindView {
    /// The text of the diagnostic.
    pub open spec fn message(self) -> Seq<char> {
        match self {
            ErrorKindView::Expected(what) => what.spec_message(),
            ErrorKindView::UnexpectedEnd(what) => "unexpected end of input, "@ + what.spec_message(),
            ErrorKindView::UnexpectedToken => "unexpected token"@,
            ErrorKindView::UnknownArgument { found } => "unknown argument: "@ + found,
            ErrorKindView::UnknownDirective { found } => "unknown directive `"@ + found
                + "`, expected one of `from`, `into`, `convert`, `get_ref`, `get_copy`, `get_clone`, `get_mut`, `access`, `as_ref`, `as_mut`, `as`, `deref`, `deref_mut`"@,
            ErrorKindView::UnexpectedKeyword { found } =>
                "unexpected keyword, expected one of `get_ref`, `get_copy`, `get_clone`, or `name = <..>`, found `"@
                + found + "`"@,
            ErrorKindView::NameAlreadySpecified => "name already specified"@,
            ErrorKindView::StyleAlreadySpecified => "style already specified"@,
            ErrorKindView::NameMissing => "name must be specified if no default name is provided"@,
            ErrorKindView::MutuallyExclusive { directive, excluded_by } => "directives `"@ + directive
                + "` and `"@ + excluded_by + "` are mutually exclusive"@,
            ErrorKindView::UnsupportedForEnum { directive } =>
                "unsupported directive for tagged union, directive = "@ + directive,
            ErrorKindView::ExpectedStructOrEnum => "expected a struct or an enum"@,
        }
    }
}

/// A diagnostic: why the engine gave up, and the place it points at.
#[derive(Debug, PartialEq, Eq)]
pub struct Error {
    pub span: Span,
    pub kind: ErrorKind,
}

/// The mathematical model of an [`Error`].
pub struct ErrorView {
    pub span: Span,
    pub kind: ErrorKindView,
}

impl View for Error {
    type V = ErrorView;

    open spec fn view(&self) -> ErrorView {
        ErrorView { span: self.span, kind: self.kind@ }
    }
}

impl Error {
    /// The diagnostic of the given kind that points at `span`.
    pub fn new(span: Span, kind: ErrorKind) -> (r: Error)
        ensures
            r.span == span,
            r.kind == kind,
    {
        Error { span, kind }
    }

    /// The place the diagnostic points at.
    pub fn span(&self) -> (r: Span)
        ensures
            r == self.span,
    {
        self.span
    }

    /// The text of the diagnostic.
    pub fn message(&self) -> (r: String)
        ensures
            r@ == self@.kind.message(),
    {
        match &self.kind {
            ErrorKind::Expected(what) => String::from_str(what.message()),
            ErrorKind::UnexpectedEnd(what) => String::from_str("unexpected end of input, ").concat(
                what.message(),
            ),
            ErrorKind::UnexpectedToken => String::from_str("unexpected token"),
            ErrorKind::UnknownArgument { found } => String::from_str("unknown argument: ").concat(
                found.as_str(),
            ),
            ErrorKind::UnknownDirective { found } => String::from_str("unknown directive `").concat(
                found.as_str(),
            ).concat(
                "`, expected one of `from`, `into`, `convert`, `get_ref`, `get_copy`, `get_clone`, `get_mut`, `access`, `as_ref`, `as_mut`, `as`, `deref`, `deref_mut`",
            ),
            ErrorKind::UnexpectedKeyword { found } => String::from_str(
                "unexpected keyword, expected one of `get_ref`, `get_copy`, `get_clone`, or `name = <..>`, found `",
            ).concat(found.as_str()).concat("`"),
            ErrorKind::NameAlreadySpecified => String::from_str("name already specified"),
            ErrorKind::StyleAlreadySpecified => String::from_str("style already specified"),
            ErrorKind::NameMissing => String::from_str(
                "name must be specified if no default name is provided",
            ),
            ErrorKind::MutuallyExclusive { directive, excluded_by } => String::from_str(
                "directives `",
            ).concat(directive.as_str()).concat("` and `").concat(excluded_by.as_str()).concat(
                "` are mutually exclusive",
            ),
            ErrorKind::UnsupportedForEnum { directive } => String::from_str(
                "unsupported directive for tagged union, directive = ",
            ).concat(directive.as_str()),
            ErrorKind::ExpectedStructOrEnum => String::from_str("expected a struct or an enum"),
        }
    }
}

/// The model of a result: the model of what came back, value or diagnostic.
pub open spec fn result_view<T: View>(r: Result<T, Error>) -> Result<T::V, ErrorView> {
    match r {
        Ok(value) => Ok(value@),
        Err(error) => Err(error@),
    }
}

} // verus!
