use vstd::prelude::*;

use crate::access_params::GetRefType;
use crate::error::Error;
use crate::error::ErrorKind;
use crate::error::ErrorKindView;
use crate::error::ErrorView;
use crate::error::Expected;
use crate::error::result_view;
use crate::literal::string_of;
use crate::parse_stream::ParseStream;
use crate::parse_stream::expected_at;
use crate::parse_stream::flat;
use crate::parse_stream::is_parenthesized;
use crate::token::Ident;
use crate::token::IdentView;
use crate::token::Span;
use crate::token::Token;

verus! {

/// What a directive's parameter list gave: a name, a style, both or neither.
#[derive(Debug, PartialEq, Eq)]
pub struct Params {
    pub name: Option<Ident>,
    pub get_ref_type: Option<GetRefType>,
}

/// The mathematical model of [`Params`].
pub struct ParamsView {
    pub name: Option<IdentView>,
    pub get_ref_type: Option<GetRefType>,
}

impl View for Params {
    type V = ParamsView;

    open spec fn view(&self) -> ParamsView {
        ParamsView { name: self.name.deep_view(), get_ref_type: self.get_ref_type }
    }
}

/// The style that a style keyword stands for; `None` for any other word.
pub open spec fn style_of(word: Seq<char>) -> Option<GetRefType> {
    if word == "get_clone"@ {
        Some(GetRefType::Clone)
    } else if word == "get_copy"@ {
        Some(GetRefType::Copy)
    } else if word == "get_ref"@ {
        Some(GetRefType::Ref)
    } else {
        None
    }
}

/// Reads one parameter at `pos` in `tokens`, where a token stands: a style
/// keyword (where `styles` admits them), or `name = "..."`. Gives what is
/// known after it, `seen` being what was known before, and the place behind it.
pub open spec fn param_at(
    tokens: Seq<Token>,
    pos: int,
    scope: Span,
    styles: bool,
    seen: ParamsView,
) -> Result<(ParamsView, int), ErrorView> {
    match tokens[pos] {
        Token::Ident(word) => {
            if styles && style_of(word@.name) is Some {
                if seen.get_ref_type is Some {
                    Err(ErrorView { span: word.span, kind: ErrorKindView::StyleAlreadySpecified })
                } else {
                    Ok(
                        (
                            ParamsView { name: seen.name, get_ref_type: style_of(word@.name) },
                            pos + 1,
                        ),
                    )
                }
            } else if word@.name == "name"@ {
                if !(pos + 1 < tokens.len() && tokens[pos + 1].spec_is_punct('=')) {
                    Err(expected_at(tokens, pos + 1, scope, Expected::Equals))
                } else if !(pos + 2 < tokens.len() && string_of(tokens[pos + 2]) is Some) {
                    Err(expected_at(tokens, pos + 2, scope, Expected::StringLiteral))
                } else if seen.name is Some {
                    Err(ErrorView { span: word.span, kind: ErrorKindView::NameAlreadySpecified })
                } else {
                    Ok(
                        (
                            ParamsView {
                                name: string_of(tokens[pos + 2]),
                                get_ref_type: seen.get_ref_type,
                            },
                            pos + 3,
                        ),
                    )
                }
            } else {
                Err(
                    ErrorView {
                        span: word.span,
                        kind: ErrorKindView::UnexpectedKeyword { found: word@.name },
                    },
                )
            }
        },
        _ => Err(expected_at(tokens, pos, scope, Expected::Identifier)),
    }
}

/// Reads the parameters that stand in `tokens` from `pos` on: none, or
/// parameters with a comma between each two, and perhaps one behind the last.
/// The first thing amiss ends the reading.
pub open spec fn params_from(
    tokens: Seq<Token>,
    pos: int,
    scope: Span,
    styles: bool,
    seen: ParamsView,
) -> Result<ParamsView, ErrorView>
    decreases tokens.len() - pos,
{
    if !(0 <= pos < tokens.len()) {
        Ok(seen)
    } else {
        match param_at(tokens, pos, scope, styles, seen) {
            Err(error) => Err(error),
            Ok((seen, next)) => {
                if !(pos < next < tokens.len()) {
                    Ok(seen)
                } else if tokens[next].spec_is_punct(',') {
                    params_from(tokens, next + 1, scope, styles, seen)
                } else {
                    Err(expected_at(tokens, next, scope, Expected::Comma))
                }
            },
        }
    }
}

/// Reads a directive's parameter list, which stands at `pos` in `tokens` if
/// a group in round brackets stands there: the parameters are the tokens
/// that a cursor reads in the group. Without one the directive has no
/// parameters.
pub open spec fn optional_params(tokens: Seq<Token>, pos: int, styles: bool) -> Result<
    ParamsView,
    ErrorView,
> {
    if is_parenthesized(tokens, pos) {
        params_from(
            flat(tokens[pos]->Group_tokens@),
            0,
            tokens[pos]->Group_close,
            styles,
            ParamsView { name: None, get_ref_type: None },
        )
    } else {
        Ok(ParamsView { name: None, get_ref_type: None })
    }
}

/// How many tokens a directive's parameter list takes up at `pos` in `tokens`.
pub open spec fn params_len(tokens: Seq<Token>, pos: int) -> int {
    if is_parenthesized(tokens, pos) {
        1
    } else {
        0
    }
}

/// The name a directive resolves to: the one its parameters gave, else the
/// field's own; and where there is neither, the diagnostic, which points at `span`.
pub open spec fn resolve_name(
    explicit: Option<IdentView>,
    default_name: Option<IdentView>,
    span: Span,
) -> Result<IdentView, ErrorView> {
    match explicit {
        Some(name) => Ok(name),
        None => match default_name {
            Some(name) => Ok(name),
            None => Err(ErrorView { span, kind: ErrorKindView::NameMissing }),
        },
    }
}

/// Whether the parameter list at `pos` in `tokens`, if one stands there,
/// can be read and gives no name.
pub open spec fn gives_no_name(tokens: Seq<Token>, pos: int, styles: bool) -> bool {
    optional_params(tokens, pos, styles) matches Ok(params) && params.name is None
}

/// A name that the parameter list gives is the name that the directive
/// resolves to, whatever the field is called.
pub proof fn lemma_explicit_name_wins(
    explicit: IdentView,
    default_name: Option<IdentView>,
    span: Span,
)
    ensures
        resolve_name(Some(explicit), default_name, span) == Ok::<IdentView, ErrorView>(explicit),
{
}

impl Params {
    /// Reads the parameters that `content` holds, to its end.
    fn parse_content(content: &mut ParseStream, styles: bool) -> (r: Result<Params, Error>)
        requires
            old(content).pos() == 0,
        ensures
            result_view(r) == params_from(
                old(content).tokens(),
                0,
                old(content).scope(),
                styles,
                ParamsView { name: None, get_ref_type: None },
            ),
    {
        let mut name: Option<Ident> = None;
        let mut get_ref_type: Option<GetRefType> = None;
        let ghost tokens = content.tokens();
        let ghost scope = content.scope();
        let ghost start = ParamsView { name: None, get_ref_type: None };

        loop
            invariant
                tokens == old(content).tokens(),
                scope == old(content).scope(),
                start == (ParamsView { name: None, get_ref_type: None }),
                content.tokens() == tokens,
                content.scope() == scope,
                0 <= content.pos() <= tokens.len(),
                params_from(tokens, 0, scope, styles, start) == params_from(
                    tokens,
                    content.pos(),
                    scope,
                    styles,
                    ParamsView { name: name.deep_view(), get_ref_type },
                ),
            ensures
                content.pos() == tokens.len(),
                params_from(tokens, 0, scope, styles, start) == Ok::<ParamsView, ErrorView>(
                    ParamsView { name: name.deep_view(), get_ref_type },
                ),
            decreases tokens.len() - content.pos(),
        {
            if content.is_empty() {
                break ;
            }
            let ghost pos = content.pos();
            let ghost seen = ParamsView { name: name.deep_view(), get_ref_type };
            let ident = content.parse_ident()?;
            let style = if !styles {
                None
            } else if ident.is("get_clone") {
                Some(GetRefType::Clone)
            } else if ident.is("get_copy") {
                Some(GetRefType::Copy)
            } else if ident.is("get_ref") {
                Some(GetRefType::Ref)
            } else {
                None
            };
            match style {
                Some(style) => {
                    if get_ref_type.is_some() {
                        return Err(Error::new(ident.span(), ErrorKind::StyleAlreadySpecified));
                    }
                    get_ref_type = Some(style);
                },
                None => {
                    if ident.is("name") {
                        content.parse_eq()?;
                        let value = content.parse_lit_str()?;
                        if name.is_some() {
                            return Err(Error::new(ident.span(), ErrorKind::NameAlreadySpecified));
                        }
                        name = Some(value);
                    } else {
                        let span = ident.span();
                        return Err(
                            Error::new(span, ErrorKind::UnexpectedKeyword { found: ident.name }),
                        );
                    }
                },
            }
            proof {
                content.lemma_pos_in_range();
                assert(param_at(tokens, pos, scope, styles, seen) == Ok::<
                    (ParamsView, int),
                    ErrorView,
                >((ParamsView { name: name.deep_view(), get_ref_type }, content.pos())));
            }
            if content.is_empty() {
                break ;
            }
            content.parse_comma()?;
        }
        Ok(Params { name, get_ref_type })
    }

    /// Reads a directive's parameter list, if one stands at the cursor:
    /// a group in round brackets that holds style keywords (where `styles`
    /// admits them) and `name = "..."`, with commas between them.
    pub fn parse(input: &mut ParseStream, styles: bool) -> (r: Result<Params, Error>)
        ensures
            result_view(r) == optional_params(old(input).tokens(), old(input).pos(), styles),
            final(input).advanced(
                old(input),
                params_len(old(input).tokens(), old(input).pos()),
            ),
    {
        match input.parenthesized() {
            Some(content) => {
                let mut content = content;
                Params::parse_content(&mut content, styles)
            },
            None => Ok(Params { name: None, get_ref_type: None }),
        }
    }
}

} // verus!
