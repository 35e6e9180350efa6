use vstd::prelude::*;

use crate::error::Error;
use crate::error::ErrorKind;
use crate::error::ErrorView;
use crate::error::result_view;
use crate::params::Params;
use crate::params::gives_no_name;
use crate::params::optional_params;
use crate::params::params_len;
use crate::params::resolve_name;
use crate::parse_stream::ParseStream;
use crate::parse_stream::span_at;
use crate::token::Ident;
use crate::token::IdentView;
use crate::token::Span;
use crate::token::Token;

verus! {

/// What a plain accessor directive (`get_ref`, `get_copy`, `get_clone`)
/// carries: the name of the accessor it asks for.
#[derive(Debug, PartialEq, Eq)]
pub struct GetParams {
    pub name: Ident,
}

/// The mathematical model of [`GetParams`].
pub struct GetParamsView {
    pub name: IdentView,
}

impl View for GetParams {
    type V = GetParamsView;

    open spec fn view(&self) -> GetParamsView {
        GetParamsView { name: self.name@ }
    }
}

impl Clone for GetParams {
    fn clone(&self) -> (r: Self)
        ensures
            r == *self,
    {
        GetParams { name: self.name.clone() }
    }
}

/// On a named field, a plain accessor directive whose parameters give no
/// name resolves to the field's own name.
pub proof fn lemma_default_name(tokens: Seq<Token>, pos: int, scope: Span, field_name: IdentView)
    requires
        gives_no_name(tokens, pos, false),
    ensures
        GetParams::spec_parse(tokens, pos, scope, Some(field_name)) == Ok::<GetParamsView, ErrorView>(
            GetParamsView { name: field_name },
        ),
{
}

impl GetParams {
    /// What the parameters of a plain accessor directive come to, for a
    /// directive whose keyword stands just before `pos` in `tokens`, on a
    /// field named `default_name`.
    ///
    /// The parameter list may give a name and nothing else. The accessor is
    /// named as the list says, else as the field is; a directive that has
    /// neither is refused, at what follows it.
    pub open spec fn spec_parse(
        tokens: Seq<Token>,
        pos: int,
        scope: Span,
        default_name: Option<IdentView>,
    ) -> Result<GetParamsView, ErrorView> {
        match optional_params(tokens, pos, false) {
            Err(error) => Err(error),
            Ok(params) => match resolve_name(
                params.name,
                default_name,
                span_at(tokens, pos + params_len(tokens, pos), scope),
            ) {
                Err(error) => Err(error),
                Ok(name) => Ok(GetParamsView { name }),
            },
        }
    }

    /// Reads the parameters of a plain accessor directive, whose keyword was
    /// just read from `input`.
    pub fn parse(input: &mut ParseStream, default_name: Option<Ident>) -> (r: Result<Self, Error>)
        ensures
            result_view(r) == Self::spec_parse(
                old(input).tokens(),
                old(input).pos(),
                old(input).scope(),
                default_name.deep_view(),
            ),
            final(input).advanced(old(input), params_len(old(input).tokens(), old(input).pos())),
    {
        let params = Params::parse(input, false)?;
        let name = match params.name {
            Some(name) => name,
            None => match default_name {
                Some(name) => name,
                None => {
                    return Err(Error::new(input.span(), ErrorKind::NameMissing));
                },
            },
        };
        Ok(GetParams { name })
    }
}

} // verus!
