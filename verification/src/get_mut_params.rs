use vstd::prelude::*;

use crate::error::Error;
use crate::error::ErrorView;
use crate::error::result_view;
use crate::get_params::GetParams;
use crate::params::gives_no_name;
use crate::params::params_len;
use crate::parse_stream::ParseStream;
use crate::token::Ident;
use crate::token::IdentView;
use crate::token::Span;
use crate::token::Token;

verus! {

/// What a `get_mut` directive carries: the name of the mutator it asks for,
/// which is the accessor's name followed by `_mut`.
#[derive(Debug, PartialEq, Eq)]
pub struct GetMutParams {
    pub name: Ident,
}

/// The mathematical model of [`GetMutParams`].
pub struct GetMutParamsView {
    pub name: IdentView,
}

impl View for GetMutParams {
    type V = GetMutParamsView;

    open spec fn view(&self) -> GetMutParamsView {
        GetMutParamsView { name: self.name@ }
    }
}

impl Clone for GetMutParams {
    fn clone(&self) -> (r: Self)
        ensures
            r == *self,
    {
        GetMutParams { name: self.name.clone() }
    }
}

/// The name of the mutator that goes with the accessor `name`: `name`
/// followed by `_mut`, at the same place.
pub open spec fn mutator_name(name: IdentView) -> IdentView {
    IdentView { name: name.name + "_mut"@, span: name.span }
}

/// On a named field, a `get_mut` directive whose parameters give no name
/// resolves to the field's own name followed by `_mut`.
pub proof fn lemma_default_name(tokens: Seq<Token>, pos: int, scope: Span, field_name: IdentView)
    requires
        gives_no_name(tokens, pos, false),
    ensures
        GetMutParams::spec_parse(tokens, pos, scope, Some(field_name)) == Ok::<
            GetMutParamsView,
            ErrorView,
        >(
            GetMutParamsView {
                name: IdentView { name: field_name.name + "_mut"@, span: field_name.span },
            },
        ),
{
}

impl GetMutParams {
    /// What the parameters of a `get_mut` directive come to: the mutator
    /// that goes with the accessor which the same parameters would name.
    pub open spec fn spec_parse(
        tokens: Seq<Token>,
        pos: int,
        scope: Span,
        default_name: Option<IdentView>,
    ) -> Result<GetMutParamsView, ErrorView> {
        match GetParams::spec_parse(tokens, pos, scope, default_name) {
            Err(error) => Err(error),
            Ok(params) => Ok(GetMutParamsView { name: mutator_name(params.name) }),
        }
    }

    /// Reads the parameters of a `get_mut` directive, whose keyword was just
    /// read from `input`.
    pub fn parse(input: &mut ParseStream, default_name: Option<Ident>) -> (r: Result<Self, Error>)
        ensures
            result_view(r) == Self::spec_parse(
                old(input).tokens(),
                old(input).pos(),
                old(input).scope(),
                default_name.deep_view(),
            ),
            final(input).advanced(old(input), params_len(old(input).tokens(), old(input).pos())),
    {
        let GetParams { name } = GetParams::parse(input, default_name)?;
        let name = name.with_suffix("_mut");
        Ok(GetMutParams { name })
    }
}

} // verus!
