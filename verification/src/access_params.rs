use vstd::prelude::*;

use crate::error::Error;
use crate::error::ErrorKind;
use crate::error::ErrorView;
use crate::error::result_view;
use crate::get_mut_params::mutator_name;
use crate::params::Params;
use crate::params::gives_no_name;
use crate::params::optional_params;
use crate::params::params_len;
use crate::params::resolve_name;
use crate::parse_stream::ParseStream;
use crate::parse_stream::span_at;
use crate::token::Ident;
use crate::token::IdentView;
use crate::token::Span;
use crate::token::Token;

verus! {

/// How a read accessor hands out the field's value.
#[derive(Clone, Copy, Debug, PartialEq, Eq, Structural)]
pub enum GetRefType {
    /// By shared reference. This is the style of an `access` directive that names none.
    Ref,
    /// By bitwise copy.
    Copy,
    /// By a call of `clone`.
    Clone,
}

impl Default for GetRefType {
    fn default() -> (r: Self)
        ensures
            r == GetRefType::Ref,
    {
        GetRefType::Ref
    }
}

/// What an `access` directive carries: the names of the read accessor and of
/// the mutator it asks for, and the style of the read accessor.
#[derive(Debug, PartialEq, Eq)]
pub struct AccessParams {
    pub get_name: Ident,
    pub get_mut_name: Ident,
    pub get_ref_type: GetRefType,
}

/// The mathematical model of [`AccessParams`].
pub struct AccessParamsView {
    pub get_name: IdentView,
    pub get_mut_name: IdentView,
    pub get_ref_type: GetRefType,
}

impl View for AccessParams {
    type V = AccessParamsView;

    open spec fn view(&self) -> AccessParamsView {
        AccessParamsView {
            get_name: self.get_name@,
            get_mut_name: self.get_mut_name@,
            get_ref_type: self.get_ref_type,
        }
    }
}

impl Clone for AccessParams {
    fn clone(&self) -> (r: Self)
        ensures
            r == *self,
    {
        AccessParams {
            get_name: self.get_name.clone(),
            get_mut_name: self.get_mut_name.clone(),
            get_ref_type: self.get_ref_type,
        }
    }
}

/// The style of an `access` directive: the one it names, else by reference.
pub open spec fn style_or_default(style: Option<GetRefType>) -> GetRefType {
    match style {
        Some(style) => style,
        None => GetRefType::Ref,
    }
}

/// On a named field, an `access` directive whose parameters give no name
/// resolves to the field's own name for its read accessor, and to that name
/// followed by `_mut` for its mutator.
pub proof fn lemma_default_name(tokens: Seq<Token>, pos: int, scope: Span, field_name: IdentView)
    requires
        gives_no_name(tokens, pos, true),
    ensures
        AccessParams::spec_parse(tokens, pos, scope, Some(field_name)) matches Ok(params) && {
            &&& params.get_name == field_name
            &&& params.get_mut_name == (IdentView {
                name: field_name.name + "_mut"@,
                span: field_name.span,
            })
        },
{
}

impl AccessParams {
    /// What the parameters of an `access` directive come to, for a directive
    /// whose keyword stands just before `pos` in `tokens`, on a field named
    /// `default_name`.
    ///
    /// The parameter list may give a name and a style. The read accessor is
    /// named as the list says, else as the field is; a directive that has
    /// neither is refused, at what follows it. The mutator is the one that
    /// goes with the read accessor.
    pub open spec fn spec_parse(
        tokens: Seq<Token>,
        pos: int,
        scope: Span,
        default_name: Option<IdentView>,
    ) -> Result<AccessParamsView, ErrorView> {
        match optional_params(tokens, pos, true) {
            Err(error) => Err(error),
            Ok(params) => match resolve_name(
                params.name,
                default_name,
                span_at(tokens, pos + params_len(tokens, pos), scope),
            ) {
                Err(error) => Err(error),
                Ok(get_name) => Ok(
                    AccessParamsView {
                        get_name,
                        get_mut_name: mutator_name(get_name),
                        get_ref_type: style_or_default(params.get_ref_type),
                    },
                ),
            },
        }
    }

    /// Reads the parameters of an `access` directive, whose keyword was just
    /// read from `input`.
    pub fn parse(input: &mut ParseStream, default_name: Option<Ident>) -> (r: Result<Self, Error>)
        ensures
            result_view(r) == Self::spec_parse(
                old(input).tokens(),
                old(input).pos(),
                old(input).scope(),
                default_name.deep_view(),
            ),
            final(input).advanced(old(input), params_len(old(input).tokens(), old(input).pos())),
    {
        let params = Params::parse(input, true)?;
        let get_name = match params.name {
            Some(name) => name,
            None => match default_name {
                Some(name) => name,
                None => {
                    return Err(Error::new(input.span(), ErrorKind::NameMissing));
                },
            },
        };
        let get_mut_name = get_name.with_suffix("_mut");
        let get_ref_type = match params.get_ref_type {
            Some(style) => style,
            None => GetRefType::default(),
        };
        Ok(AccessParams { get_name, get_mut_name, get_ref_type })
    }
}

} // verus!
