use vstd::prelude::*;

use crate::access_params::AccessParams;
use crate::access_params::AccessParamsView;
use crate::get_mut_params::GetMutParams;
use crate::get_mut_params::GetMutParamsView;
use crate::error::Error;
use crate::error::ErrorKind;
use crate::error::ErrorKindView;
use crate::error::ErrorView;
use crate::error::Expected;
use crate::error::result_view;
use crate::get_params::GetParams;
use crate::get_params::GetParamsView;
use crate::get_mut_params::mutator_name;
use crate::params::gives_no_name;
use crate::params::params_len;
use crate::parse_stream::ParseStream;
use crate::parse_stream::expected_at;
use crate::token::Ident;
use crate::token::IdentView;
use crate::token::Span;
use crate::token::Token;

verus! {

/// What a directive asks to have generated for its field.
#[derive(Debug, PartialEq, Eq)]
pub enum DirectiveKind {
    From,
    Into,
    Convert,
    GetRef(GetParams),
    GetCopy(GetParams),
    GetClone(GetParams),
    GetMut(GetMutParams),
    Access(AccessParams),
    AsRef,
    AsMut,
    As,
    Deref,
    DerefMut,
}

/// The mathematical model of a [`DirectiveKind`].
pub enum DirectiveKindView {
    From,
    Into,
    Convert,
    GetRef(GetParamsView),
    GetCopy(GetParamsView),
    GetClone(GetParamsView),
    GetMut(GetMutParamsView),
    Access(AccessParamsView),
    AsRef,
    AsMut,
    As,
    Deref,
    DerefMut,
}

impl View for DirectiveKind {
    type V = DirectiveKindView;

    open spec fn view(&self) -> DirectiveKindView {
        match *self {
            DirectiveKind::From => DirectiveKindView::From,
            DirectiveKind::Into => DirectiveKindView::Into,
            DirectiveKind::Convert => DirectiveKindView::Convert,
            DirectiveKind::GetRef(params) => DirectiveKindView::GetRef(params@),
            DirectiveKind::GetCopy(params) => DirectiveKindView::GetCopy(params@),
            DirectiveKind::GetClone(params) => DirectiveKindView::GetClone(params@),
            DirectiveKind::GetMut(params) => DirectiveKindView::GetMut(params@),
            DirectiveKind::Access(params) => DirectiveKindView::Access(params@),
            DirectiveKind::AsRef => DirectiveKindView::AsRef,
            DirectiveKind::AsMut => DirectiveKindView::AsMut,
            DirectiveKind::As => DirectiveKindView::As,
            DirectiveKind::Deref => DirectiveKindView::Deref,
            DirectiveKind::DerefMut => DirectiveKindView::DerefMut,
        }
    }
}

/// One thing that a directive lays claim to on the annotated type: an impl
/// of a conversion or dereference trait, or an inherent method of a given name.
/// A type can hold each only once.
pub enum Claim {
    From,
    Into,
    AsRef,
    AsMut,
    Deref,
    DerefMut,
    Method(Seq<char>),
}

impl DirectiveKindView {
    /// Whether a directive of this kind lays claim to `claim`.
    ///
    /// `convert` claims what `from` and `into` claim, and `as` what `as_ref`
    /// and `as_mut` claim. An accessor directive claims the method names it
    /// resolved to. `deref_mut` claims the mutable proxy only, so that it can
    /// stand beside `deref`.
    pub open spec fn claims(self, claim: Claim) -> bool {
        match self {
            DirectiveKindView::From => claim == Claim::From,
            DirectiveKindView::Into => claim == Claim::Into,
            DirectiveKindView::Convert => claim == Claim::From || claim == Claim::Into,
            DirectiveKindView::GetRef(params) => claim == Claim::Method(params.name.name),
            DirectiveKindView::GetCopy(params) => claim == Claim::Method(params.name.name),
            DirectiveKindView::GetClone(params) => claim == Claim::Method(params.name.name),
            DirectiveKindView::GetMut(params) => claim == Claim::Method(params.name.name),
            DirectiveKindView::Access(params) => claim == Claim::Method(params.get_name.name)
                || claim == Claim::Method(params.get_mut_name.name),
            DirectiveKindView::AsRef => claim == Claim::AsRef,
            DirectiveKindView::AsMut => claim == Claim::AsMut,
            DirectiveKindView::As => claim == Claim::AsRef || claim == Claim::AsMut,
            DirectiveKindView::Deref => claim == Claim::Deref,
            DirectiveKindView::DerefMut => claim == Claim::DerefMut,
        }
    }

    /// Two directives are in conflict when both lay claim to the same thing.
    pub open spec fn conflicts_with(self, other: DirectiveKindView) -> bool {
        exists|claim: Claim| #[trigger] self.claims(claim) && other.claims(claim)
    }

    /// The keyword that a directive of this kind is written with.
    pub open spec fn name(self) -> Seq<char> {
        match self {
            DirectiveKindView::From => "from"@,
            DirectiveKindView::Into => "into"@,
            DirectiveKindView::Convert => "convert"@,
            DirectiveKindView::GetRef(_) => "get_ref"@,
            DirectiveKindView::GetCopy(_) => "get_copy"@,
            DirectiveKindView::GetClone(_) => "get_clone"@,
            DirectiveKindView::GetMut(_) => "get_mut"@,
            DirectiveKindView::Access(_) => "access"@,
            DirectiveKindView::AsRef => "as_ref"@,
            DirectiveKindView::AsMut => "as_mut"@,
            DirectiveKindView::As => "as"@,
            DirectiveKindView::Deref => "deref"@,
            DirectiveKindView::DerefMut => "deref_mut"@,
        }
    }
}

/// A directive: what it asks for, and the place of its keyword.
#[derive(Debug, PartialEq, Eq)]
pub struct Directive {
    pub span: Span,
    pub kind: DirectiveKind,
}

/// The mathematical model of a [`Directive`].
pub struct DirectiveView {
    pub span: Span,
    pub kind: DirectiveKindView,
}

impl View for Directive {
    type V = DirectiveView;

    open spec fn view(&self) -> DirectiveView {
        DirectiveView { span: self.span, kind: self.kind@ }
    }
}

impl DeepView for Directive {
    type V = DirectiveView;

    open spec fn deep_view(&self) -> DirectiveView {
        self@
    }
}

impl Clone for DirectiveKind {
    fn clone(&self) -> (r: Self)
        ensures
            r == *self,
    {
        match self {
            DirectiveKind::From => DirectiveKind::From,
            DirectiveKind::Into => DirectiveKind::Into,
            DirectiveKind::Convert => DirectiveKind::Convert,
            DirectiveKind::GetRef(params) => DirectiveKind::GetRef(params.clone()),
            DirectiveKind::GetCopy(params) => DirectiveKind::GetCopy(params.clone()),
            DirectiveKind::GetClone(params) => DirectiveKind::GetClone(params.clone()),
            DirectiveKind::GetMut(params) => DirectiveKind::GetMut(params.clone()),
            DirectiveKind::Access(params) => DirectiveKind::Access(params.clone()),
            DirectiveKind::AsRef => DirectiveKind::AsRef,
            DirectiveKind::AsMut => DirectiveKind::AsMut,
            DirectiveKind::As => DirectiveKind::As,
            DirectiveKind::Deref => DirectiveKind::Deref,
            DirectiveKind::DerefMut => DirectiveKind::DerefMut,
        }
    }
}

impl Clone for Directive {
    fn clone(&self) -> (r: Self)
        ensures
            r == *self,
    {
        Directive { span: self.span, kind: self.kind.clone() }
    }
}

impl Directive {
    /// The place of the directive's keyword.
    pub fn span(&self) -> (r: Span)
        ensures
            r == self.span,
    {
        self.span
    }
}

impl DirectiveKind {
    /// The keyword that the directive is written with.
    pub fn name(&self) -> (r: &'static str)
        ensures
            r@ == self@.name(),
    {
        match self {
            DirectiveKind::From => "from",
            DirectiveKind::Into => "into",
            DirectiveKind::Convert => "convert",
            DirectiveKind::GetRef(_) => "get_ref",
            DirectiveKind::GetCopy(_) => "get_copy",
            DirectiveKind::GetClone(_) => "get_clone",
            DirectiveKind::GetMut(_) => "get_mut",
            DirectiveKind::Access(_) => "access",
            DirectiveKind::AsRef => "as_ref",
            DirectiveKind::AsMut => "as_mut",
            DirectiveKind::As => "as",
            DirectiveKind::Deref => "deref",
            DirectiveKind::DerefMut => "deref_mut",
        }
    }

    /// Whether `self` and `other` cannot stand on one field.
    pub fn is_conflicted_with(&self, other: &DirectiveKind) -> (r: bool)
        ensures
            r == self@.conflicts_with(other@),
    {
        match self {
            DirectiveKind::From => match other {
                DirectiveKind::From | DirectiveKind::Convert => {
                    assert(self@.claims(Claim::From) && other@.claims(Claim::From));
                    true
                },
                _ => false,
            },
            DirectiveKind::Into => match other {
                DirectiveKind::Into | DirectiveKind::Convert => {
                    assert(self@.claims(Claim::Into) && other@.claims(Claim::Into));
                    true
                },
                _ => false,
            },
            DirectiveKind::Convert => match other {
                DirectiveKind::From | DirectiveKind::Convert => {
                    assert(self@.claims(Claim::From) && other@.claims(Claim::From));
                    true
                },
                DirectiveKind::Into => {
                    assert(self@.claims(Claim::Into) && other@.claims(Claim::Into));
                    true
                },
                _ => false,
            },
            DirectiveKind::GetRef(GetParams { name })
            | DirectiveKind::GetCopy(GetParams { name })
            | DirectiveKind::GetClone(GetParams { name })
            | DirectiveKind::GetMut(GetMutParams { name }) => match other {
                DirectiveKind::GetRef(GetParams { name: other_name })
                | DirectiveKind::GetCopy(GetParams { name: other_name })
                | DirectiveKind::GetClone(GetParams { name: other_name })
                | DirectiveKind::GetMut(GetMutParams { name: other_name }) => {
                    let r = name.same_name(other_name);
                    assert(r ==> self@.claims(Claim::Method(name@.name)) && other@.claims(
                        Claim::Method(name@.name),
                    ));
                    r
                },
                DirectiveKind::Access(AccessParams { get_name, get_mut_name, .. }) => {
                    let r = name.same_name(get_name) || name.same_name(get_mut_name);
                    assert(r ==> self@.claims(Claim::Method(name@.name)) && other@.claims(
                        Claim::Method(name@.name),
                    ));
                    r
                },
                _ => false,
            },
            DirectiveKind::Access(params) => match other {
                DirectiveKind::GetRef(GetParams { name })
                | DirectiveKind::GetCopy(GetParams { name })
                | DirectiveKind::GetClone(GetParams { name })
                | DirectiveKind::GetMut(GetMutParams { name }) => {
                    let r = params.get_name.same_name(name) || params.get_mut_name.same_name(name);
                    assert(r ==> self@.claims(Claim::Method(name@.name)) && other@.claims(
                        Claim::Method(name@.name),
                    ));
                    r
                },
                DirectiveKind::Access(AccessParams { get_name, get_mut_name, .. }) => {
                    let on_get = params.get_name.same_name(get_name) || params.get_mut_name.same_name(
                        get_name,
                    );
                    let on_get_mut = params.get_name.same_name(get_mut_name)
                        || params.get_mut_name.same_name(get_mut_name);
                    assert(on_get ==> self@.claims(Claim::Method(get_name@.name)) && other@.claims(
                        Claim::Method(get_name@.name),
                    ));
                    assert(on_get_mut ==> self@.claims(Claim::Method(get_mut_name@.name))
                        && other@.claims(Claim::Method(get_mut_name@.name)));
                    on_get || on_get_mut
                },
                _ => false,
            },
            DirectiveKind::AsRef => match other {
                DirectiveKind::AsRef | DirectiveKind::As => {
                    assert(self@.claims(Claim::AsRef) && other@.claims(Claim::AsRef));
                    true
                },
                _ => false,
            },
            DirectiveKind::AsMut => match other {
                DirectiveKind::AsMut | DirectiveKind::As => {
                    assert(self@.claims(Claim::AsMut) && other@.claims(Claim::AsMut));
                    true
                },
                _ => false,
            },
            DirectiveKind::As => match other {
                DirectiveKind::AsRef | DirectiveKind::As => {
                    assert(self@.claims(Claim::AsRef) && other@.claims(Claim::AsRef));
                    true
                },
                DirectiveKind::AsMut => {
                    assert(self@.claims(Claim::AsMut) && other@.claims(Claim::AsMut));
                    true
                },
                _ => false,
            },
            DirectiveKind::Deref => match other {
                DirectiveKind::Deref => {
                    assert(self@.claims(Claim::Deref) && other@.claims(Claim::Deref));
                    true
                },
                _ => false,
            },
            DirectiveKind::DerefMut => match other {
                DirectiveKind::DerefMut => {
                    assert(self@.claims(Claim::DerefMut) && other@.claims(Claim::DerefMut));
                    true
                },
                _ => false,
            },
        }
    }
}

/// Whether a directive written with `keyword` takes a parameter list.
pub open spec fn takes_params(keyword: Seq<char>) -> bool {
    ||| keyword == "get_ref"@
    ||| keyword == "get_clone"@
    ||| keyword == "get_copy"@
    ||| keyword == "get_mut"@
    ||| keyword == "access"@
}

/// Of the thirteen keywords, five take a parameter list.
pub proof fn lemma_takes_params()
    ensures
        !takes_params("from"@),
        !takes_params("into"@),
        !takes_params("convert"@),
        takes_params("get_ref"@),
        takes_params("get_clone"@),
        takes_params("get_copy"@),
        takes_params("get_mut"@),
        takes_params("access"@),
        !takes_params("as_ref"@),
        !takes_params("as_mut"@),
        !takes_params("as"@),
        !takes_params("deref"@),
        !takes_params("deref_mut"@),
{
    reveal_strlit("from");
    reveal_strlit("into");
    reveal_strlit("convert");
    reveal_strlit("get_ref");
    reveal_strlit("get_clone");
    reveal_strlit("get_copy");
    reveal_strlit("get_mut");
    reveal_strlit("access");
    reveal_strlit("as_ref");
    reveal_strlit("as_mut");
    reveal_strlit("as");
    reveal_strlit("deref");
    reveal_strlit("deref_mut");
    assert("from"@.len() == 4 && "into"@.len() == 4 && "convert"@.len() == 7);
    assert("get_ref"@.len() == 7 && "get_clone"@.len() == 9 && "get_copy"@.len() == 8);
    assert("get_mut"@.len() == 7 && "access"@.len() == 6);
    assert("as_ref"@.len() == 6 && "as_mut"@.len() == 6 && "as"@.len() == 2);
    assert("deref"@.len() == 5 && "deref_mut"@.len() == 9);
    assert("convert"@[0] == 'c' && "get_ref"@[0] == 'g' && "get_mut"@[0] == 'g');
    assert("access"@[1] == 'c' && "as_ref"@[1] == 's' && "as_mut"@[1] == 's');
    assert("get_clone"@[0] == 'g' && "deref_mut"@[0] == 'd');
}

/// What the directive written with `keyword` asks for, its parameter list,
/// if it takes one, standing at `pos` in `tokens`. A word that is no
/// directive's keyword is refused where it stands.
pub open spec fn kind_of(
    keyword: IdentView,
    tokens: Seq<Token>,
    pos: int,
    scope: Span,
    default_name: Option<IdentView>,
) -> Result<DirectiveKindView, ErrorView> {
    if keyword.name == "from"@ {
        Ok(DirectiveKindView::From)
    } else if keyword.name == "into"@ {
        Ok(DirectiveKindView::Into)
    } else if keyword.name == "convert"@ {
        Ok(DirectiveKindView::Convert)
    } else if keyword.name == "get_ref"@ {
        match GetParams::spec_parse(tokens, pos, scope, default_name) {
            Ok(params) => Ok(DirectiveKindView::GetRef(params)),
            Err(error) => Err(error),
        }
    } else if keyword.name == "get_clone"@ {
        match GetParams::spec_parse(tokens, pos, scope, default_name) {
            Ok(params) => Ok(DirectiveKindView::GetClone(params)),
            Err(error) => Err(error),
        }
    } else if keyword.name == "get_copy"@ {
        match GetParams::spec_parse(tokens, pos, scope, default_name) {
            Ok(params) => Ok(DirectiveKindView::GetCopy(params)),
            Err(error) => Err(error),
        }
    } else if keyword.name == "get_mut"@ {
        match GetMutParams::spec_parse(tokens, pos, scope, default_name) {
            Ok(params) => Ok(DirectiveKindView::GetMut(params)),
            Err(error) => Err(error),
        }
    } else if keyword.name == "access"@ {
        match AccessParams::spec_parse(tokens, pos, scope, default_name) {
            Ok(params) => Ok(DirectiveKindView::Access(params)),
            Err(error) => Err(error),
        }
    } else if keyword.name == "as_ref"@ {
        Ok(DirectiveKindView::AsRef)
    } else if keyword.name == "as_mut"@ {
        Ok(DirectiveKindView::AsMut)
    } else if keyword.name == "as"@ {
        Ok(DirectiveKindView::As)
    } else if keyword.name == "deref"@ {
        Ok(DirectiveKindView::Deref)
    } else if keyword.name == "deref_mut"@ {
        Ok(DirectiveKindView::DerefMut)
    } else {
        Err(
            ErrorView {
                span: keyword.span,
                kind: ErrorKindView::UnknownDirective { found: keyword.name },
            },
        )
    }
}

/// On a named field, every directive that takes parameters, and whose
/// parameters give no name, resolves to the field's own name: a plain
/// accessor to the name itself, `get_mut` to the name followed by `_mut`,
/// and `access` to the one for its read accessor and to the other for its mutator.
pub proof fn lemma_default_name(tokens: Seq<Token>, pos: int, scope: Span, field_name: IdentView)
    requires
        0 <= pos < tokens.len(),
        tokens[pos] is Ident,
        takes_params((tokens[pos]->Ident_0)@.name),
        gives_no_name(tokens, pos + 1, (tokens[pos]->Ident_0)@.name == "access"@),
    ensures
        Directive::spec_parse(tokens, pos, scope, Some(field_name)) matches Ok(directive) && match directive.kind {
            DirectiveKindView::GetRef(params) => params.name == field_name,
            DirectiveKindView::GetCopy(params) => params.name == field_name,
            DirectiveKindView::GetClone(params) => params.name == field_name,
            DirectiveKindView::GetMut(params) => params.name == mutator_name(field_name),
            DirectiveKindView::Access(params) => params.get_name == field_name
                && params.get_mut_name == mutator_name(field_name),
            _ => false,
        },
{
    lemma_takes_params();
    reveal_strlit("access");
    reveal_strlit("get_ref");
    reveal_strlit("get_clone");
    reveal_strlit("get_copy");
    reveal_strlit("get_mut");
    assert("access"@.len() == 6 && "get_ref"@.len() == 7 && "get_clone"@.len() == 9);
    assert("get_copy"@.len() == 8 && "get_mut"@.len() == 7);
}

impl Directive {
    /// The directive that stands at `pos` in `tokens`, on a field named
    /// `default_name`: a keyword, and behind it the parameter list of those
    /// directives that take one.
    pub open spec fn spec_parse(
        tokens: Seq<Token>,
        pos: int,
        scope: Span,
        default_name: Option<IdentView>,
    ) -> Result<DirectiveView, ErrorView> {
        if 0 <= pos < tokens.len() && tokens[pos] is Ident {
            let keyword = tokens[pos]->Ident_0;
            match kind_of(keyword@, tokens, pos + 1, scope, default_name) {
                Ok(kind) => Ok(DirectiveView { span: keyword.span, kind }),
                Err(error) => Err(error),
            }
        } else {
            Err(expected_at(tokens, pos, scope, Expected::Identifier))
        }
    }

    /// How many tokens are read for the directive at `pos` in `tokens`,
    /// whether it is then accepted or refused.
    pub open spec fn spec_len(tokens: Seq<Token>, pos: int) -> int {
        if 0 <= pos < tokens.len() && tokens[pos] is Ident {
            if takes_params((tokens[pos]->Ident_0)@.name) {
                1 + params_len(tokens, pos + 1)
            } else {
                1
            }
        } else {
            0
        }
    }

    /// Reads one directive.
    pub fn parse(input: &mut ParseStream, default_name: Option<Ident>) -> (r: Result<Self, Error>)
        ensures
            result_view(r) == Self::spec_parse(
                old(input).tokens(),
                old(input).pos(),
                old(input).scope(),
                default_name.deep_view(),
            ),
            final(input).advanced(old(input), Self::spec_len(old(input).tokens(), old(input).pos())),
    {
        proof {
            input.lemma_pos_in_range();
            lemma_takes_params();
        }
        let ident = input.parse_ident()?;
        let kind = if ident.is("from") {
            DirectiveKind::From
        } else if ident.is("into") {
            DirectiveKind::Into
        } else if ident.is("convert") {
            DirectiveKind::Convert
        } else if ident.is("get_ref") {
            DirectiveKind::GetRef(GetParams::parse(input, default_name)?)
        } else if ident.is("get_clone") {
            DirectiveKind::GetClone(GetParams::parse(input, default_name)?)
        } else if ident.is("get_copy") {
            DirectiveKind::GetCopy(GetParams::parse(input, default_name)?)
        } else if ident.is("get_mut") {
            DirectiveKind::GetMut(GetMutParams::parse(input, default_name)?)
        } else if ident.is("access") {
            DirectiveKind::Access(AccessParams::parse(input, default_name)?)
        } else if ident.is("as_ref") {
            DirectiveKind::AsRef
        } else if ident.is("as_mut") {
            DirectiveKind::AsMut
        } else if ident.is("as") {
            DirectiveKind::As
        } else if ident.is("deref") {
            DirectiveKind::Deref
        } else if ident.is("deref_mut") {
            DirectiveKind::DerefMut
        } else {
            let span = ident.span();
            return Err(Error::new(span, ErrorKind::UnknownDirective { found: ident.name }));
        };
        Ok(Directive { span: ident.span(), kind })
    }
}

/// Every directive is in conflict with itself: none can stand twice on a field.
pub proof fn lemma_conflict_reflexive(a: DirectiveKindView)
    ensures
        a.conflicts_with(a),
{
    match a {
        DirectiveKindView::From => assert(a.claims(Claim::From)),
        DirectiveKindView::Into => assert(a.claims(Claim::Into)),
        DirectiveKindView::Convert => assert(a.claims(Claim::From)),
        DirectiveKindView::GetRef(params) => assert(a.claims(Claim::Method(params.name.name))),
        DirectiveKindView::GetCopy(params) => assert(a.claims(Claim::Method(params.name.name))),
        DirectiveKindView::GetClone(params) => assert(a.claims(Claim::Method(params.name.name))),
        DirectiveKindView::GetMut(params) => assert(a.claims(Claim::Method(params.name.name))),
        DirectiveKindView::Access(params) => assert(a.claims(Claim::Method(params.get_name.name))),
        DirectiveKindView::AsRef => assert(a.claims(Claim::AsRef)),
        DirectiveKindView::AsMut => assert(a.claims(Claim::AsMut)),
        DirectiveKindView::As => assert(a.claims(Claim::AsRef)),
        DirectiveKindView::Deref => assert(a.claims(Claim::Deref)),
        DirectiveKindView::DerefMut => assert(a.claims(Claim::DerefMut)),
    }
}

/// Conflict is symmetric: whichever of two directives comes first, they are
/// in conflict or they are not.
pub proof fn lemma_conflict_symmetric(a: DirectiveKindView, b: DirectiveKindView)
    ensures
        a.conflicts_with(b) == b.conflicts_with(a),
{
    if a.conflicts_with(b) {
        let claim = choose|claim: Claim| #[trigger] a.claims(claim) && b.claims(claim);
        assert(b.claims(claim) && a.claims(claim));
    }
    if b.conflicts_with(a) {
        let claim = choose|claim: Claim| #[trigger] b.claims(claim) && a.claims(claim);
        assert(a.claims(claim) && b.claims(claim));
    }
}

} // verus!
