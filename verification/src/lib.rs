//! The engine behind a field-annotation attribute.
//!
//! A record type or a tagged union carries, on its fields, annotations that
//! hold directives: `from`, `into`, `get_ref(name = "x")`, `access`, and so
//! on. The engine reads those directives, refuses the ones that cannot stand
//! together, takes the annotations out of the declaration, and says what is
//! to be generated for each directive that is left.
//!
//! The engine works on plain data. A caller hands it the declaration as a
//! [`declaration::ItemStruct`] or a [`declaration::ItemEnum`], whose
//! annotations hold [`token::Token`]s, and gets back [`fragment::Fragment`]s,
//! one for each impl block to be written, or an [`error::Error`] that points
//! at the token at fault.
//!
//! Tokens that come from source text hold their literals as they were
//! written. [`attrimpl`] has `syn` read them, through
//! [`literal::read_literals`], and then hands the declaration to [`expand`],
//! which says exactly what comes of tokens whose literals were read.
use vstd::prelude::*;

pub mod access_params;
pub mod args;
pub mod declaration;
pub mod directive;
pub mod directives;
pub mod error;
pub mod fragment;
pub mod get_mut_params;
pub mod get_params;
pub mod item;
pub mod literal;
pub mod params;
pub mod parse_stream;
pub mod syn_field;
pub mod syn_item_enum;
pub mod syn_item_struct;
pub mod syn_variant;
pub mod token;

use crate::args::Args;
use crate::declaration::GenericParam;
use crate::declaration::GenericParamKind;
use crate::declaration::GenericParamView;
use crate::declaration::Generics;
use crate::declaration::GenericsView;
use crate::declaration::ItemEnum;
use crate::declaration::ItemStruct;
use crate::error::Error;
use crate::error::ErrorView;
use crate::fragment::Fragment;
use crate::item::Item;
use crate::parse_stream::ParseStream;
use crate::token::Ident;
use crate::token::IdentView;
use crate::token::Span;

verus! {

/// The name of the annotations that the engine reads.
pub const ATTRIBUTE_NAME: &'static str = "attrimpl";

/// Whether `path` is spelled as `segments` are, one for one.
pub open spec fn path_is(path: Seq<IdentView>, segments: Seq<&str>) -> bool {
    &&& path.len() == segments.len()
    &&& forall|i: int| 0 <= i < path.len() ==> (#[trigger] path[i]).name == segments[i]@
}

/// Whether the segments of a path are spelled as `path_segments` are, one for one.
pub fn are_path_segments_equal(punctuated: &Vec<Ident>, path_segments: &[&str]) -> (r: bool)
    ensures
        r == path_is(punctuated.deep_view(), path_segments@),
{
    if punctuated.len() != path_segments.len() {
        return false;
    }
    let mut i: usize = 0;
    while i < punctuated.len()
        invariant
            punctuated@.len() == path_segments@.len(),
            0 <= i <= punctuated@.len(),
            forall|k: int| 0 <= k < i ==> (#[trigger] punctuated.deep_view()[k]).name == path_segments@[k]@,
        decreases punctuated@.len() - i,
    {
        if !punctuated[i].is(path_segments[i]) {
            assert(punctuated.deep_view()[i as int].name != path_segments@[i as int]@);
            return false;
        }
        i = i + 1;
    }
    true
}

/// A generic parameter as it is named where the declared type is used:
/// its bare name. A const parameter is named as a type parameter is.
pub open spec fn generic_ident(param: GenericParamView) -> GenericParamView {
    GenericParamView {
        kind: match param.kind {
            GenericParamKind::Lifetime => GenericParamKind::Lifetime,
            GenericParamKind::Type => GenericParamKind::Type,
            GenericParamKind::Const => GenericParamKind::Type,
        },
        ident: param.ident,
        attrs: false,
        bounds: false,
        default: false,
    }
}

/// A generic parameter as it is declared on a generated impl block: as it
/// stands, but for its default, which an impl block cannot carry. Its
/// bounds stay, since the declared type cannot be named without them.
pub open spec fn generic_for_impl(param: GenericParamView) -> GenericParamView {
    match param.kind {
        GenericParamKind::Lifetime => param,
        GenericParamKind::Type => GenericParamView {
            kind: param.kind,
            ident: param.ident,
            attrs: param.attrs,
            bounds: param.bounds,
            default: false,
        },
        GenericParamKind::Const => GenericParamView {
            kind: param.kind,
            ident: param.ident,
            attrs: param.attrs,
            bounds: param.bounds,
            default: false,
        },
    }
}

/// The generic parameters of a declaration as they are named where the
/// declared type is used: each by its bare name, in the same order, and no
/// `where` clause.
pub fn create_generic_idents(generics: &Generics) -> (r: Generics)
    ensures
        r@ == (GenericsView {
            params: generics@.params.map_values(|param: GenericParamView| generic_ident(param)),
            where_clause: false,
        }),
{
    let mut params: Vec<GenericParam> = Vec::new();
    let mut i: usize = 0;
    while i < generics.params.len()
        invariant
            0 <= i <= generics.params@.len(),
            params.deep_view() == generics@.params.take(i as int).map_values(
                |param: GenericParamView| generic_ident(param),
            ),
        decreases generics.params@.len() - i,
    {
        let param = &generics.params[i];
        let kind = match param.kind {
            GenericParamKind::Lifetime => GenericParamKind::Lifetime,
            GenericParamKind::Type => GenericParamKind::Type,
            GenericParamKind::Const => GenericParamKind::Type,
        };
        let ghost before = params.deep_view();
        params.push(
            GenericParam {
                kind,
                ident: param.ident.clone(),
                attrs: false,
                bounds: false,
                default: false,
            },
        );
        proof {
            assert(generics@.params[i as int] == param@);
            assert(params.deep_view() =~= before.push(generic_ident(param@)));
            assert(generics@.params.take(i + 1) =~= generics@.params.take(i as int).push(param@));
        }
        i = i + 1;
    }
    proof {
        assert(generics@.params.take(i as int) =~= generics@.params);
    }
    Generics { params, where_clause: false }
}

/// The generic parameters of a declaration as they are declared on a
/// generated impl block: each without its default, in the same order, with
/// its bounds, and the `where` clause as it stands.
pub fn create_generics_for_impl(generics: &Generics) -> (r: Generics)
    ensures
        r@ == (GenericsView {
            params: generics@.params.map_values(|param: GenericParamView| generic_for_impl(param)),
            where_clause: generics@.where_clause,
        }),
{
    let mut params: Vec<GenericParam> = Vec::new();
    let mut i: usize = 0;
    while i < generics.params.len()
        invariant
            0 <= i <= generics.params@.len(),
            params.deep_view() == generics@.params.take(i as int).map_values(
                |param: GenericParamView| generic_for_impl(param),
            ),
        decreases generics.params@.len() - i,
    {
        let param = &generics.params[i];
        let mut copy = GenericParam {
            kind: param.kind,
            ident: param.ident.clone(),
            attrs: param.attrs,
            bounds: param.bounds,
            default: param.default,
        };
        match param.kind {
            GenericParamKind::Lifetime => {},
            GenericParamKind::Type => {
                copy.default = false;
            },
            GenericParamKind::Const => {
                copy.default = false;
            },
        }
        let ghost before = params.deep_view();
        params.push(copy);
        proof {
            assert(generics@.params[i as int] == param@);
            assert(params.deep_view() =~= before.push(generic_for_impl(param@)));
            assert(generics@.params.take(i + 1) =~= generics@.params.take(i as int).push(param@));
        }
        i = i + 1;
    }
    proof {
        assert(generics@.params.take(i as int) =~= generics@.params);
    }
    Generics { params, where_clause: generics.where_clause }
}

/// What the engine makes of one annotated declaration.
#[derive(Debug, PartialEq, Eq)]
pub struct Expansion {
    /// Whether the caller is to print the output.
    pub debug: bool,
    /// The declaration as the engine read it.
    pub item: Item,
    /// The output: the declaration, then what was generated for it.
    pub tokens: Vec<Fragment>,
}

/// Why the engine refuses an annotated declaration; `None` where it does
/// not. The engine's own arguments are looked at first, then the declaration.
pub open spec fn expand_error(
    arg: ParseStream,
    item_struct: Option<ItemStruct>,
    item_enum: Option<ItemEnum>,
    span: Span,
) -> Option<ErrorView> {
    match Args::spec_parse(arg.tokens(), arg.pos()) {
        Err(error) => Some(error),
        Ok(_) => Item::spec_error(item_struct, item_enum, span),
    }
}

/// Whether `r` is what the engine makes of one annotated declaration whose
/// literals were read.
///
/// The output is the declaration followed by what its directives generate.
/// Whatever is amiss, in the arguments or in any annotation, is reported,
/// the first of it, and then nothing is generated.
pub open spec fn expanded(
    r: Result<Expansion, Error>,
    arg: ParseStream,
    item_struct: Option<ItemStruct>,
    item_enum: Option<ItemEnum>,
    span: Span,
) -> bool {
    &&& match r {
        Ok(expansion) => {
            &&& Args::spec_parse(arg.tokens(), arg.pos()) == Ok::<bool, ErrorView>(expansion.debug)
            &&& match expansion.item {
                Item::Struct(parsed) => {
                    &&& item_struct matches Some(item)
                    &&& parsed.parsed_from(item)
                },
                Item::Enum(parsed) => {
                    &&& item_struct is None
                    &&& item_enum matches Some(item)
                    &&& parsed.parsed_from(item)
                },
            }
            &&& expansion.tokens.deep_view() == expansion.item.fragments()
        },
        Err(error) => expand_error(arg, item_struct, item_enum, span) == Some(error@),
    }
    &&& r is Ok <==> expand_error(arg, item_struct, item_enum, span) is None
}

/// Runs the engine on one annotated declaration whose literals were read:
/// see [`expanded`].
///
/// `arg` holds the engine's own arguments. `item_struct` is what was
/// annotated, read as a record type, where it can be read so, `item_enum`
/// the same for a tagged union, and `span` the place of what was annotated.
pub fn expand(
    arg: ParseStream,
    item_struct: Option<ItemStruct>,
    item_enum: Option<ItemEnum>,
    span: Span,
) -> (r: Result<Expansion, Error>)
    ensures
        expanded(r, arg, item_struct, item_enum, span),
{
    let args = Args::parse(arg)?;
    let item = Item::parse(item_struct, item_enum, span)?;
    let mut tokens: Vec<Fragment> = Vec::new();
    item.to_tokens(&mut tokens);
    proof {
        assert(tokens.deep_view() =~= item.fragments());
    }
    Ok(Expansion { debug: args.debug(), item, tokens })
}

/// Whether `after` may be what reading the literals of `before` comes to,
/// where there is a record type to read.
pub open spec fn struct_read(before: Option<ItemStruct>, after: Option<ItemStruct>) -> bool {
    match before {
        Some(before) => after matches Some(after) && before.literals_read(after),
        None => after is None,
    }
}

/// Whether `after` may be what reading the literals of `before` comes to,
/// where there is a tagged union to read.
pub open spec fn enum_read(before: Option<ItemEnum>, after: Option<ItemEnum>) -> bool {
    match before {
        Some(before) => after matches Some(after) && before.literals_read(after),
        None => after is None,
    }
}

/// Runs the engine on one annotated declaration as it was written.
///
/// `arg` holds the engine's own arguments. `item_struct` is what was
/// annotated, read as a record type, where it can be read so, `item_enum`
/// the same for a tagged union, and `span` the place of what was annotated.
///
/// The literals in the annotations are read first, which is `syn`'s to do:
/// see [`literal::read_literals`]. What comes back is what [`expand`] makes
/// of the declaration with its literals read, whatever the reading came to.
pub fn attrimpl(
    arg: ParseStream,
    item_struct: Option<ItemStruct>,
    item_enum: Option<ItemEnum>,
    span: Span,
) -> (r: Result<Expansion, Error>)
    ensures
        exists|read_struct: Option<ItemStruct>, read_enum: Option<ItemEnum>|
            {
                &&& struct_read(item_struct, read_struct)
                &&& enum_read(item_enum, read_enum)
                &&& #[trigger] expanded(r, arg, read_struct, read_enum, span)
            },
{
    let read_struct = match item_struct {
        Some(item) => Some(item.read_literals()),
        None => None,
    };
    let read_enum = match item_enum {
        Some(item) => Some(item.read_literals()),
        None => None,
    };
    let ghost witness = (read_struct, read_enum);
    let r = expand(arg, read_struct, read_enum, span);
    proof {
        assert(expanded(r, arg, witness.0, witness.1, span));
    }
    r
}

} // verus!
