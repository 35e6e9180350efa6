use vstd::prelude::*;

use crate::declaration::Generics;
use crate::declaration::ItemEnum;
use crate::declaration::Variant;
use crate::directive::Directive;
use crate::directive::DirectiveKind;
use crate::directive::DirectiveKindView;
use crate::directive::DirectiveView;
use crate::error::Error;
use crate::error::ErrorKind;
use crate::error::ErrorView;
use crate::fragment::Fragment;
use crate::fragment::FragmentView;
use crate::fragment::MemberView;
use crate::syn_field::SynField;
use crate::syn_field::field_directives;
use crate::syn_field::is_parsed_from;
use crate::syn_field::lemma_reparse_fields;
use crate::syn_variant::SynVariant;
use crate::syn_variant::lemma_reparse_variant;
use crate::syn_variant::unsupported_error;
use crate::syn_variant::variant_error;
use crate::token::Ident;
use crate::token::IdentView;

verus! {

/// A tagged union after the engine has read it. Something can be generated
/// from every directive it holds.
#[derive(Debug, PartialEq, Eq)]
pub struct SynItemEnum {
    ident: Ident,
    generics: Generics,
    variants: Vec<SynVariant>,
}

/// What one directive generates for a field of the case `variant` of a
/// tagged union, in order: for `from`, and for `convert`, the constructor
/// and its boxed form; for any other directive, nothing.
pub open spec fn directive_fragments(
    variant: IdentView,
    member: MemberView,
    kind: DirectiveKindView,
) -> Seq<FragmentView> {
    if SynItemEnum::spec_can_generate(kind) {
        seq![
            FragmentView::From { variant: Some(variant), member },
            FragmentView::BoxedFrom { variant: Some(variant), member },
        ]
    } else {
        Seq::empty()
    }
}

/// What the directives of one field of the case `variant` generate.
pub open spec fn field_fragments(variant: IdentView, field: SynField) -> Seq<FragmentView> {
    field.directives@.map_values(
        |directive: DirectiveView| directive_fragments(variant, field.spec_member(), directive.kind),
    ).flatten()
}

/// What the fields of one case generate, one field after the other.
pub open spec fn variant_fragments(variant: SynVariant) -> Seq<FragmentView> {
    variant.fields@.map_values(|field: SynField| field_fragments(variant.ident@, field)).flatten()
}

/// Why a tagged union is refused: the diagnostic of the first of
/// `variants`, from `from` on, whose fields are refused. `None` where the
/// tagged union is accepted.
pub open spec fn enum_error(variants: Seq<Variant>, from: int) -> Option<ErrorView>
    decreases variants.len() - from,
{
    if !(0 <= from < variants.len()) {
        None
    } else {
        match variant_error(variants[from].fields@) {
            Some(error) => Some(error),
            None => enum_error(variants, from + 1),
        }
    }
}

/// Whether `parsed` is what reading `variant` comes to.
pub open spec fn is_variant_parsed_from(parsed: SynVariant, variant: Variant) -> bool {
    &&& parsed.ident == variant.ident
    &&& parsed.fields@.len() == variant.fields@.len()
    &&& forall|i: int|
        0 <= i < variant.fields@.len() ==> is_parsed_from(
            #[trigger] parsed.fields@[i],
            variant.fields@[i],
            i,
        )
    &&& parsed.supported()
}

/// A tagged union of which a case is refused is refused.
pub proof fn lemma_enum_error(variants: Seq<Variant>, from: int, v: int)
    requires
        0 <= from <= v < variants.len(),
        variant_error(variants[v].fields@) is Some,
    ensures
        enum_error(variants, from) is Some,
    decreases variants.len() - from,
{
    if from < v && variant_error(variants[from].fields@) is None {
        lemma_enum_error(variants, from + 1, v);
    }
}

/// On a tagged union only constructors can be asked for. A tagged union is
/// refused as soon as a field of one of its cases holds a directive of
/// another kind than `from` and `convert`, and then nothing is generated
/// for it: reading it gives no value that could generate anything.
pub proof fn lemma_unsupported_refused(variants: Seq<Variant>, v: int, i: int, j: int)
    requires
        0 <= v < variants.len(),
        0 <= i < variants[v].fields@.len(),
        field_directives(variants[v].fields@[i]) is Ok,
        0 <= j < field_directives(variants[v].fields@[i])->Ok_0.len(),
        !SynItemEnum::spec_can_generate(field_directives(variants[v].fields@[i])->Ok_0[j].kind),
    ensures
        enum_error(variants, 0) is Some,
{
    crate::syn_variant::lemma_unsupported_refused(variants[v].fields@, i, j);
    lemma_enum_error(variants, 0, v);
}

/// A tagged union that was read holds constructors only: every directive
/// of every field of every case is `from` or `convert`.
pub proof fn lemma_only_constructors(item_enum: ItemEnum, parsed: SynItemEnum, v: int, i: int, j: int)
    requires
        parsed.parsed_from(item_enum),
        0 <= v < parsed.spec_variants().len(),
        0 <= i < parsed.spec_variants()[v].fields@.len(),
        0 <= j < parsed.spec_variants()[v].fields@[i].directives@.len(),
    ensures
        parsed.spec_variants()[v].fields@[i].directives@[j].kind is From
            || parsed.spec_variants()[v].fields@[i].directives@[j].kind is Convert,
{
    assert(is_variant_parsed_from(parsed.spec_variants()[v], item_enum.variants@[v]));
    assert(SynItemEnum::spec_can_generate(
        parsed.spec_variants()[v].fields@[i].directives@[j].kind,
    ));
}

/// A tagged union of whose cases none is refused is not refused.
pub proof fn lemma_no_enum_error(variants: Seq<Variant>, from: int)
    requires
        0 <= from,
        forall|i: int|
            0 <= i < variants.len() ==> variant_error((#[trigger] variants[i]).fields@) is None,
    ensures
        enum_error(variants, from) is None,
    decreases variants.len() - from,
{
    if from < variants.len() {
        assert(variant_error(variants[from].fields@) is None);
        lemma_no_enum_error(variants, from + 1);
    }
}

/// Cases whose fields have no directives generate nothing.
pub proof fn lemma_no_directives_no_fragments(variants: Seq<SynVariant>)
    requires
        forall|i: int, j: int|
            0 <= i < variants.len() && 0 <= j < variants[i].fields@.len() ==> (
            #[trigger] variants[i].fields@[j]).directives@ == Seq::<DirectiveView>::empty(),
    ensures
        variants.map_values(|variant: SynVariant| variant_fragments(variant)).flatten() == Seq::<
            FragmentView,
        >::empty(),
    decreases variants.len(),
{
    let per_variant = variants.map_values(|variant: SynVariant| variant_fragments(variant));
    if variants.len() == 0 {
        assert(per_variant.flatten() =~= Seq::<FragmentView>::empty());
    } else {
        let rest = variants.drop_last();
        assert forall|i: int, j: int|
            0 <= i < rest.len() && 0 <= j < rest[i].fields@.len() implies (
        #[trigger] rest[i].fields@[j]).directives@ == Seq::<DirectiveView>::empty() by {
            assert(rest[i] == variants[i]);
            assert(variants[i].fields@[j].directives@ == Seq::<DirectiveView>::empty());
        }
        lemma_no_directives_no_fragments(rest);
        let last = variants.last();
        lemma_variant_without_directives(last);
        assert(per_variant =~= rest.map_values(|variant: SynVariant| variant_fragments(variant)).push(
            variant_fragments(last),
        ));
        rest.map_values(|variant: SynVariant| variant_fragments(variant)).lemma_flatten_push(
            variant_fragments(last),
        );
    }
}

/// A case whose fields have no directives generates nothing.
pub proof fn lemma_variant_without_directives(variant: SynVariant)
    requires
        forall|j: int|
            0 <= j < variant.fields@.len() ==> (#[trigger] variant.fields@[j]).directives@ == Seq::<
                DirectiveView,
            >::empty(),
    ensures
        variant_fragments(variant) == Seq::<FragmentView>::empty(),
{
    lemma_fields_without_directives(variant.ident@, variant.fields@);
}

/// Fields of a case that have no directives generate nothing.
pub proof fn lemma_fields_without_directives(variant: IdentView, fields: Seq<SynField>)
    requires
        forall|j: int|
            0 <= j < fields.len() ==> (#[trigger] fields[j]).directives@ == Seq::<
                DirectiveView,
            >::empty(),
    ensures
        fields.map_values(|field: SynField| field_fragments(variant, field)).flatten() == Seq::<
            FragmentView,
        >::empty(),
    decreases fields.len(),
{
    let per_field = fields.map_values(|field: SynField| field_fragments(variant, field));
    if fields.len() == 0 {
        assert(per_field.flatten() =~= Seq::<FragmentView>::empty());
    } else {
        let rest = fields.drop_last();
        assert forall|j: int| 0 <= j < rest.len() implies (#[trigger] rest[j]).directives@ == Seq::<
            DirectiveView,
        >::empty() by {
            assert(rest[j] == fields[j]);
        }
        lemma_fields_without_directives(variant, rest);
        let last = fields.last();
        assert(last.directives@ == Seq::<DirectiveView>::empty());
        assert(last.directives@.map_values(
            |directive: DirectiveView|
                directive_fragments(variant, last.spec_member(), directive.kind),
        ) =~= Seq::<Seq<FragmentView>>::empty());
        assert(field_fragments(variant, last) =~= Seq::<FragmentView>::empty());
        assert(per_field =~= rest.map_values(
            |field: SynField| field_fragments(variant, field),
        ).push(field_fragments(variant, last)));
        rest.map_values(|field: SynField| field_fragments(variant, field)).lemma_flatten_push(
            field_fragments(variant, last),
        );
    }
}

/// Reading is idempotent on the engine's own output. Where `parsed` is what
/// reading some tagged union came to, and `output` is the declaration that
/// `parsed` holds, reading `output` cannot fail; and whatever it comes to
/// holds the fields of `output` as they are, with no directive, and
/// generates nothing beside the declaration.
pub proof fn lemma_reparse(
    item_enum: ItemEnum,
    parsed: SynItemEnum,
    output: ItemEnum,
    again: SynItemEnum,
)
    requires
        parsed.parsed_from(item_enum),
        output.ident == parsed.spec_ident(),
        output.generics == parsed.spec_generics(),
        output.variants@.len() == parsed.spec_variants().len(),
        forall|i: int|
            0 <= i < output.variants@.len() ==> {
                &&& (#[trigger] output.variants@[i]).ident == parsed.spec_variants()[i].ident
                &&& output.variants@[i].fields@.len() == parsed.spec_variants()[i].fields@.len()
            },
        forall|i: int, j: int|
            0 <= i < output.variants@.len() && 0 <= j < output.variants@[i].fields@.len()
                ==> #[trigger] output.variants@[i].fields@[j]
                == parsed.spec_variants()[i].fields@[j].field,
        again.parsed_from(output),
    ensures
        enum_error(output.variants@, 0) is None,
        again.spec_ident() == item_enum.ident,
        again.spec_generics() == item_enum.generics,
        forall|i: int, j: int|
            0 <= i < output.variants@.len() && 0 <= j < output.variants@[i].fields@.len() ==> {
                &&& (#[trigger] again.spec_variants()[i].fields@[j]).field.ident
                    == output.variants@[i].fields@[j].ident
                &&& again.spec_variants()[i].fields@[j].field.attrs@
                    == output.variants@[i].fields@[j].attrs@
                &&& again.spec_variants()[i].fields@[j].directives@ == Seq::<DirectiveView>::empty()
            },
        again.fragments() == seq![FragmentView::Item],
{
    assert forall|i: int| 0 <= i < output.variants@.len() implies variant_error(
        (#[trigger] output.variants@[i]).fields@,
    ) is None by {
        assert(is_variant_parsed_from(parsed.spec_variants()[i], item_enum.variants@[i]));
        assert forall|j: int| 0 <= j < output.variants@[i].fields@.len() implies #[trigger] output.variants@[i].fields@[j]
            == parsed.spec_variants()[i].fields@[j].field by {}
        lemma_reparse_variant(
            item_enum.variants@[i].fields@,
            parsed.spec_variants()[i].fields@,
            output.variants@[i].fields@,
        );
    }
    lemma_no_enum_error(output.variants@, 0);
    assert forall|i: int, j: int|
        0 <= i < output.variants@.len() && 0 <= j < output.variants@[i].fields@.len() implies {
        &&& (#[trigger] again.spec_variants()[i].fields@[j]).field.ident
            == output.variants@[i].fields@[j].ident
        &&& again.spec_variants()[i].fields@[j].field.attrs@ == output.variants@[i].fields@[j].attrs@
        &&& again.spec_variants()[i].fields@[j].directives@ == Seq::<DirectiveView>::empty()
    } by {
        assert(is_variant_parsed_from(parsed.spec_variants()[i], item_enum.variants@[i]));
        assert(is_variant_parsed_from(again.spec_variants()[i], output.variants@[i]));
        assert forall|k: int| 0 <= k < output.variants@[i].fields@.len() implies #[trigger] output.variants@[i].fields@[k]
            == parsed.spec_variants()[i].fields@[k].field by {}
        lemma_reparse_fields(
            item_enum.variants@[i].fields@,
            parsed.spec_variants()[i].fields@,
            output.variants@[i].fields@,
            again.spec_variants()[i].fields@,
        );
    }
    assert forall|i: int, j: int|
        0 <= i < again.spec_variants().len() && 0 <= j < again.spec_variants()[i].fields@.len() implies (
    #[trigger] again.spec_variants()[i].fields@[j]).directives@ == Seq::<DirectiveView>::empty() by {
        assert(is_variant_parsed_from(again.spec_variants()[i], output.variants@[i]));
    }
    lemma_no_directives_no_fragments(again.spec_variants());
    assert(again.fragments() =~= seq![FragmentView::Item]);
}

impl SynItemEnum {
    #[verifier::type_invariant]
    closed spec fn all_supported(&self) -> bool {
        forall|i: int| 0 <= i < self.variants@.len() ==> (#[trigger] self.variants@[i]).supported()
    }

    /// Whether anything can be generated, for a field of a tagged union,
    /// from a directive of kind `kind`: only a constructor can.
    pub open spec fn spec_can_generate(kind: DirectiveKindView) -> bool {
        kind is From || kind is Convert
    }

    /// Whether anything can be generated, for a field of a tagged union,
    /// from a directive of kind `kind`.
    pub fn can_generate(kind: &DirectiveKind) -> (r: bool)
        ensures
            r == Self::spec_can_generate(kind@),
    {
        match kind {
            DirectiveKind::From | DirectiveKind::Convert => true,
            _ => false,
        }
    }

    /// The cases, in the order of the declaration.
    pub closed spec fn spec_variants(&self) -> Seq<SynVariant> {
        self.variants@
    }

    /// The name of the tagged union.
    pub closed spec fn spec_ident(&self) -> Ident {
        self.ident
    }

    /// The generic parameters of the tagged union.
    pub closed spec fn spec_generics(&self) -> Generics {
        self.generics
    }

    /// The cases, in the order of the declaration.
    pub fn variants(&self) -> (r: &Vec<SynVariant>)
        ensures
            r@ == self.spec_variants(),
    {
        &self.variants
    }

    /// The name of the tagged union.
    pub fn ident(&self) -> (r: &Ident)
        ensures
            *r == self.spec_ident(),
    {
        &self.ident
    }

    /// The generic parameters of the tagged union.
    pub fn generics(&self) -> (r: &Generics)
        ensures
            *r == self.spec_generics(),
    {
        &self.generics
    }

    /// Whether `self` is what reading `item_enum` comes to: the same name
    /// and generic parameters, and each case read as
    /// [`is_variant_parsed_from`] says.
    pub open spec fn parsed_from(&self, item_enum: ItemEnum) -> bool {
        &&& self.spec_ident() == item_enum.ident
        &&& self.spec_generics() == item_enum.generics
        &&& self.spec_variants().len() == item_enum.variants@.len()
        &&& forall|i: int|
            0 <= i < item_enum.variants@.len() ==> is_variant_parsed_from(
                #[trigger] self.spec_variants()[i],
                item_enum.variants@[i],
            )
    }

    /// Reads a tagged union: its cases, in their order. The first case
    /// whose fields are refused ends the reading: its diagnostic comes back.
    pub fn parse(item_enum: ItemEnum) -> (r: Result<Self, Error>)
        ensures
            match r {
                Ok(parsed) => parsed.parsed_from(item_enum),
                Err(error) => enum_error(item_enum.variants@, 0) == Some(error@),
            },
            r is Ok <==> enum_error(item_enum.variants@, 0) is None,
    {
        let ItemEnum { ident, generics, variants } = item_enum;
        let ghost all = variants@;
        let mut rest = variants;
        let mut parsed: Vec<SynVariant> = Vec::new();
        proof {
            assert(rest@ =~= all.skip(0));
        }
        while rest.len() > 0
            invariant
                all == item_enum.variants@,
                parsed@.len() + rest@.len() == all.len(),
                rest@ == all.skip(parsed@.len() as int),
                enum_error(all, 0) == enum_error(all, parsed@.len() as int),
                forall|i: int|
                    0 <= i < parsed@.len() ==> is_variant_parsed_from(#[trigger] parsed@[i], all[i]),
            decreases rest.len(),
        {
            let ghost pos = parsed@.len() as int;
            let variant = rest.remove(0);
            proof {
                assert(variant == all[pos]) by {
                    assert(all.skip(pos)[0] == all[pos]);
                }
                assert(rest@ =~= all.skip(pos + 1));
            }
            let value = SynVariant::parse(variant)?;
            parsed.push(value);
        }
        Ok(SynItemEnum { ident, generics, variants: parsed })
    }

    /// The whole output for the tagged union: the declaration, then what
    /// the cases generate, one case after the other.
    pub open spec fn fragments(&self) -> Seq<FragmentView> {
        seq![FragmentView::Item] + self.spec_variants().map_values(
            |variant: SynVariant| variant_fragments(variant),
        ).flatten()
    }

    /// Appends the whole output for the tagged union to `tokens`.
    pub fn to_tokens(&self, tokens: &mut Vec<Fragment>)
        ensures
            final(tokens).deep_view() == old(tokens).deep_view() + self.fragments(),
    {
        proof {
            use_type_invariant(self);
        }
        tokens.push(Fragment::Item);
        let ghost per_variant = self.variants@.map_values(
            |variant: SynVariant| variant_fragments(variant),
        );
        let mut v: usize = 0;
        while v < self.variants.len()
            invariant
                0 <= v <= self.variants@.len(),
                self.all_supported(),
                per_variant == self.variants@.map_values(
                    |variant: SynVariant| variant_fragments(variant),
                ),
                tokens.deep_view() == old(tokens).deep_view() + seq![FragmentView::Item]
                    + per_variant.take(v as int).flatten(),
            decreases self.variants@.len() - v,
        {
            let variant = &self.variants[v];
            assert(variant.supported());
            let ghost per_field = variant.fields@.map_values(
                |field: SynField| field_fragments(variant.ident@, field),
            );
            let ghost before_variant = tokens.deep_view();
            let mut i: usize = 0;
            while i < variant.fields.len()
                invariant
                    0 <= i <= variant.fields@.len(),
                    variant.supported(),
                    per_field == variant.fields@.map_values(
                        |field: SynField| field_fragments(variant.ident@, field),
                    ),
                    tokens.deep_view() == before_variant + per_field.take(i as int).flatten(),
                decreases variant.fields@.len() - i,
            {
                let field = &variant.fields[i];
                let directives = field.directives.iter();
                let ghost per_directive = field.directives@.map_values(
                    |directive: DirectiveView|
                        directive_fragments(variant.ident@, field.spec_member(), directive.kind),
                );
                let ghost before = tokens.deep_view();
                let mut j: usize = 0;
                while j < directives.len()
                    invariant
                        0 <= j <= directives@.len(),
                        0 <= i < variant.fields@.len(),
                        *field == variant.fields@[i as int],
                        variant.supported(),
                        directives.deep_view() == field.directives@,
                        per_directive == field.directives@.map_values(
                            |directive: DirectiveView|
                                directive_fragments(
                                    variant.ident@,
                                    field.spec_member(),
                                    directive.kind,
                                ),
                        ),
                        tokens.deep_view() == before + per_directive.take(j as int).flatten(),
                    decreases directives@.len() - j,
                {
                    assert(directives[j as int]@ == variant.fields@[i as int].directives@[j as int]);
                    // every directive held can be generated from, so none is refused here
                    let _ = directive_to_tokens(variant, field, &directives[j], tokens);
                    proof {
                        assert(per_directive.take(j + 1) == per_directive.take(j as int).push(
                            per_directive[j as int],
                        ));
                        per_directive.take(j as int).lemma_flatten_push(per_directive[j as int]);
                    }
                    j += 1;
                }
                proof {
                    assert(per_directive.take(j as int) == per_directive);
                    assert(per_field[i as int] == field_fragments(variant.ident@, *field));
                    assert(per_field.take(i + 1) == per_field.take(i as int).push(
                        per_field[i as int],
                    ));
                    per_field.take(i as int).lemma_flatten_push(per_field[i as int]);
                }
                i += 1;
            }
            proof {
                assert(per_field.take(i as int) == per_field);
                assert(per_variant[v as int] == variant_fragments(*variant));
                assert(per_variant.take(v + 1) == per_variant.take(v as int).push(
                    per_variant[v as int],
                ));
                per_variant.take(v as int).lemma_flatten_push(per_variant[v as int]);
            }
            v += 1;
        }
        proof {
            assert(per_variant.take(v as int) == per_variant);
        }
    }
}

/// Appends what `directive` generates for `field` of the case `variant`.
/// A directive from which nothing can be generated for a tagged union is
/// refused, and nothing is appended for it.
fn directive_to_tokens(
    variant: &SynVariant,
    field: &SynField,
    directive: &Directive,
    tokens: &mut Vec<Fragment>,
) -> (r: Result<(), Error>)
    ensures
        match r {
            Ok(_) => {
                &&& SynItemEnum::spec_can_generate(directive@.kind)
                &&& final(tokens).deep_view() == old(tokens).deep_view() + directive_fragments(
                    variant.ident@,
                    field.spec_member(),
                    directive@.kind,
                )
            },
            Err(error) => {
                &&& !SynItemEnum::spec_can_generate(directive@.kind)
                &&& error@ == unsupported_error(directive@)
                &&& *final(tokens) == *old(tokens)
            },
        },
{
    match &directive.kind {
        DirectiveKind::From => {
            from_to_tokens(variant, field, tokens);
            Ok(())
        },
        DirectiveKind::Convert => {
            from_to_tokens(variant, field, tokens);
            Ok(())
        },
        DirectiveKind::Into
        | DirectiveKind::GetRef(_)
        | DirectiveKind::GetCopy(_)
        | DirectiveKind::GetClone(_)
        | DirectiveKind::GetMut(_)
        | DirectiveKind::Access(_)
        | DirectiveKind::AsRef
        | DirectiveKind::AsMut
        | DirectiveKind::As
        | DirectiveKind::Deref
        | DirectiveKind::DerefMut => Err(
            Error::new(
                directive.span(),
                ErrorKind::UnsupportedForEnum { directive: String::from_str(directive.kind.name()) },
            ),
        ),
    }
}

fn from_to_tokens(variant: &SynVariant, field: &SynField, tokens: &mut Vec<Fragment>)
    ensures
        final(tokens).deep_view() == old(tokens).deep_view() + seq![
            FragmentView::From { variant: Some(variant.ident@), member: field.spec_member() },
            FragmentView::BoxedFrom { variant: Some(variant.ident@), member: field.spec_member() },
        ],
{
    tokens.push(
        Fragment::From { variant: Some(variant.ident.clone()), member: field.member() },
    );
    tokens.push(
        Fragment::BoxedFrom { variant: Some(variant.ident.clone()), member: field.member() },
    );
}

} // verus!
