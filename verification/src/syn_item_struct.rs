use vstd::prelude::*;

use crate::access_params::GetRefType;
use crate::declaration::Generics;
use crate::declaration::ItemStruct;
use crate::directive::Directive;
use crate::directive::DirectiveKind;
use crate::directive::DirectiveKindView;
use crate::directive::DirectiveView;
use crate::fragment::Fragment;
use crate::fragment::FragmentView;
use crate::error::Error;
use crate::fragment::MemberView;
use crate::syn_field::SynField;
use crate::syn_field::first_error;
use crate::syn_field::is_parsed_from;
use crate::syn_field::lemma_reparse_fields;
use crate::token::Ident;
use crate::token::IdentView;

verus! {

/// A record type after the engine has read it.
#[derive(Debug, PartialEq, Eq)]
pub struct SynItemStruct {
    ident: Ident,
    generics: Generics,
    fields: Vec<SynField>,
}

/// The read accessor of the given style.
pub open spec fn getter_fragment(style: GetRefType, name: IdentView, member: MemberView) -> FragmentView {
    match style {
        GetRefType::Ref => FragmentView::GetRef { name, member },
        GetRefType::Copy => FragmentView::GetCopy { name, member },
        GetRefType::Clone => FragmentView::GetClone { name, member },
    }
}

/// What one directive generates for a field of a record type, in order.
pub open spec fn directive_fragments(member: MemberView, kind: DirectiveKindView) -> Seq<FragmentView> {
    match kind {
        DirectiveKindView::From => seq![
            FragmentView::From { variant: None, member },
            FragmentView::BoxedFrom { variant: None, member },
        ],
        DirectiveKindView::Into => seq![FragmentView::Into { member }],
        DirectiveKindView::Convert => seq![
            FragmentView::From { variant: None, member },
            FragmentView::BoxedFrom { variant: None, member },
            FragmentView::Into { member },
        ],
        DirectiveKindView::Deref => seq![FragmentView::Deref { member }],
        DirectiveKindView::DerefMut => seq![
            FragmentView::Deref { member },
            FragmentView::DerefMut { member },
        ],
        DirectiveKindView::AsRef => seq![FragmentView::AsRef { member }],
        DirectiveKindView::AsMut => seq![FragmentView::AsMut { member }],
        DirectiveKindView::As => seq![FragmentView::AsRef { member }, FragmentView::AsMut { member }],
        DirectiveKindView::GetRef(params) => seq![FragmentView::GetRef { name: params.name, member }],
        DirectiveKindView::GetCopy(params) => seq![FragmentView::GetCopy { name: params.name, member }],
        DirectiveKindView::GetClone(params) => seq![
            FragmentView::GetClone { name: params.name, member },
        ],
        DirectiveKindView::GetMut(params) => seq![FragmentView::GetMut { name: params.name, member }],
        DirectiveKindView::Access(params) => seq![
            getter_fragment(params.get_ref_type, params.get_name, member),
            FragmentView::GetMut { name: params.get_mut_name, member },
        ],
    }
}

/// What the directives of one field of a record type generate: what each
/// generates, one directive after the other.
pub open spec fn field_fragments(field: SynField) -> Seq<FragmentView> {
    field.directives@.map_values(
        |directive: DirectiveView| directive_fragments(field.spec_member(), directive.kind),
    ).flatten()
}

/// Fields without directives generate nothing.
pub proof fn lemma_no_directives_no_fragments(fields: Seq<SynField>)
    requires
        forall|i: int|
            0 <= i < fields.len() ==> (#[trigger] fields[i]).directives@ == Seq::<
                DirectiveView,
            >::empty(),
    ensures
        fields.map_values(|field: SynField| field_fragments(field)).flatten() == Seq::<
            FragmentView,
        >::empty(),
    decreases fields.len(),
{
    let per_field = fields.map_values(|field: SynField| field_fragments(field));
    if fields.len() == 0 {
        assert(per_field.flatten() =~= Seq::<FragmentView>::empty());
    } else {
        let rest = fields.drop_last();
        assert forall|i: int| 0 <= i < rest.len() implies (#[trigger] rest[i]).directives@ == Seq::<
            DirectiveView,
        >::empty() by {
            assert(rest[i] == fields[i]);
        }
        lemma_no_directives_no_fragments(rest);
        let last = fields.last();
        assert(last.directives@ == Seq::<DirectiveView>::empty());
        assert(last.directives@.map_values(
            |directive: DirectiveView| directive_fragments(last.spec_member(), directive.kind),
        ) =~= Seq::<Seq<FragmentView>>::empty());
        assert(field_fragments(last) =~= Seq::<FragmentView>::empty());
        assert(per_field =~= rest.map_values(|field: SynField| field_fragments(field)).push(
            field_fragments(last),
        ));
        rest.map_values(|field: SynField| field_fragments(field)).lemma_flatten_push(
            field_fragments(last),
        );
    }
}

/// Reading is idempotent on the engine's own output. Where `parsed` is what
/// reading some record type came to, and `output` is the declaration that
/// `parsed` holds, reading `output` cannot fail; and whatever it comes to
/// holds the fields of `output` as they are, with no directive, and
/// generates nothing beside the declaration.
pub proof fn lemma_reparse(
    item_struct: ItemStruct,
    parsed: SynItemStruct,
    output: ItemStruct,
    again: SynItemStruct,
)
    requires
        parsed.parsed_from(item_struct),
        output.ident == parsed.spec_ident(),
        output.generics == parsed.spec_generics(),
        output.fields@.len() == parsed.spec_fields().len(),
        forall|i: int|
            0 <= i < output.fields@.len() ==> #[trigger] output.fields@[i]
                == parsed.spec_fields()[i].field,
        again.parsed_from(output),
    ensures
        first_error(output.fields@) is None,
        again.spec_ident() == item_struct.ident,
        again.spec_generics() == item_struct.generics,
        forall|i: int|
            0 <= i < output.fields@.len() ==> {
                &&& (#[trigger] again.spec_fields()[i]).field.ident == output.fields@[i].ident
                &&& again.spec_fields()[i].field.attrs@ == output.fields@[i].attrs@
                &&& again.spec_fields()[i].directives@ == Seq::<DirectiveView>::empty()
            },
        again.fragments() == seq![FragmentView::Item],
{
    lemma_reparse_fields(
        item_struct.fields@,
        parsed.spec_fields(),
        output.fields@,
        again.spec_fields(),
    );
    lemma_no_directives_no_fragments(again.spec_fields());
    assert(again.fragments() =~= seq![FragmentView::Item]);
}

impl SynItemStruct {
    /// The fields, in the order of the declaration.
    pub closed spec fn spec_fields(&self) -> Seq<SynField> {
        self.fields@
    }

    /// The name of the record type.
    pub closed spec fn spec_ident(&self) -> Ident {
        self.ident
    }

    /// The generic parameters of the record type.
    pub closed spec fn spec_generics(&self) -> Generics {
        self.generics
    }

    /// The fields, in the order of the declaration.
    pub fn fields(&self) -> (r: &Vec<SynField>)
        ensures
            r@ == self.spec_fields(),
    {
        &self.fields
    }

    /// The name of the record type.
    pub fn ident(&self) -> (r: &Ident)
        ensures
            *r == self.spec_ident(),
    {
        &self.ident
    }

    /// The generic parameters of the record type.
    pub fn generics(&self) -> (r: &Generics)
        ensures
            *r == self.spec_generics(),
    {
        &self.generics
    }

    /// Whether `self` is what reading `item_struct` comes to: the same name
    /// and generic parameters, and each field read as
    /// [`is_parsed_from`] says.
    pub open spec fn parsed_from(&self, item_struct: ItemStruct) -> bool {
        &&& self.spec_ident() == item_struct.ident
        &&& self.spec_generics() == item_struct.generics
        &&& self.spec_fields().len() == item_struct.fields@.len()
        &&& forall|i: int|
            0 <= i < item_struct.fields@.len() ==> is_parsed_from(
                #[trigger] self.spec_fields()[i],
                item_struct.fields@[i],
                i,
            )
    }

    /// Whether anything can be generated, for a field of a record type,
    /// from a directive of kind `kind`: from every kind something can.
    pub open spec fn spec_can_generate(kind: DirectiveKindView) -> bool {
        true
    }

    /// Whether anything can be generated, for a field of a record type,
    /// from a directive of kind `kind`.
    pub fn can_generate(kind: &DirectiveKind) -> (r: bool)
        ensures
            r == Self::spec_can_generate(kind@),
    {
        true
    }

    /// Reads a record type: its fields, in their order. The first field
    /// whose annotations cannot be read, or hold directives that cannot
    /// stand together, ends the reading: its diagnostic comes back.
    pub fn parse(item_struct: ItemStruct) -> (r: Result<Self, Error>)
        ensures
            match r {
                Ok(parsed) => parsed.parsed_from(item_struct),
                Err(error) => first_error(item_struct.fields@) == Some(error@),
            },
            r is Ok <==> first_error(item_struct.fields@) is None,
    {
        let ItemStruct { ident, generics, fields } = item_struct;
        let fields = SynField::parse(fields)?;
        Ok(SynItemStruct { ident, generics, fields })
    }

    /// The whole output for the record type: the declaration, then what the
    /// fields generate, one field after the other.
    pub open spec fn fragments(&self) -> Seq<FragmentView> {
        seq![FragmentView::Item] + self.spec_fields().map_values(
            |field: SynField| field_fragments(field),
        ).flatten()
    }

    /// Appends the whole output for the record type to `tokens`.
    pub fn to_tokens(&self, tokens: &mut Vec<Fragment>)
        ensures
            final(tokens).deep_view() == old(tokens).deep_view() + self.fragments(),
    {
        tokens.push(Fragment::Item);
        let ghost per_field = self.fields@.map_values(|field: SynField| field_fragments(field));
        let mut i: usize = 0;
        while i < self.fields.len()
            invariant
                i <= self.fields@.len(),
                per_field == self.fields@.map_values(|field: SynField| field_fragments(field)),
                tokens.deep_view() == old(tokens).deep_view() + seq![FragmentView::Item]
                    + per_field.take(i as int).flatten(),
            decreases self.fields@.len() - i,
        {
            let field = &self.fields[i];
            let directives = field.directives.iter();
            let ghost per_directive = field.directives@.map_values(
                |directive: DirectiveView| directive_fragments(field.spec_member(), directive.kind),
            );
            let ghost before = tokens.deep_view();
            let mut j: usize = 0;
            while j < directives.len()
                invariant
                    j <= directives@.len(),
                    directives.deep_view() == field.directives@,
                    per_directive == field.directives@.map_values(
                        |directive: DirectiveView|
                            directive_fragments(field.spec_member(), directive.kind),
                    ),
                    tokens.deep_view() == before + per_directive.take(j as int).flatten(),
                decreases directives@.len() - j,
            {
                directive_to_tokens(field, &directives[j], tokens);
                proof {
                    assert(per_directive.take(j + 1) == per_directive.take(j as int).push(
                        per_directive[j as int],
                    ));
                    per_directive.take(j as int).lemma_flatten_push(per_directive[j as int]);
                }
                j += 1;
            }
            proof {
                assert(per_directive.take(j as int) == per_directive);
                assert(per_field[i as int] == field_fragments(*field));
                assert(per_field.take(i + 1) == per_field.take(i as int).push(per_field[i as int]));
                per_field.take(i as int).lemma_flatten_push(per_field[i as int]);
            }
            i += 1;
        }
        proof {
            assert(per_field.take(i as int) == per_field);
        }
    }
}

/// Appends what `directive` generates for `field` of a record type.
fn directive_to_tokens(field: &SynField, directive: &Directive, tokens: &mut Vec<Fragment>)
    ensures
        final(tokens).deep_view() == old(tokens).deep_view() + directive_fragments(
            field.spec_member(),
            directive@.kind,
        ),
{
    match &directive.kind {
        DirectiveKind::From => {
            from_to_tokens(field, tokens);
        },
        DirectiveKind::Into => {
            into_to_tokens(field, tokens);
        },
        DirectiveKind::Convert => {
            from_to_tokens(field, tokens);
            into_to_tokens(field, tokens);
        },
        DirectiveKind::Deref => {
            deref_to_tokens(field, tokens);
        },
        DirectiveKind::DerefMut => {
            deref_to_tokens(field, tokens);
            deref_mut_to_tokens(field, tokens);
        },
        DirectiveKind::AsRef => {
            as_ref_to_tokens(field, tokens);
        },
        DirectiveKind::AsMut => {
            as_mut_to_tokens(field, tokens);
        },
        DirectiveKind::As => {
            as_ref_to_tokens(field, tokens);
            as_mut_to_tokens(field, tokens);
        },
        DirectiveKind::GetRef(params) => {
            get_ref_to_tokens(&params.name, field, tokens);
        },
        DirectiveKind::GetCopy(params) => {
            get_copy_to_tokens(&params.name, field, tokens);
        },
        DirectiveKind::GetClone(params) => {
            get_clone_to_tokens(&params.name, field, tokens);
        },
        DirectiveKind::GetMut(params) => {
            get_mut_to_tokens(&params.name, field, tokens);
        },
        DirectiveKind::Access(params) => {
            match params.get_ref_type {
                GetRefType::Ref => get_ref_to_tokens(&params.get_name, field, tokens),
                GetRefType::Clone => get_clone_to_tokens(&params.get_name, field, tokens),
                GetRefType::Copy => get_copy_to_tokens(&params.get_name, field, tokens),
            }
            get_mut_to_tokens(&params.get_mut_name, field, tokens);
        },
    }
}

fn from_to_tokens(field: &SynField, tokens: &mut Vec<Fragment>)
    ensures
        final(tokens).deep_view() == old(tokens).deep_view() + seq![
            FragmentView::From { variant: None, member: field.spec_member() },
            FragmentView::BoxedFrom { variant: None, member: field.spec_member() },
        ],
{
    tokens.push(Fragment::From { variant: None, member: field.member() });
    tokens.push(Fragment::BoxedFrom { variant: None, member: field.member() });
}

fn into_to_tokens(field: &SynField, tokens: &mut Vec<Fragment>)
    ensures
        final(tokens).deep_view() == old(tokens).deep_view() + seq![
            FragmentView::Into { member: field.spec_member() },
        ],
{
    tokens.push(Fragment::Into { member: field.member() });
}

fn deref_to_tokens(field: &SynField, tokens: &mut Vec<Fragment>)
    ensures
        final(tokens).deep_view() == old(tokens).deep_view() + seq![
            FragmentView::Deref { member: field.spec_member() },
        ],
{
    tokens.push(Fragment::Deref { member: field.member() });
}

fn deref_mut_to_tokens(field: &SynField, tokens: &mut Vec<Fragment>)
    ensures
        final(tokens).deep_view() == old(tokens).deep_view() + seq![
            FragmentView::DerefMut { member: field.spec_member() },
        ],
{
    tokens.push(Fragment::DerefMut { member: field.member() });
}

fn as_ref_to_tokens(field: &SynField, tokens: &mut Vec<Fragment>)
    ensures
        final(tokens).deep_view() == old(tokens).deep_view() + seq![
            FragmentView::AsRef { member: field.spec_member() },
        ],
{
    tokens.push(Fragment::AsRef { member: field.member() });
}

fn as_mut_to_tokens(field: &SynField, tokens: &mut Vec<Fragment>)
    ensures
        final(tokens).deep_view() == old(tokens).deep_view() + seq![
            FragmentView::AsMut { member: field.spec_member() },
        ],
{
    tokens.push(Fragment::AsMut { member: field.member() });
}

fn get_ref_to_tokens(fn_name: &Ident, field: &SynField, tokens: &mut Vec<Fragment>)
    ensures
        final(tokens).deep_view() == old(tokens).deep_view() + seq![
            FragmentView::GetRef { name: fn_name@, member: field.spec_member() },
        ],
{
    tokens.push(Fragment::GetRef { name: fn_name.clone(), member: field.member() });
}

fn get_clone_to_tokens(fn_name: &Ident, field: &SynField, tokens: &mut Vec<Fragment>)
    ensures
        final(tokens).deep_view() == old(tokens).deep_view() + seq![
            FragmentView::GetClone { name: fn_name@, member: field.spec_member() },
        ],
{
    tokens.push(Fragment::GetClone { name: fn_name.clone(), member: field.member() });
}

fn get_copy_to_tokens(fn_name: &Ident, field: &SynField, tokens: &mut Vec<Fragment>)
    ensures
        final(tokens).deep_view() == old(tokens).deep_view() + seq![
            FragmentView::GetCopy { name: fn_name@, member: field.spec_member() },
        ],
{
    tokens.push(Fragment::GetCopy { name: fn_name.clone(), member: field.member() });
}

fn get_mut_to_tokens(fn_name: &Ident, field: &SynField, tokens: &mut Vec<Fragment>)
    ensures
        final(tokens).deep_view() == old(tokens).deep_view() + seq![
            FragmentView::GetMut { name: fn_name@, member: field.spec_member() },
        ],
{
    tokens.push(Fragment::GetMut { name: fn_name.clone(), member: field.member() });
}

} // verus!
