use vstd::prelude::*;

use crate::ATTRIBUTE_NAME;
use crate::are_path_segments_equal;
use crate::declaration::Attribute;
use crate::declaration::Field;
use crate::declaration::Meta;
use crate::directive::DirectiveView;
use crate::directives::Directives;
use crate::directives::consistent;
use crate::directives::merged;
use crate::error::Error;
use crate::error::ErrorView;
use crate::fragment::Member;
use crate::fragment::MemberView;
use crate::parse_stream::ParseStream;
use crate::parse_stream::flat;
use crate::path_is;
use crate::token::IdentView;

verus! {

/// A field after the engine has read it: its position among its siblings,
/// what is left of its declaration, and the directives it carried.
#[derive(Debug, PartialEq, Eq)]
pub struct SynField {
    pub index: usize,
    pub field: Field,
    pub directives: Directives,
}

/// How generated code addresses a field of the given name, or, where it has
/// none, the field at the given position.
pub open spec fn member_of(ident: Option<IdentView>, index: usize) -> MemberView {
    match ident {
        Some(ident) => MemberView::Named(ident),
        None => MemberView::Unnamed(index),
    }
}

/// Whether `attr` is an annotation that holds directives: `#[attrimpl(...)]`.
pub open spec fn holds_directives(attr: Attribute) -> bool {
    attr.meta == Meta::List && path_is(attr.path.deep_view(), seq![ATTRIBUTE_NAME])
}

/// Whether `attr` is an annotation that the engine takes out of the
/// declaration: one that holds directives, or `#[attrimpl::display(...)]`.
pub open spec fn is_recognized(attr: Attribute) -> bool {
    attr.meta == Meta::List && (path_is(attr.path.deep_view(), seq![ATTRIBUTE_NAME]) || path_is(
        attr.path.deep_view(),
        seq![ATTRIBUTE_NAME, "display"],
    ))
}

/// The attributes that stay on a field: those that the engine does not
/// recognize, in their order.
pub open spec fn kept_attrs(attrs: Seq<Attribute>) -> Seq<Attribute> {
    attrs.filter(|attr: Attribute| !is_recognized(attr))
}

/// The directives of a field with the attributes `attrs`, from the
/// attribute at `pos` on, `seen` being the directives of the attributes
/// before it. Each annotation that holds directives is read by itself and
/// then joined to those before it, in the order of the attributes. The
/// first that cannot be read, or that cannot join, ends the reading.
pub open spec fn directives_of(
    attrs: Seq<Attribute>,
    pos: int,
    default_name: Option<IdentView>,
    seen: Seq<DirectiveView>,
) -> Result<Seq<DirectiveView>, ErrorView>
    decreases attrs.len() - pos,
{
    if !(0 <= pos < attrs.len()) {
        Ok(seen)
    } else if holds_directives(attrs[pos]) {
        match Directives::spec_parse(flat(attrs[pos].tokens@), 0, attrs[pos].span, default_name) {
            Err(error) => Err(error),
            Ok(block) => match merged(seen, block, 0).1 {
                Some(error) => Err(error),
                None => directives_of(attrs, pos + 1, default_name, merged(seen, block, 0).0),
            },
        }
    } else {
        directives_of(attrs, pos + 1, default_name, seen)
    }
}

/// The directives of `field`: see [`directives_of`].
pub open spec fn field_directives(field: Field) -> Result<Seq<DirectiveView>, ErrorView> {
    directives_of(field.attrs@, 0, field.ident.deep_view(), Seq::empty())
}

/// Whether `parsed` is what reading `field`, the field at position `index`,
/// comes to: the field without the annotations that the engine recognizes,
/// and with its directives.
pub open spec fn is_parsed_from(parsed: SynField, field: Field, index: int) -> bool {
    &&& parsed.index == index
    &&& parsed.field.ident == field.ident
    &&& parsed.field.attrs@ == kept_attrs(field.attrs@)
    &&& field_directives(field) == Ok::<Seq<DirectiveView>, ErrorView>(parsed.directives@)
    &&& consistent(parsed.directives@)
}

/// The diagnostic of the first of `fields`, in order, whose directives
/// cannot be read; `None` where those of every field can.
pub open spec fn first_error(fields: Seq<Field>) -> Option<ErrorView>
    decreases fields.len(),
{
    if fields.len() == 0 {
        None
    } else {
        match field_directives(fields[0]) {
            Err(error) => Some(error),
            Ok(_) => first_error(fields.drop_first()),
        }
    }
}

/// The field whose diagnostic [`first_error`] gives is the first that has
/// one: where the directives of every field before some field can be read
/// and its own cannot, its diagnostic is the one.
pub proof fn lemma_first_error(fields: Seq<Field>, error: ErrorView)
    requires
        exists|i: int|
            {
                &&& 0 <= i < fields.len()
                &&& #[trigger] field_directives(fields[i]) == Err::<Seq<DirectiveView>, ErrorView>(
                    error,
                )
                &&& forall|j: int| 0 <= j < i ==> (#[trigger] field_directives(fields[j])) is Ok
            },
    ensures
        first_error(fields) == Some(error),
    decreases fields.len(),
{
    let i = choose|i: int|
        {
            &&& 0 <= i < fields.len()
            &&& #[trigger] field_directives(fields[i]) == Err::<Seq<DirectiveView>, ErrorView>(error)
            &&& forall|j: int| 0 <= j < i ==> (#[trigger] field_directives(fields[j])) is Ok
        };
    if i > 0 {
        let rest = fields.drop_first();
        assert(field_directives(fields[0]) is Ok);
        assert(field_directives(rest[i - 1]) == Err::<Seq<DirectiveView>, ErrorView>(error));
        assert forall|j: int| 0 <= j < i - 1 implies (#[trigger] field_directives(rest[j])) is Ok by {
            assert(field_directives(fields[j + 1]) is Ok);
        }
        lemma_first_error(rest, error);
    }
}

/// Where every field's directives can be read, there is no diagnostic.
pub proof fn lemma_no_error(fields: Seq<Field>)
    requires
        forall|i: int| 0 <= i < fields.len() ==> (#[trigger] field_directives(fields[i])) is Ok,
    ensures
        first_error(fields) is None,
    decreases fields.len(),
{
    if fields.len() > 0 {
        let rest = fields.drop_first();
        assert(field_directives(fields[0]) is Ok);
        assert forall|i: int| 0 <= i < rest.len() implies (#[trigger] field_directives(rest[i])) is Ok by {
            assert(field_directives(fields[i + 1]) is Ok);
        }
        lemma_no_error(rest);
    }
}

/// A run of attributes of which the engine recognizes none stays as it is
/// when the engine takes out what it recognizes.
pub proof fn lemma_kept_attrs_fixed(attrs: Seq<Attribute>)
    requires
        forall|i: int| 0 <= i < attrs.len() ==> !is_recognized(#[trigger] attrs[i]),
    ensures
        kept_attrs(attrs) == attrs,
    decreases attrs.len(),
{
    reveal(Seq::filter);
    if attrs.len() > 0 {
        let rest = attrs.drop_last();
        assert forall|i: int| 0 <= i < rest.len() implies !is_recognized(#[trigger] rest[i]) by {
            assert(rest[i] == attrs[i]);
        }
        lemma_kept_attrs_fixed(rest);
        assert(!is_recognized(attrs.last()));
        assert(rest.push(attrs.last()) =~= attrs);
    } else {
        assert(kept_attrs(attrs) =~= attrs);
    }
}

/// A field of whose attributes the engine recognizes none has no
/// directives: whatever was read before is all there is.
pub proof fn lemma_no_directives(
    attrs: Seq<Attribute>,
    pos: int,
    default_name: Option<IdentView>,
    seen: Seq<DirectiveView>,
)
    requires
        0 <= pos,
        forall|i: int| 0 <= i < attrs.len() ==> !is_recognized(#[trigger] attrs[i]),
    ensures
        directives_of(attrs, pos, default_name, seen) == Ok::<Seq<DirectiveView>, ErrorView>(seen),
    decreases attrs.len() - pos,
{
    if pos < attrs.len() {
        assert(!is_recognized(attrs[pos]));
        lemma_no_directives(attrs, pos + 1, default_name, seen);
    }
}

/// Reading is idempotent on what it leaves of a field. Where `parsed` is
/// what reading some field came to, reading the field that `parsed` holds
/// takes no attribute out of it, cannot fail, and finds no directive.
pub proof fn lemma_reparse_field(field: Field, parsed: SynField, index: int)
    requires
        is_parsed_from(parsed, field, index),
    ensures
        kept_attrs(parsed.field.attrs@) == parsed.field.attrs@,
        field_directives(parsed.field) == Ok::<Seq<DirectiveView>, ErrorView>(Seq::empty()),
{
    let pred = |attr: Attribute| !is_recognized(attr);
    let kept = parsed.field.attrs@;
    assert(kept == field.attrs@.filter(pred));
    assert forall|i: int| 0 <= i < kept.len() implies !is_recognized(#[trigger] kept[i]) by {
        field.attrs@.lemma_filter_pred(pred, i);
    }
    lemma_kept_attrs_fixed(kept);
    lemma_no_directives(kept, 0, parsed.field.ident.deep_view(), Seq::empty());
}

/// Reading is idempotent on what it leaves of a run of fields. Where
/// `parsed` is what reading `fields` came to, and `output` holds the fields
/// that `parsed` holds, reading `output` cannot fail; and whatever it comes
/// to holds the fields of `output` as they are, with no directive.
pub proof fn lemma_reparse_fields(
    fields: Seq<Field>,
    parsed: Seq<SynField>,
    output: Seq<Field>,
    again: Seq<SynField>,
)
    requires
        parsed.len() == fields.len(),
        forall|i: int| 0 <= i < fields.len() ==> is_parsed_from(#[trigger] parsed[i], fields[i], i),
        output.len() == parsed.len(),
        forall|i: int| 0 <= i < output.len() ==> #[trigger] output[i] == parsed[i].field,
        again.len() == output.len(),
        forall|i: int| 0 <= i < output.len() ==> is_parsed_from(#[trigger] again[i], output[i], i),
    ensures
        first_error(output) is None,
        forall|i: int|
            0 <= i < output.len() ==> {
                &&& (#[trigger] again[i]).field.ident == output[i].ident
                &&& again[i].field.attrs@ == output[i].attrs@
                &&& again[i].directives@ == Seq::<DirectiveView>::empty()
            },
{
    assert forall|i: int| 0 <= i < output.len() implies (#[trigger] field_directives(output[i])) is Ok by {
        lemma_reparse_field(fields[i], parsed[i], i);
    }
    lemma_no_error(output);
    assert forall|i: int| 0 <= i < output.len() implies {
        &&& (#[trigger] again[i]).field.ident == output[i].ident
        &&& again[i].field.attrs@ == output[i].attrs@
        &&& again[i].directives@ == Seq::<DirectiveView>::empty()
    } by {
        lemma_reparse_field(fields[i], parsed[i], i);
        assert(is_parsed_from(again[i], output[i], i));
    }
}

impl SynField {
    /// Reads one field, the one at position `index` among its siblings.
    fn parse_one(field: Field, index: usize) -> (r: Result<SynField, Error>)
        ensures
            match r {
                Ok(parsed) => is_parsed_from(parsed, field, index as int),
                Err(error) => field_directives(field) == Err::<Seq<DirectiveView>, ErrorView>(
                    error@,
                ),
            },
    {
        let Field { attrs, ident } = field;
        let ghost all = attrs@;
        let mut rest = attrs;
        let mut kept: Vec<Attribute> = Vec::new();
        let mut directives = Directives::default();
        let ghost mut pos: int = 0;
        proof {
            reveal(Seq::filter);
            assert(all.take(0) =~= Seq::<Attribute>::empty());
            assert(rest@ =~= all.skip(0));
        }
        while rest.len() > 0
            invariant
                all == field.attrs@,
                ident == field.ident,
                0 <= pos <= all.len(),
                rest@ == all.skip(pos),
                kept@ == kept_attrs(all.take(pos)),
                consistent(directives@),
                directives_of(all, 0, ident.deep_view(), Seq::empty()) == directives_of(
                    all,
                    pos,
                    ident.deep_view(),
                    directives@,
                ),
            decreases rest.len(),
        {
            let attr = rest.remove(0);
            proof {
                assert(attr == all[pos]) by {
                    assert(all.skip(pos)[0] == all[pos]);
                }
                assert(rest@ =~= all.skip(pos + 1));
                assert(all.take(pos + 1).drop_last() =~= all.take(pos));
                assert(all.take(pos + 1).last() == attr);
                reveal(Seq::filter);
            }
            let is_list = match attr.meta {
                Meta::List => true,
                _ => false,
            };
            if is_list && are_path_segments_equal(&attr.path, &[ATTRIBUTE_NAME]) {
                assert([ATTRIBUTE_NAME]@ =~= seq![ATTRIBUTE_NAME]);
                let tmp = Directives::parse(ParseStream::new(&attr.tokens, attr.span), ident.clone())?;
                directives.extend_from(tmp)?;
            } else if is_list && are_path_segments_equal(&attr.path, &[ATTRIBUTE_NAME, "display"]) {
                assert([ATTRIBUTE_NAME]@ =~= seq![ATTRIBUTE_NAME]);
                assert([ATTRIBUTE_NAME, "display"]@ =~= seq![ATTRIBUTE_NAME, "display"]);
            } else {
                assert([ATTRIBUTE_NAME]@ =~= seq![ATTRIBUTE_NAME]);
                assert([ATTRIBUTE_NAME, "display"]@ =~= seq![ATTRIBUTE_NAME, "display"]);
                kept.push(attr);
            }
            proof {
                pos = pos + 1;
            }
        }
        proof {
            assert(all.take(pos) =~= all);
        }
        Ok(SynField { index, field: Field { attrs: kept, ident }, directives })
    }

    /// Reads the fields of a record type or of a case of a tagged union, in
    /// their order. Each comes back without the annotations that the engine
    /// recognizes, with the directives that these held, and with its position.
    ///
    /// The first field whose annotations cannot be read, or hold directives
    /// that cannot stand together, ends the reading: its diagnostic comes back.
    pub fn parse(fields: Vec<Field>) -> (r: Result<Vec<SynField>, Error>)
        ensures
            match r {
                Ok(parsed) => {
                    &&& parsed@.len() == fields@.len()
                    &&& forall|i: int|
                        0 <= i < parsed@.len() ==> is_parsed_from(#[trigger] parsed@[i], fields@[i], i)
                },
                Err(error) => first_error(fields@) == Some(error@),
            },
            r is Ok <==> first_error(fields@) is None,
    {
        let mut result_fields: Vec<SynField> = Vec::new();
        let mut rest = fields;
        proof {
            assert(rest@ =~= fields@.skip(0));
        }
        while rest.len() > 0
            invariant
                result_fields@.len() + rest@.len() == fields@.len(),
                rest@ == fields@.skip(result_fields@.len() as int),
                forall|i: int|
                    0 <= i < result_fields@.len() ==> is_parsed_from(
                        #[trigger] result_fields@[i],
                        fields@[i],
                        i,
                    ),
            decreases rest.len(),
        {
            let field_index = result_fields.len();
            let field = rest.remove(0);
            proof {
                assert(field == fields@[field_index as int]) by {
                    assert(fields@.skip(field_index as int)[0] == fields@[field_index as int]);
                }
                assert(rest@ =~= fields@.skip(field_index + 1));
            }
            match SynField::parse_one(field, field_index) {
                Ok(parsed) => {
                    result_fields.push(parsed);
                },
                Err(error) => {
                    proof {
                        assert(field_directives(fields@[field_index as int]) == Err::<
                            Seq<DirectiveView>,
                            ErrorView,
                        >(error@));
                        assert forall|j: int| 0 <= j < field_index implies (#[trigger] field_directives(
                            fields@[j],
                        )) is Ok by {
                            assert(is_parsed_from(result_fields@[j], fields@[j], j));
                        }
                        lemma_first_error(fields@, error@);
                    }
                    return Err(error);
                },
            }
        }
        proof {
            assert forall|i: int| 0 <= i < fields@.len() implies (#[trigger] field_directives(
                fields@[i],
            )) is Ok by {
                assert(is_parsed_from(result_fields@[i], fields@[i], i));
            }
            lemma_no_error(fields@);
        }
        Ok(result_fields)
    }

    /// How generated code addresses this field.
    pub open spec fn spec_member(&self) -> MemberView {
        member_of(self.field.ident.deep_view(), self.index)
    }

    /// How generated code addresses this field: by its name, or by its
    /// position where it has none.
    pub fn member(&self) -> (r: Member)
        ensures
            r@ == self.spec_member(),
    {
        match &self.field.ident {
            Some(ident) => Member::Named(ident.clone()),
            None => Member::Unnamed(self.index),
        }
    }
}

} // verus!
