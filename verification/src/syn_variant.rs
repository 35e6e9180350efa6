use vstd::prelude::*;

use crate::declaration::Field;
use crate::declaration::Variant;
use crate::directive::Directive;
use crate::directive::DirectiveView;
use crate::error::Error;
use crate::error::ErrorKind;
use crate::error::ErrorKindView;
use crate::error::ErrorView;
use crate::syn_field::SynField;
use crate::syn_field::field_directives;
use crate::syn_field::first_error;
use crate::syn_field::is_parsed_from;
use crate::syn_field::lemma_no_error;
use crate::syn_field::lemma_reparse_field;
use crate::syn_item_enum::SynItemEnum;
use crate::token::Ident;

verus! {

/// A case of a tagged union after the engine has read it.
#[derive(Debug, PartialEq, Eq)]
pub struct SynVariant {
    pub ident: Ident,
    pub fields: Vec<SynField>,
}

/// The first of `directives`, from `from` on, from which nothing can be
/// generated for a tagged union.
pub open spec fn unsupported_from(directives: Seq<DirectiveView>, from: int) -> Option<DirectiveView>
    decreases directives.len() - from,
{
    if !(0 <= from < directives.len()) {
        None
    } else if !SynItemEnum::spec_can_generate(directives[from].kind) {
        Some(directives[from])
    } else {
        unsupported_from(directives, from + 1)
    }
}

/// The first directive, in the order of the fields and then of their
/// directives, from which nothing can be generated for a tagged union;
/// `sets` holds the directives of each field, from the field at `from` on.
pub open spec fn unsupported_in(sets: Seq<Seq<DirectiveView>>, from: int) -> Option<DirectiveView>
    decreases sets.len() - from,
{
    if !(0 <= from < sets.len()) {
        None
    } else {
        match unsupported_from(sets[from], 0) {
            Some(directive) => Some(directive),
            None => unsupported_in(sets, from + 1),
        }
    }
}

/// The diagnostic for a directive from which nothing can be generated for a
/// tagged union. It points at the directive.
pub open spec fn unsupported_error(directive: DirectiveView) -> ErrorView {
    ErrorView {
        span: directive.span,
        kind: ErrorKindView::UnsupportedForEnum { directive: directive.kind.name() },
    }
}

/// The directives of each of `fields`, where those of every field can be read.
pub open spec fn directive_sets(fields: Seq<Field>) -> Seq<Seq<DirectiveView>> {
    fields.map_values(|field: Field| field_directives(field)->Ok_0)
}

/// Why the fields of a case of a tagged union are refused: the diagnostic
/// of the first field whose directives cannot be read; else, that of the
/// first directive from which nothing can be generated for a tagged union.
/// `None` where the fields are accepted.
pub open spec fn variant_error(fields: Seq<Field>) -> Option<ErrorView> {
    match first_error(fields) {
        Some(error) => Some(error),
        None => match unsupported_in(directive_sets(fields), 0) {
            Some(directive) => Some(unsupported_error(directive)),
            None => None,
        },
    }
}

/// A directive from which nothing can be generated for a tagged union is
/// found: where one stands at `j` in `directives`, at or after `from`, a
/// first such directive is given, and it is one from which nothing can be
/// generated.
pub proof fn lemma_unsupported_found(directives: Seq<DirectiveView>, from: int, j: int)
    requires
        0 <= from <= j < directives.len(),
        !SynItemEnum::spec_can_generate(directives[j].kind),
    ensures
        unsupported_from(directives, from) matches Some(found)
            && !SynItemEnum::spec_can_generate(found.kind),
    decreases directives.len() - from,
{
    if SynItemEnum::spec_can_generate(directives[from].kind) {
        lemma_unsupported_found(directives, from + 1, j);
    }
}

/// Among the directives of several fields, one from which nothing can be
/// generated for a tagged union is found.
pub proof fn lemma_unsupported_found_in(sets: Seq<Seq<DirectiveView>>, from: int, i: int, j: int)
    requires
        0 <= from <= i < sets.len(),
        0 <= j < sets[i].len(),
        !SynItemEnum::spec_can_generate(sets[i][j].kind),
    ensures
        unsupported_in(sets, from) matches Some(found) && !SynItemEnum::spec_can_generate(found.kind),
    decreases sets.len() - from,
{
    if from == i {
        lemma_unsupported_found(sets[i], 0, j);
    } else if unsupported_from(sets[from], 0) is None {
        lemma_unsupported_found_in(sets, from + 1, i, j);
    } else {
        lemma_unsupported_is_unsupported(sets[from], 0);
    }
}

/// What `unsupported_from` gives is a directive from which nothing can be generated.
pub proof fn lemma_unsupported_is_unsupported(directives: Seq<DirectiveView>, from: int)
    requires
        0 <= from,
    ensures
        unsupported_from(directives, from) matches Some(found) ==> !SynItemEnum::spec_can_generate(
            found.kind,
        ),
    decreases directives.len() - from,
{
    if from < directives.len() && SynItemEnum::spec_can_generate(directives[from].kind) {
        lemma_unsupported_is_unsupported(directives, from + 1);
    }
}

/// On a tagged union only constructors can be asked for. The fields of a
/// case are refused as soon as one of them holds a directive of another
/// kind than `from` and `convert`: with the diagnostic that says so, unless
/// a field cannot be read at all, whose diagnostic then comes first.
pub proof fn lemma_unsupported_refused(fields: Seq<Field>, i: int, j: int)
    requires
        0 <= i < fields.len(),
        field_directives(fields[i]) is Ok,
        0 <= j < field_directives(fields[i])->Ok_0.len(),
        !SynItemEnum::spec_can_generate(field_directives(fields[i])->Ok_0[j].kind),
    ensures
        variant_error(fields) is Some,
        first_error(fields) is None ==> variant_error(fields)->Some_0.kind is UnsupportedForEnum,
{
    let sets = directive_sets(fields);
    assert(sets[i] == field_directives(fields[i])->Ok_0);
    lemma_unsupported_found_in(sets, 0, i, j);
}

/// Fields without directives hold nothing that a tagged union cannot take.
pub proof fn lemma_nothing_unsupported(sets: Seq<Seq<DirectiveView>>, from: int)
    requires
        0 <= from,
        forall|i: int| 0 <= i < sets.len() ==> (#[trigger] sets[i]).len() == 0,
    ensures
        unsupported_in(sets, from) is None,
    decreases sets.len() - from,
{
    if from < sets.len() {
        assert(sets[from].len() == 0);
        lemma_nothing_unsupported(sets, from + 1);
    }
}

/// Reading is idempotent on what it leaves of a case of a tagged union.
/// Where `parsed` is what reading the fields `fields` of a case came to, and
/// `output` holds the fields that `parsed` holds, `output` is not refused.
pub proof fn lemma_reparse_variant(fields: Seq<Field>, parsed: Seq<SynField>, output: Seq<Field>)
    requires
        parsed.len() == fields.len(),
        forall|i: int| 0 <= i < fields.len() ==> is_parsed_from(#[trigger] parsed[i], fields[i], i),
        output.len() == parsed.len(),
        forall|i: int| 0 <= i < output.len() ==> #[trigger] output[i] == parsed[i].field,
    ensures
        variant_error(output) is None,
{
    assert forall|i: int| 0 <= i < output.len() implies field_directives(#[trigger] output[i]) == Ok::<
        Seq<DirectiveView>,
        ErrorView,
    >(Seq::empty()) by {
        lemma_reparse_field(fields[i], parsed[i], i);
    }
    lemma_no_error(output);
    let sets = directive_sets(output);
    assert forall|i: int| 0 <= i < sets.len() implies (#[trigger] sets[i]).len() == 0 by {
        assert(field_directives(output[i]) == Ok::<Seq<DirectiveView>, ErrorView>(Seq::empty()));
    }
    lemma_nothing_unsupported(sets, 0);
}

impl SynVariant {
    /// Something can be generated from every directive of every field.
    pub open spec fn supported(&self) -> bool {
        forall|i: int, j: int|
            0 <= i < self.fields@.len() && 0 <= j < self.fields@[i].directives@.len()
                ==> SynItemEnum::spec_can_generate(
                (#[trigger] self.fields@[i].directives@[j]).kind,
            )
    }

    /// Reads a case of a tagged union: its fields, in their order, and then
    /// whether something can be generated from each of their directives.
    pub fn parse(variant: Variant) -> (r: Result<Self, Error>)
        ensures
            match r {
                Ok(parsed) => {
                    &&& parsed.ident == variant.ident
                    &&& parsed.fields@.len() == variant.fields@.len()
                    &&& forall|i: int|
                        0 <= i < variant.fields@.len() ==> is_parsed_from(
                            #[trigger] parsed.fields@[i],
                            variant.fields@[i],
                            i,
                        )
                    &&& parsed.supported()
                },
                Err(error) => variant_error(variant.fields@) == Some(error@),
            },
            r is Ok <==> variant_error(variant.fields@) is None,
    {
        let Variant { ident, fields } = variant;
        let fields = SynField::parse(fields)?;
        let ghost sets = directive_sets(variant.fields@);
        let mut i: usize = 0;
        while i < fields.len()
            invariant
                0 <= i <= fields@.len(),
                first_error(variant.fields@) is None,
                sets == directive_sets(variant.fields@),
                fields@.len() == variant.fields@.len(),
                forall|k: int|
                    0 <= k < fields@.len() ==> is_parsed_from(
                        #[trigger] fields@[k],
                        variant.fields@[k],
                        k,
                    ),
                unsupported_in(sets, 0) == unsupported_in(sets, i as int),
                forall|k: int, j: int|
                    0 <= k < i && 0 <= j < fields@[k].directives@.len()
                        ==> SynItemEnum::spec_can_generate(
                        (#[trigger] fields@[k].directives@[j]).kind,
                    ),
            decreases fields@.len() - i,
        {
            let directives = fields[i].directives.iter();
            proof {
                assert(is_parsed_from(fields@[i as int], variant.fields@[i as int], i as int));
                assert(sets[i as int] == fields@[i as int].directives@);
            }
            let mut j: usize = 0;
            while j < directives.len()
                invariant
                    first_error(variant.fields@) is None,
                    sets == directive_sets(variant.fields@),
                    0 <= i < fields@.len(),
                    0 <= j <= directives@.len(),
                    directives.deep_view() == fields@[i as int].directives@,
                    sets[i as int] == fields@[i as int].directives@,
                    0 <= i < sets.len(),
                    unsupported_in(sets, 0) == unsupported_in(sets, i as int),
                    unsupported_from(sets[i as int], 0) == unsupported_from(sets[i as int], j as int),
                    forall|l: int|
                        0 <= l < j ==> SynItemEnum::spec_can_generate(
                            (#[trigger] fields@[i as int].directives@[l]).kind,
                        ),
                decreases directives@.len() - j,
            {
                let directive: &Directive = &directives[j];
                assert(directive@ == directives.deep_view()[j as int]);
                if !SynItemEnum::can_generate(&directive.kind) {
                    return Err(
                        Error::new(
                            directive.span(),
                            ErrorKind::UnsupportedForEnum {
                                directive: String::from_str(directive.kind.name()),
                            },
                        ),
                    );
                }
                j = j + 1;
            }
            i = i + 1;
        }
        Ok(SynVariant { ident, fields })
    }
}

} // verus!
