use vstd::prelude::*;

use crate::literal::read_literals;
use crate::literal::tokens_read;
use crate::token::Ident;
use crate::token::Span;
use crate::token::Token;

verus! {

/// The three forms of an attribute: `#[path]`, `#[path(tokens)]` and `#[path = value]`.
#[derive(Clone, Copy, Debug, PartialEq, Eq, Structural)]
pub enum Meta {
    Path,
    List,
    NameValue,
}

/// One attribute of a field, as far as the engine reads it.
#[derive(Debug, PartialEq, Eq)]
pub struct Attribute {
    /// The place of the attribute. A directive list that ends too early is reported here.
    pub span: Span,
    pub meta: Meta,
    /// The segments of the attribute's path, in order.
    pub path: Vec<Ident>,
    /// For a [`Meta::List`], the tokens between its brackets.
    pub tokens: Vec<Token>,
}

/// One field of a record type or of a case of a tagged union. Its type is
/// not held here: the engine never reads it.
#[derive(Debug, PartialEq, Eq)]
pub struct Field {
    pub attrs: Vec<Attribute>,
    /// The field's name; `None` for a positional field.
    pub ident: Option<Ident>,
}

/// One case of a tagged union.
#[derive(Debug, PartialEq, Eq)]
pub struct Variant {
    pub ident: Ident,
    pub fields: Vec<Field>,
}

#[derive(Clone, Copy, Debug, PartialEq, Eq, Structural)]
pub enum GenericParamKind {
    Lifetime,
    Type,
    Const,
}

/// One generic parameter of a declaration. Of what stands around its name,
/// only the presence is held.
#[derive(Debug, PartialEq, Eq)]
pub struct GenericParam {
    pub kind: GenericParamKind,
    /// The parameter's name; for a lifetime, without the tick.
    pub ident: Ident,
    /// Whether the parameter carries its attributes.
    pub attrs: bool,
    /// Whether the parameter carries its bounds.
    pub bounds: bool,
    /// Whether the parameter carries its default.
    pub default: bool,
}

/// The mathematical model of a [`GenericParam`].
pub struct GenericParamView {
    pub kind: GenericParamKind,
    pub ident: crate::token::IdentView,
    pub attrs: bool,
    pub bounds: bool,
    pub default: bool,
}

impl View for GenericParam {
    type V = GenericParamView;

    open spec fn view(&self) -> GenericParamView {
        GenericParamView {
            kind: self.kind,
            ident: self.ident@,
            attrs: self.attrs,
            bounds: self.bounds,
            default: self.default,
        }
    }
}

impl DeepView for GenericParam {
    type V = GenericParamView;

    open spec fn deep_view(&self) -> GenericParamView {
        self@
    }
}

/// The generic parameters of a declaration, and whether a `where` clause follows them.
#[derive(Debug, PartialEq, Eq)]
pub struct Generics {
    pub params: Vec<GenericParam>,
    pub where_clause: bool,
}

/// The mathematical model of [`Generics`].
pub struct GenericsView {
    pub params: Seq<GenericParamView>,
    pub where_clause: bool,
}

impl View for Generics {
    type V = GenericsView;

    open spec fn view(&self) -> GenericsView {
        GenericsView { params: self.params.deep_view(), where_clause: self.where_clause }
    }
}

/// A record type, as it was declared.
#[derive(Debug, PartialEq, Eq)]
pub struct ItemStruct {
    pub ident: Ident,
    pub generics: Generics,
    pub fields: Vec<Field>,
}

/// A tagged union, as it was declared.
#[derive(Debug, PartialEq, Eq)]
pub struct ItemEnum {
    pub ident: Ident,
    pub generics: Generics,
    pub variants: Vec<Variant>,
}

/// Whether `after` may be what reading the literals of `before` comes to:
/// the same attribute, its tokens read as [`tokens_read`] says.
pub open spec fn attr_read(before: Attribute, after: Attribute) -> bool {
    &&& after.span == before.span
    &&& after.meta == before.meta
    &&& after.path == before.path
    &&& tokens_read(before.tokens@, after.tokens@)
}

/// Whether `after` may be what reading the literals of `before` comes to:
/// the same fields, each with the same attributes, read as [`attr_read`] says.
pub open spec fn fields_read(before: Seq<Field>, after: Seq<Field>) -> bool {
    &&& after.len() == before.len()
    &&& forall|i: int|
        0 <= i < before.len() ==> {
            &&& (#[trigger] after[i]).ident == before[i].ident
            &&& after[i].attrs@.len() == before[i].attrs@.len()
            &&& forall|j: int|
                0 <= j < before[i].attrs@.len() ==> attr_read(
                    #[trigger] before[i].attrs@[j],
                    after[i].attrs@[j],
                )
        }
}

/// Whether `after` may be what reading the literals of `before` comes to:
/// the same cases, the fields of each read as [`fields_read`] says.
pub open spec fn variants_read(before: Seq<Variant>, after: Seq<Variant>) -> bool {
    &&& after.len() == before.len()
    &&& forall|i: int|
        0 <= i < before.len() ==> {
            &&& (#[trigger] after[i]).ident == before[i].ident
            &&& fields_read(before[i].fields@, after[i].fields@)
        }
}

/// Reads the literals in the attributes of one field.
fn read_attrs(attrs: Vec<Attribute>) -> (r: Vec<Attribute>)
    ensures
        r@.len() == attrs@.len(),
        forall|j: int| 0 <= j < attrs@.len() ==> attr_read(#[trigger] attrs@[j], r@[j]),
{
    let mut rest = attrs;
    let mut read: Vec<Attribute> = Vec::new();
    proof {
        assert(rest@ =~= attrs@.skip(0));
    }
    while rest.len() > 0
        invariant
            read@.len() + rest@.len() == attrs@.len(),
            rest@ == attrs@.skip(read@.len() as int),
            forall|j: int| 0 <= j < read@.len() ==> attr_read(#[trigger] attrs@[j], read@[j]),
        decreases rest.len(),
    {
        let ghost pos = read@.len() as int;
        let attr = rest.remove(0);
        proof {
            assert(attr == attrs@[pos]) by {
                assert(attrs@.skip(pos)[0] == attrs@[pos]);
            }
            assert(rest@ =~= attrs@.skip(pos + 1));
        }
        let Attribute { span, meta, path, tokens } = attr;
        read.push(Attribute { span, meta, path, tokens: read_literals(tokens) });
    }
    read
}

/// Reads the literals in the attributes of some fields.
fn read_fields(fields: Vec<Field>) -> (r: Vec<Field>)
    ensures
        fields_read(fields@, r@),
{
    let mut rest = fields;
    let mut read: Vec<Field> = Vec::new();
    proof {
        assert(rest@ =~= fields@.skip(0));
    }
    while rest.len() > 0
        invariant
            read@.len() + rest@.len() == fields@.len(),
            rest@ == fields@.skip(read@.len() as int),
            fields_read(fields@.take(read@.len() as int), read@),
        decreases rest.len(),
    {
        let ghost pos = read@.len() as int;
        let ghost before = read@;
        let field = rest.remove(0);
        proof {
            assert(field == fields@[pos]) by {
                assert(fields@.skip(pos)[0] == fields@[pos]);
            }
            assert(rest@ =~= fields@.skip(pos + 1));
        }
        let Field { attrs, ident } = field;
        read.push(Field { attrs: read_attrs(attrs), ident });
        proof {
            let head = fields@.take(pos + 1);
            assert forall|i: int| 0 <= i < head.len() implies {
                &&& (#[trigger] read@[i]).ident == head[i].ident
                &&& read@[i].attrs@.len() == head[i].attrs@.len()
                &&& forall|j: int|
                    0 <= j < head[i].attrs@.len() ==> attr_read(
                        #[trigger] head[i].attrs@[j],
                        read@[i].attrs@[j],
                    )
            } by {
                if i < pos {
                    assert(read@[i] == before[i]);
                    assert(head[i] == fields@.take(pos)[i]);
                }
            }
        }
    }
    proof {
        assert(fields@.take(read@.len() as int) =~= fields@);
    }
    read
}

impl ItemStruct {
    /// Whether `after` may be what reading the literals of `self` comes
    /// to: the same record type, its fields read as [`fields_read`] says.
    pub open spec fn literals_read(self, after: ItemStruct) -> bool {
        &&& after.ident == self.ident
        &&& after.generics == self.generics
        &&& fields_read(self.fields@, after.fields@)
    }

    /// Reads the literals in the attributes of the fields: see [`read_literals`].
    pub fn read_literals(self) -> (r: Self)
        ensures
            self.literals_read(r),
    {
        let ItemStruct { ident, generics, fields } = self;
        ItemStruct { ident, generics, fields: read_fields(fields) }
    }
}

impl ItemEnum {
    /// Whether `after` may be what reading the literals of `self` comes
    /// to: the same tagged union, its cases read as [`variants_read`] says.
    pub open spec fn literals_read(self, after: ItemEnum) -> bool {
        &&& after.ident == self.ident
        &&& after.generics == self.generics
        &&& variants_read(self.variants@, after.variants@)
    }

    /// Reads the literals in the attributes of the fields of every case:
    /// see [`read_literals`].
    pub fn read_literals(self) -> (r: Self)
        ensures
            self.literals_read(r),
    {
        let ItemEnum { ident, generics, variants } = self;
        let mut rest = variants;
        let mut read: Vec<Variant> = Vec::new();
        proof {
            assert(rest@ =~= self.variants@.skip(0));
        }
        while rest.len() > 0
            invariant
                variants == self.variants,
                read@.len() + rest@.len() == variants@.len(),
                rest@ == variants@.skip(read@.len() as int),
                variants_read(variants@.take(read@.len() as int), read@),
            decreases rest.len(),
        {
            let ghost pos = read@.len() as int;
            let ghost before = read@;
            let variant = rest.remove(0);
            proof {
                assert(variant == variants@[pos]) by {
                    assert(variants@.skip(pos)[0] == variants@[pos]);
                }
                assert(rest@ =~= variants@.skip(pos + 1));
            }
            let Variant { ident, fields } = variant;
            read.push(Variant { ident, fields: read_fields(fields) });
            proof {
                let head = variants@.take(pos + 1);
                assert forall|i: int| 0 <= i < head.len() implies {
                    &&& (#[trigger] read@[i]).ident == head[i].ident
                    &&& fields_read(head[i].fields@, read@[i].fields@)
                } by {
                    if i < pos {
                        assert(read@[i] == before[i]);
                        assert(head[i] == variants@.take(pos)[i]);
                    }
                }
            }
        }
        proof {
            assert(variants@.take(read@.len() as int) =~= variants@);
        }
        ItemEnum { ident, generics, variants: read }
    }
}

} // verus!
