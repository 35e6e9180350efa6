use attrimpl::declaration::{
    Attribute, Field, GenericParam, GenericParamKind, Generics, ItemEnum, ItemStruct, Meta, Variant,
};
use attrimpl::directive::DirectiveKind;
use attrimpl::error::ErrorKind;
use attrimpl::fragment::{Fragment, Member};
use attrimpl::item::Item;
use attrimpl::syn_field::SynField;
use attrimpl::syn_item_enum::SynItemEnum;
use attrimpl::syn_item_struct::SynItemStruct;
use attrimpl::syn_variant::SynVariant;
use attrimpl::token::{Ident, Span, Token};
use attrimpl::{create_generic_idents, create_generics_for_impl};

fn name(name: &str, id: usize) -> Ident {
    Ident::new(name, Span::new(id))
}

fn word(name: &str, id: usize) -> Token {
    Token::Ident(Ident::new(name, Span::new(id)))
}

fn comma(id: usize) -> Token {
    Token::Punct {
        ch: ',',
        span: Span::new(id),
    }
}

fn annotation(id: usize, tokens: Vec<Token>) -> Attribute {
    Attribute {
        span: Span::new(id),
        meta: Meta::List,
        path: vec![name("attrimpl", id + 1)],
        tokens,
    }
}

fn other(id: usize, path: &str) -> Attribute {
    Attribute {
        span: Span::new(id),
        meta: Meta::List,
        path: vec![name(path, id + 1)],
        tokens: vec![word("anything", id + 2)],
    }
}

fn no_generics() -> Generics {
    Generics {
        params: vec![],
        where_clause: false,
    }
}

#[test]
fn reading_what_was_read_changes_nothing() {
    let fields = vec![
        Field {
            attrs: vec![
                other(10, "doc"),
                annotation(20, vec![word("from", 21), comma(22), word("get_ref", 23)]),
                other(30, "serde"),
            ],
            ident: Some(name("a", 1)),
        },
        Field {
            attrs: vec![annotation(40, vec![word("into", 41)])],
            ident: Some(name("b", 2)),
        },
    ];
    let first = SynField::parse(fields).unwrap();
    assert_eq!(first[0].directives.iter().len(), 2);
    assert_eq!(first[1].directives.iter().len(), 1);
    let left: Vec<Vec<Span>> = first
        .iter()
        .map(|field| field.field.attrs.iter().map(|attr| attr.span).collect())
        .collect();
    assert_eq!(left, vec![vec![Span::new(10), Span::new(30)], vec![]]);

    let output: Vec<Field> = first.into_iter().map(|field| field.field).collect();
    let expected = vec![
        Field {
            attrs: vec![other(10, "doc"), other(30, "serde")],
            ident: Some(name("a", 1)),
        },
        Field {
            attrs: vec![],
            ident: Some(name("b", 2)),
        },
    ];
    assert_eq!(output, expected);
    let second = SynField::parse(output).unwrap();
    for (field, expected) in second.iter().zip(&expected) {
        assert_eq!(&field.field, expected);
        assert!(field.directives.iter().is_empty());
    }
}

#[test]
fn annotation_must_be_a_list() {
    let mut path_only = annotation(10, vec![word("nope", 11)]);
    path_only.meta = Meta::Path;
    let mut name_value = annotation(20, vec![word("nope", 21)]);
    name_value.meta = Meta::NameValue;
    let fields = vec![Field {
        attrs: vec![path_only, name_value],
        ident: None,
    }];
    let parsed = SynField::parse(fields).unwrap();
    assert_eq!(parsed[0].field.attrs.len(), 2);
    assert!(parsed[0].directives.iter().is_empty());
}

#[test]
fn display_annotation_is_taken_out_unread() {
    let fields = vec![Field {
        attrs: vec![Attribute {
            span: Span::new(10),
            meta: Meta::List,
            path: vec![name("attrimpl", 11), name("display", 12)],
            tokens: vec![word("nope", 13)],
        }],
        ident: None,
    }];
    let parsed = SynField::parse(fields).unwrap();
    assert!(parsed[0].field.attrs.is_empty());
    assert!(parsed[0].directives.iter().is_empty());
}

#[test]
fn longer_path_is_not_recognized() {
    let fields = vec![Field {
        attrs: vec![Attribute {
            span: Span::new(10),
            meta: Meta::List,
            path: vec![name("attrimpl", 11), name("other", 12)],
            tokens: vec![word("nope", 13)],
        }],
        ident: None,
    }];
    let parsed = SynField::parse(fields).unwrap();
    assert_eq!(parsed[0].field.attrs.len(), 1);
}

#[test]
fn first_field_at_fault_is_reported() {
    let fields = vec![
        Field {
            attrs: vec![annotation(10, vec![word("from", 11)])],
            ident: None,
        },
        Field {
            attrs: vec![annotation(20, vec![word("first", 21)])],
            ident: None,
        },
        Field {
            attrs: vec![annotation(30, vec![word("second", 31)])],
            ident: None,
        },
    ];
    let error = SynField::parse(fields).unwrap_err();
    assert_eq!(error.span(), Span::new(21));
    assert_eq!(
        error.kind,
        ErrorKind::UnknownDirective {
            found: "first".to_string()
        }
    );
}

#[test]
fn list_that_ends_early_is_reported_at_the_annotation() {
    let fields = vec![Field {
        attrs: vec![annotation(10, vec![word("get_ref", 11)])],
        ident: None,
    }];
    let error = SynField::parse(fields).unwrap_err();
    assert_eq!(error.kind, ErrorKind::NameMissing);
    assert_eq!(error.span(), Span::new(10));
}

#[test]
fn field_name_is_the_default_name() {
    let fields = vec![Field {
        attrs: vec![annotation(10, vec![word("access", 11)])],
        ident: Some(name("hobby", 1)),
    }];
    let parsed = SynField::parse(fields).unwrap();
    let mut tokens = Vec::new();
    let item = SynItemStruct::parse(ItemStruct {
        ident: name("S", 0),
        generics: no_generics(),
        fields: parsed.into_iter().map(|field| field.field).collect(),
    })
    .unwrap();
    item.to_tokens(&mut tokens);
    assert_eq!(tokens, vec![Fragment::Item]);

    let item = SynItemStruct::parse(ItemStruct {
        ident: name("S", 0),
        generics: no_generics(),
        fields: vec![Field {
            attrs: vec![annotation(10, vec![word("access", 11)])],
            ident: Some(name("hobby", 1)),
        }],
    })
    .unwrap();
    let mut tokens = Vec::new();
    item.to_tokens(&mut tokens);
    assert_eq!(
        tokens,
        vec![
            Fragment::Item,
            Fragment::GetRef {
                name: name("hobby", 1),
                member: Member::Named(name("hobby", 1)),
            },
            Fragment::GetMut {
                name: name("hobby_mut", 1),
                member: Member::Named(name("hobby", 1)),
            },
        ]
    );
    assert_eq!(item.ident(), &name("S", 0));
    assert_eq!(item.generics(), &no_generics());
}

#[test]
fn output_is_appended() {
    let item = SynItemStruct::parse(ItemStruct {
        ident: name("S", 0),
        generics: no_generics(),
        fields: vec![Field {
            attrs: vec![annotation(10, vec![word("deref", 11)])],
            ident: None,
        }],
    })
    .unwrap();
    let mut tokens = vec![Fragment::Into {
        member: Member::Unnamed(9),
    }];
    item.to_tokens(&mut tokens);
    assert_eq!(
        tokens,
        vec![
            Fragment::Into {
                member: Member::Unnamed(9)
            },
            Fragment::Item,
            Fragment::Deref {
                member: Member::Unnamed(0)
            },
        ]
    );
}

#[test]
fn union_output_goes_through_the_case() {
    let item = SynItemEnum::parse(ItemEnum {
        ident: name("E", 0),
        generics: no_generics(),
        variants: vec![
            Variant {
                ident: name("A", 1),
                fields: vec![],
            },
            Variant {
                ident: name("B", 2),
                fields: vec![
                    Field {
                        attrs: vec![],
                        ident: None,
                    },
                    Field {
                        attrs: vec![annotation(10, vec![word("convert", 11)])],
                        ident: None,
                    },
                ],
            },
        ],
    })
    .unwrap();
    assert_eq!(item.variants().len(), 2);
    assert_eq!(item.ident(), &name("E", 0));
    assert_eq!(item.generics(), &no_generics());
    let mut tokens = Vec::new();
    Item::Enum(item).to_tokens(&mut tokens);
    assert_eq!(
        tokens,
        vec![
            Fragment::Item,
            Fragment::From {
                variant: Some(name("B", 2)),
                member: Member::Unnamed(1),
            },
            Fragment::BoxedFrom {
                variant: Some(name("B", 2)),
                member: Member::Unnamed(1),
            },
        ]
    );
}

#[test]
fn case_refuses_what_a_union_cannot_take() {
    let error = SynVariant::parse(Variant {
        ident: name("A", 1),
        fields: vec![Field {
            attrs: vec![annotation(
                10,
                vec![word("from", 11), comma(12), word("deref", 13)],
            )],
            ident: None,
        }],
    })
    .unwrap_err();
    assert_eq!(error.span(), Span::new(13));
    assert_eq!(
        error.kind,
        ErrorKind::UnsupportedForEnum {
            directive: "deref".to_string()
        }
    );
}

#[test]
fn capability_depends_on_the_shape() {
    assert!(SynItemStruct::can_generate(&DirectiveKind::Into));
    assert!(SynItemStruct::can_generate(&DirectiveKind::From));
    assert!(SynItemEnum::can_generate(&DirectiveKind::From));
    assert!(SynItemEnum::can_generate(&DirectiveKind::Convert));
    assert!(!SynItemEnum::can_generate(&DirectiveKind::Into));
    assert!(!SynItemEnum::can_generate(&DirectiveKind::DerefMut));
}

#[test]
fn record_type_is_tried_before_tagged_union() {
    let item_struct = ItemStruct {
        ident: name("S", 0),
        generics: no_generics(),
        fields: vec![],
    };
    let item_enum = ItemEnum {
        ident: name("E", 1),
        generics: no_generics(),
        variants: vec![],
    };
    match Item::parse(Some(item_struct), Some(item_enum), Span::new(9)).unwrap() {
        Item::Struct(item) => assert_eq!(item.ident(), &name("S", 0)),
        Item::Enum(_) => panic!("expected the record type"),
    }
    let error = Item::parse(None, None, Span::new(9)).unwrap_err();
    assert_eq!(error.span(), Span::new(9));
    assert_eq!(error.kind, ErrorKind::ExpectedStructOrEnum);
}

fn param(kind: GenericParamKind, ident: &str, bounds: bool, default: bool) -> GenericParam {
    GenericParam {
        kind,
        ident: name(ident, 0),
        attrs: true,
        bounds,
        default,
    }
}

#[test]
fn generics_for_an_impl_block_keep_bounds_and_lose_defaults() {
    let generics = Generics {
        params: vec![
            param(GenericParamKind::Lifetime, "a", true, false),
            param(GenericParamKind::Type, "T", true, true),
            param(GenericParamKind::Const, "N", false, true),
        ],
        where_clause: true,
    };
    assert_eq!(
        create_generics_for_impl(&generics),
        Generics {
            params: vec![
                param(GenericParamKind::Lifetime, "a", true, false),
                param(GenericParamKind::Type, "T", true, false),
                param(GenericParamKind::Const, "N", false, false),
            ],
            where_clause: true,
        }
    );
}

#[test]
fn generics_behind_the_type_name_are_bare_names() {
    let generics = Generics {
        params: vec![
            param(GenericParamKind::Lifetime, "a", true, false),
            param(GenericParamKind::Type, "T", true, true),
            param(GenericParamKind::Const, "N", false, true),
        ],
        where_clause: true,
    };
    let bare = |kind, ident: &str| GenericParam {
        kind,
        ident: name(ident, 0),
        attrs: false,
        bounds: false,
        default: false,
    };
    assert_eq!(
        create_generic_idents(&generics),
        Generics {
            params: vec![
                bare(GenericParamKind::Lifetime, "a"),
                bare(GenericParamKind::Type, "T"),
                bare(GenericParamKind::Type, "N"),
            ],
            where_clause: false,
        }
    );
    assert_eq!(create_generic_idents(&no_generics()), no_generics());
}

#[test]
fn reading_a_union_that_was_read_changes_nothing() {
    let item = SynItemEnum::parse(ItemEnum {
        ident: name("E", 0),
        generics: no_generics(),
        variants: vec![Variant {
            ident: name("A", 1),
            fields: vec![Field {
                attrs: vec![other(10, "doc"), annotation(20, vec![word("from", 21)])],
                ident: Some(name("x", 2)),
            }],
        }],
    })
    .unwrap();
    let output = ItemEnum {
        ident: item.ident().clone(),
        generics: no_generics(),
        variants: item
            .variants()
            .iter()
            .map(|variant| Variant {
                ident: variant.ident.clone(),
                fields: variant
                    .fields
                    .iter()
                    .map(|field| Field {
                        attrs: field
                            .field
                            .attrs
                            .iter()
                            .map(|attr| other(attr.span.id, &attr.path[0].name))
                            .collect(),
                        ident: field.field.ident.clone(),
                    })
                    .collect(),
            })
            .collect(),
    };
    let again = SynItemEnum::parse(output).unwrap();
    assert_eq!(again.variants()[0].fields[0].field.attrs, vec![other(10, "doc")]);
    assert!(again.variants()[0].fields[0].directives.iter().is_empty());
    let mut tokens = Vec::new();
    again.to_tokens(&mut tokens);
    assert_eq!(tokens, vec![Fragment::Item]);
}

#[test]
fn reading_the_literals_of_a_declaration_keeps_its_shape() {
    let quoted = |id: usize| Token::Literal {
        repr: "\"x\"".to_string(),
        span: Span::new(id),
    };
    let read = |id: usize| Token::Str {
        value: "x".to_string(),
        span: Span::new(id),
    };
    let fields = |token: &dyn Fn(usize) -> Token| {
        vec![
            Field {
                attrs: vec![
                    other(10, "doc"),
                    annotation(20, vec![word("get_ref", 21), token(22)]),
                ],
                ident: Some(name("a", 1)),
            },
            Field {
                attrs: vec![],
                ident: None,
            },
            Field {
                attrs: vec![Attribute {
                    span: Span::new(30),
                    meta: Meta::NameValue,
                    path: vec![name("doc", 31)],
                    tokens: vec![token(32)],
                }],
                ident: Some(name("b", 2)),
            },
        ]
    };
    let item = |token: &dyn Fn(usize) -> Token| ItemStruct {
        ident: name("S", 0),
        generics: Generics {
            params: vec![param(GenericParamKind::Type, "T", true, true)],
            where_clause: true,
        },
        fields: fields(token),
    };
    assert_eq!(item(&quoted).read_literals(), item(&read));
    assert_eq!(item(&read).read_literals(), item(&read));

    let item = |token: &dyn Fn(usize) -> Token| ItemEnum {
        ident: name("E", 0),
        generics: no_generics(),
        variants: vec![
            Variant {
                ident: name("A", 1),
                fields: fields(token),
            },
            Variant {
                ident: name("B", 2),
                fields: vec![],
            },
        ],
    };
    assert_eq!(item(&quoted).read_literals(), item(&read));
}
