use attrimpl::access_params::{AccessParams, GetRefType};
use attrimpl::args::Args;
use attrimpl::directive::{Directive, DirectiveKind};
use attrimpl::directives::Directives;
use attrimpl::error::{Error, ErrorKind, Expected};
use attrimpl::get_mut_params::GetMutParams;
use attrimpl::get_params::GetParams;
use attrimpl::literal::{read_literals, token_of};
use attrimpl::params::Params;
use attrimpl::parse_stream::ParseStream;
use attrimpl::token::{Delimiter, Ident, Span, Token};
use attrimpl::{are_path_segments_equal, ATTRIBUTE_NAME};

const SCOPE: Span = Span { id: 1000 };
const CLOSE: Span = Span { id: 2000 };

fn word(name: &str, id: usize) -> Token {
    Token::Ident(Ident::new(name, Span::new(id)))
}

fn punct(ch: char, id: usize) -> Token {
    Token::Punct {
        ch,
        span: Span::new(id),
    }
}

fn text(value: &str, id: usize) -> Token {
    Token::Str {
        value: value.to_string(),
        span: Span::new(id),
    }
}

fn literal(repr: &str, id: usize) -> Token {
    Token::Literal {
        repr: repr.to_string(),
        span: Span::new(id),
    }
}

fn parens(tokens: Vec<Token>, id: usize) -> Token {
    Token::Group {
        delimiter: Delimiter::Parenthesis,
        tokens,
        open: Span::new(id),
        close: CLOSE,
    }
}

fn field_name() -> Option<Ident> {
    Some(Ident::new("field", Span::new(500)))
}

fn directives(tokens: &Vec<Token>, default_name: Option<Ident>) -> Result<Vec<Directive>, Error> {
    let parsed = Directives::parse(ParseStream::new(tokens, SCOPE), default_name)?;
    let mut set = Directives::default();
    set.extend_from(parsed)?;
    let all = set.iter().clone();
    Ok(all)
}

#[test]
fn every_keyword_is_read_as_its_kind() {
    let keywords = [
        "from",
        "into",
        "convert",
        "get_ref",
        "get_copy",
        "get_clone",
        "get_mut",
        "access",
        "as_ref",
        "as_mut",
        "as",
        "deref",
        "deref_mut",
    ];
    for (id, keyword) in keywords.iter().enumerate() {
        let tokens = vec![word(keyword, id)];
        let mut input = ParseStream::new(&tokens, SCOPE);
        let directive = Directive::parse(&mut input, field_name()).unwrap();
        assert_eq!(directive.kind.name(), *keyword);
        assert_eq!(directive.span(), Span::new(id));
        assert!(input.is_empty());
    }
}

#[test]
fn keywords_are_case_sensitive_and_exact() {
    for wrong in ["From", "FROM", "fro", "from_", "get", "asref", "r#from"] {
        let tokens = vec![word(wrong, 3)];
        let mut input = ParseStream::new(&tokens, SCOPE);
        let error = Directive::parse(&mut input, field_name()).unwrap_err();
        assert_eq!(
            error.kind,
            ErrorKind::UnknownDirective {
                found: wrong.to_string()
            }
        );
        assert_eq!(error.span(), Span::new(3));
    }
}

#[test]
fn unknown_directive_message_lists_the_keywords() {
    let error = Error::new(
        Span::new(0),
        ErrorKind::UnknownDirective {
            found: "nope".to_string(),
        },
    );
    assert_eq!(
        error.message(),
        "unknown directive `nope`, expected one of `from`, `into`, `convert`, `get_ref`, `get_copy`, `get_clone`, `get_mut`, `access`, `as_ref`, `as_mut`, `as`, `deref`, `deref_mut`"
    );
}

#[test]
fn directive_must_start_with_a_word() {
    let tokens = vec![punct(',', 7)];
    let mut input = ParseStream::new(&tokens, SCOPE);
    let error = Directive::parse(&mut input, None).unwrap_err();
    assert_eq!(error.kind, ErrorKind::Expected(Expected::Identifier));
    assert_eq!(error.span(), Span::new(7));
    assert_eq!(error.message(), "expected identifier");

    let tokens = vec![];
    let mut input = ParseStream::new(&tokens, SCOPE);
    let error = Directive::parse(&mut input, None).unwrap_err();
    assert_eq!(error.kind, ErrorKind::UnexpectedEnd(Expected::Identifier));
    assert_eq!(error.span(), SCOPE);
    assert_eq!(error.message(), "unexpected end of input, expected identifier");
}

#[test]
fn empty_list_holds_no_directive() {
    assert_eq!(directives(&vec![], None).unwrap(), vec![]);
}

#[test]
fn trailing_comma_is_optional() {
    let without = vec![word("from", 0), punct(',', 1), word("into", 2)];
    let with = vec![word("from", 0), punct(',', 1), word("into", 2), punct(',', 3)];
    let expected = vec![
        Directive {
            span: Span::new(0),
            kind: DirectiveKind::From,
        },
        Directive {
            span: Span::new(2),
            kind: DirectiveKind::Into,
        },
    ];
    assert_eq!(directives(&without, None).unwrap(), expected);
    assert_eq!(directives(&with, None).unwrap(), expected);
}

#[test]
fn directives_need_a_comma_between_them() {
    let tokens = vec![word("from", 0), word("into", 1)];
    let error = directives(&tokens, None).unwrap_err();
    assert_eq!(error.kind, ErrorKind::Expected(Expected::Comma));
    assert_eq!(error.span(), Span::new(1));
    assert_eq!(error.message(), "expected `,`");

    let tokens = vec![word("from", 0), punct(',', 1), punct(',', 2)];
    let error = directives(&tokens, None).unwrap_err();
    assert_eq!(error.kind, ErrorKind::Expected(Expected::Identifier));
    assert_eq!(error.span(), Span::new(2));
}

#[test]
fn plain_directive_takes_no_parameters() {
    let tokens = vec![word("from", 0), parens(vec![], 1)];
    let error = directives(&tokens, None).unwrap_err();
    assert_eq!(error.kind, ErrorKind::Expected(Expected::Comma));
    assert_eq!(error.span(), Span::new(1));
}

#[test]
fn explicit_name_is_the_resolved_name() {
    let tokens = vec![parens(
        vec![word("name", 1), punct('=', 2), text("x", 3)],
        0,
    )];
    let mut input = ParseStream::new(&tokens, SCOPE);
    let params = GetParams::parse(&mut input, field_name()).unwrap();
    assert_eq!(params.name, Ident::new("x", Span::new(3)));
    assert!(input.is_empty());
}

#[test]
fn default_name_is_the_field_name() {
    let tokens = vec![];
    let params = GetParams::parse(&mut ParseStream::new(&tokens, SCOPE), field_name()).unwrap();
    assert_eq!(params.name, Ident::new("field", Span::new(500)));

    let params = GetMutParams::parse(&mut ParseStream::new(&tokens, SCOPE), field_name()).unwrap();
    assert_eq!(params.name, Ident::new("field_mut", Span::new(500)));

    let params = AccessParams::parse(&mut ParseStream::new(&tokens, SCOPE), field_name()).unwrap();
    assert_eq!(params.get_name, Ident::new("field", Span::new(500)));
    assert_eq!(params.get_mut_name, Ident::new("field_mut", Span::new(500)));
    assert_eq!(params.get_ref_type, GetRefType::Ref);

    let tokens = vec![parens(vec![], 0)];
    let params = GetParams::parse(&mut ParseStream::new(&tokens, SCOPE), field_name()).unwrap();
    assert_eq!(params.name, Ident::new("field", Span::new(500)));

    let tokens = vec![parens(vec![word("get_copy", 1)], 0)];
    let params = AccessParams::parse(&mut ParseStream::new(&tokens, SCOPE), field_name()).unwrap();
    assert_eq!(params.get_name, Ident::new("field", Span::new(500)));
    assert_eq!(params.get_mut_name, Ident::new("field_mut", Span::new(500)));
    assert_eq!(params.get_ref_type, GetRefType::Copy);
}

#[test]
fn mutator_is_the_name_followed_by_mut() {
    let tokens = vec![parens(
        vec![word("name", 1), punct('=', 2), text("x", 3)],
        0,
    )];
    let params = GetMutParams::parse(&mut ParseStream::new(&tokens, SCOPE), None).unwrap();
    assert_eq!(params.name, Ident::new("x_mut", Span::new(3)));
    let params = AccessParams::parse(&mut ParseStream::new(&tokens, SCOPE), None).unwrap();
    assert_eq!(params.get_name, Ident::new("x", Span::new(3)));
    assert_eq!(params.get_mut_name, Ident::new("x_mut", Span::new(3)));
}

#[test]
fn missing_name_is_reported_at_what_follows() {
    let tokens = vec![word("get_ref", 0), punct(',', 1), word("from", 2)];
    let mut input = ParseStream::new(&tokens, SCOPE);
    let error = Directive::parse(&mut input, None).unwrap_err();
    assert_eq!(error.kind, ErrorKind::NameMissing);
    assert_eq!(error.span(), Span::new(1));

    let tokens = vec![word("access", 0), parens(vec![word("get_clone", 2)], 1)];
    let mut input = ParseStream::new(&tokens, SCOPE);
    let error = Directive::parse(&mut input, None).unwrap_err();
    assert_eq!(error.kind, ErrorKind::NameMissing);
    assert_eq!(error.span(), SCOPE);
}

#[test]
fn each_style_keyword_gives_its_style() {
    for (keyword, style) in [
        ("get_ref", GetRefType::Ref),
        ("get_copy", GetRefType::Copy),
        ("get_clone", GetRefType::Clone),
    ] {
        let tokens = vec![parens(vec![word(keyword, 1)], 0)];
        let params = Params::parse(&mut ParseStream::new(&tokens, SCOPE), true).unwrap();
        assert_eq!(params.get_ref_type, Some(style));
        assert_eq!(params.name, None);
    }
    assert_eq!(GetRefType::default(), GetRefType::Ref);
}

#[test]
fn name_and_style_come_in_any_order() {
    let first = vec![parens(
        vec![
            word("name", 1),
            punct('=', 2),
            text("x", 3),
            punct(',', 4),
            word("get_clone", 5),
            punct(',', 6),
        ],
        0,
    )];
    let second = vec![parens(
        vec![
            word("get_clone", 5),
            punct(',', 4),
            word("name", 1),
            punct('=', 2),
            text("x", 3),
        ],
        0,
    )];
    for tokens in [first, second] {
        let params = AccessParams::parse(&mut ParseStream::new(&tokens, SCOPE), None).unwrap();
        assert_eq!(params.get_name, Ident::new("x", Span::new(3)));
        assert_eq!(params.get_ref_type, GetRefType::Clone);
    }
}

#[test]
fn style_given_twice_is_refused() {
    let tokens = vec![parens(
        vec![word("get_ref", 1), punct(',', 2), word("get_copy", 3)],
        0,
    )];
    let error = AccessParams::parse(&mut ParseStream::new(&tokens, SCOPE), field_name()).unwrap_err();
    assert_eq!(error.kind, ErrorKind::StyleAlreadySpecified);
    assert_eq!(error.span(), Span::new(3));
    assert_eq!(error.message(), "style already specified");
}

#[test]
fn name_given_twice_is_refused() {
    let tokens = vec![parens(
        vec![
            word("name", 1),
            punct('=', 2),
            text("x", 3),
            punct(',', 4),
            word("name", 5),
            punct('=', 6),
            text("y", 7),
        ],
        0,
    )];
    for styles in [false, true] {
        let error = Params::parse(&mut ParseStream::new(&tokens, SCOPE), styles).unwrap_err();
        assert_eq!(error.kind, ErrorKind::NameAlreadySpecified);
        assert_eq!(error.span(), Span::new(5));
        assert_eq!(error.message(), "name already specified");
    }
}

#[test]
fn unknown_parameter_keyword_is_refused() {
    let tokens = vec![parens(vec![word("rename", 1)], 0)];
    let error = AccessParams::parse(&mut ParseStream::new(&tokens, SCOPE), field_name()).unwrap_err();
    assert_eq!(
        error.kind,
        ErrorKind::UnexpectedKeyword {
            found: "rename".to_string()
        }
    );
    assert_eq!(error.span(), Span::new(1));
    assert_eq!(
        error.message(),
        "unexpected keyword, expected one of `get_ref`, `get_copy`, `get_clone`, or `name = <..>`, found `rename`"
    );
}

#[test]
fn plain_accessor_has_no_use_for_a_style() {
    let tokens = vec![parens(vec![word("get_clone", 1)], 0)];
    let error = GetParams::parse(&mut ParseStream::new(&tokens, SCOPE), field_name()).unwrap_err();
    assert_eq!(
        error.kind,
        ErrorKind::UnexpectedKeyword {
            found: "get_clone".to_string()
        }
    );
}

#[test]
fn malformed_parameter_lists_are_refused() {
    // `name` without `=`
    let tokens = vec![parens(vec![word("name", 1), text("x", 2)], 0)];
    let error = Params::parse(&mut ParseStream::new(&tokens, SCOPE), true).unwrap_err();
    assert_eq!(error.kind, ErrorKind::Expected(Expected::Equals));
    assert_eq!(error.span(), Span::new(2));
    assert_eq!(error.message(), "expected `=`");

    // `name` and nothing more
    let tokens = vec![parens(vec![word("name", 1)], 0)];
    let error = Params::parse(&mut ParseStream::new(&tokens, SCOPE), true).unwrap_err();
    assert_eq!(error.kind, ErrorKind::UnexpectedEnd(Expected::Equals));
    assert_eq!(error.span(), CLOSE);
    assert_eq!(error.message(), "unexpected end of input, expected `=`");

    // `name =` and nothing more
    let tokens = vec![parens(vec![word("name", 1), punct('=', 2)], 0)];
    let error = Params::parse(&mut ParseStream::new(&tokens, SCOPE), true).unwrap_err();
    assert_eq!(error.kind, ErrorKind::UnexpectedEnd(Expected::StringLiteral));
    assert_eq!(error.span(), CLOSE);

    // `name = word`
    let tokens = vec![parens(vec![word("name", 1), punct('=', 2), word("x", 3)], 0)];
    let error = Params::parse(&mut ParseStream::new(&tokens, SCOPE), true).unwrap_err();
    assert_eq!(error.kind, ErrorKind::Expected(Expected::StringLiteral));
    assert_eq!(error.span(), Span::new(3));
    assert_eq!(error.message(), "expected string literal");

    // two parameters without a comma
    let tokens = vec![parens(vec![word("get_ref", 1), word("get_ref", 2)], 0)];
    let error = Params::parse(&mut ParseStream::new(&tokens, SCOPE), true).unwrap_err();
    assert_eq!(error.kind, ErrorKind::Expected(Expected::Comma));
    assert_eq!(error.span(), Span::new(2));

    // something that is no word
    let tokens = vec![parens(vec![parens(vec![], 5)], 0)];
    let error = Params::parse(&mut ParseStream::new(&tokens, SCOPE), true).unwrap_err();
    assert_eq!(error.kind, ErrorKind::Expected(Expected::Identifier));
    assert_eq!(error.span(), Span::new(5));
}

#[test]
fn malformed_list_is_reported_before_a_repeated_name() {
    let tokens = vec![parens(
        vec![
            word("name", 1),
            punct('=', 2),
            text("x", 3),
            punct(',', 4),
            word("name", 5),
            punct('=', 6),
        ],
        0,
    )];
    let error = Params::parse(&mut ParseStream::new(&tokens, SCOPE), true).unwrap_err();
    assert_eq!(error.kind, ErrorKind::UnexpectedEnd(Expected::StringLiteral));
}

#[test]
fn other_brackets_are_no_parameter_list() {
    let tokens = vec![Token::Group {
        delimiter: Delimiter::Bracket,
        tokens: vec![word("name", 1), punct('=', 2), text("x", 3)],
        open: Span::new(0),
        close: CLOSE,
    }];
    let mut input = ParseStream::new(&tokens, SCOPE);
    let params = GetParams::parse(&mut input, field_name()).unwrap();
    assert_eq!(params.name, Ident::new("field", Span::new(500)));
    assert!(!input.is_empty());
}

#[test]
fn literal_in_its_source_text_is_no_string() {
    let tokens = vec![parens(
        vec![word("name", 1), punct('=', 2), literal("\"x\"", 3)],
        0,
    )];
    let error = GetParams::parse(&mut ParseStream::new(&tokens, SCOPE), None).unwrap_err();
    assert_eq!(error.kind, ErrorKind::Expected(Expected::StringLiteral));
    assert_eq!(error.span(), Span::new(3));
}

#[test]
fn literal_is_a_string_once_it_was_read() {
    let tokens = read_literals(vec![parens(
        vec![word("name", 1), punct('=', 2), literal("\"a\\tb\"", 3)],
        0,
    )]);
    let params = GetParams::parse(&mut ParseStream::new(&tokens, SCOPE), None).unwrap();
    assert_eq!(params.name, Ident::new("a\tb", Span::new(3)));

    let tokens = read_literals(vec![parens(
        vec![word("name", 1), punct('=', 2), literal("42", 3)],
        0,
    )]);
    let error = GetParams::parse(&mut ParseStream::new(&tokens, SCOPE), None).unwrap_err();
    assert_eq!(error.kind, ErrorKind::Expected(Expected::StringLiteral));
    assert_eq!(error.span(), Span::new(3));
}

#[test]
fn reading_literals_touches_nothing_but_string_literals() {
    let before = || {
        vec![
            word("a", 0),
            punct(',', 1),
            text("kept", 2),
            literal("\"plain\"", 3),
            literal("r#\"raw \\n\"#", 4),
            literal("\"\\u{e9}\\n\"", 5),
            literal("b\"bytes\"", 6),
            literal("'c'", 7),
            literal("1.5", 8),
            literal("\"unfinished", 9),
            literal("", 10),
            Token::Group {
                delimiter: Delimiter::Brace,
                tokens: vec![
                    literal("\"inner\"", 12),
                    Token::Group {
                        delimiter: Delimiter::Invisible,
                        tokens: vec![literal("\"deep\"", 15), literal("7", 16)],
                        open: Span::new(13),
                        close: Span::new(14),
                    },
                ],
                open: Span::new(11),
                close: Span::new(17),
            },
        ]
    };
    assert_eq!(
        read_literals(before()),
        vec![
            word("a", 0),
            punct(',', 1),
            text("kept", 2),
            text("plain", 3),
            text("raw \\n", 4),
            text("\u{e9}\n", 5),
            literal("b\"bytes\"", 6),
            literal("'c'", 7),
            literal("1.5", 8),
            literal("\"unfinished", 9),
            literal("", 10),
            Token::Group {
                delimiter: Delimiter::Brace,
                tokens: vec![
                    text("inner", 12),
                    Token::Group {
                        delimiter: Delimiter::Invisible,
                        tokens: vec![text("deep", 15), literal("7", 16)],
                        open: Span::new(13),
                        close: Span::new(14),
                    },
                ],
                open: Span::new(11),
                close: Span::new(17),
            },
        ]
    );
    assert_eq!(read_literals(vec![]), vec![]);
    // what was read stays as it is when it is read again
    assert_eq!(read_literals(read_literals(before())), read_literals(before()));
}

#[test]
fn arguments_are_nothing_or_debug() {
    let tokens = vec![];
    assert!(!Args::parse(ParseStream::new(&tokens, SCOPE)).unwrap().debug());
    let tokens = vec![word("debug", 0)];
    assert!(Args::parse(ParseStream::new(&tokens, SCOPE)).unwrap().debug());
    let tokens = vec![word("Debug", 4)];
    let error = Args::parse(ParseStream::new(&tokens, SCOPE)).unwrap_err();
    assert_eq!(
        error.kind,
        ErrorKind::UnknownArgument {
            found: "Debug".to_string()
        }
    );
    assert_eq!(error.span(), Span::new(4));
    let tokens = vec![word("debug", 0), punct(',', 1)];
    let error = Args::parse(ParseStream::new(&tokens, SCOPE)).unwrap_err();
    assert_eq!(error.kind, ErrorKind::UnexpectedToken);
    assert_eq!(error.span(), Span::new(1));
    let tokens = vec![punct(',', 9)];
    let error = Args::parse(ParseStream::new(&tokens, SCOPE)).unwrap_err();
    assert_eq!(error.kind, ErrorKind::UnexpectedToken);
    assert_eq!(error.span(), Span::new(9));
}

#[test]
fn paths_are_compared_segment_by_segment() {
    let path = vec![
        Ident::new("attrimpl", Span::new(0)),
        Ident::new("display", Span::new(1)),
    ];
    assert!(are_path_segments_equal(&path, &[ATTRIBUTE_NAME, "display"]));
    assert!(!are_path_segments_equal(&path, &[ATTRIBUTE_NAME]));
    assert!(!are_path_segments_equal(&path, &["display", ATTRIBUTE_NAME]));
    assert!(!are_path_segments_equal(&path, &[ATTRIBUTE_NAME, "Display"]));
    assert!(are_path_segments_equal(&vec![], &[]));
}

#[test]
fn cursor_reads_token_by_token() {
    let tokens = vec![word("a", 0), punct('=', 1), text("v", 2), punct(',', 3)];
    let mut input = ParseStream::new(&tokens, SCOPE);
    assert_eq!(input.span(), Span::new(0));
    assert!(!input.peek_parenthesized());
    assert!(input.parse_eq().is_err());
    assert_eq!(input.parse_ident().unwrap(), Ident::new("a", Span::new(0)));
    assert!(input.parse_ident().is_err());
    assert_eq!(input.parse_eq().unwrap(), Span::new(1));
    assert_eq!(input.parse_lit_str().unwrap(), Ident::new("v", Span::new(2)));
    assert!(input.parse_lit_str().is_err());
    assert_eq!(input.parse_comma().unwrap(), Span::new(3));
    assert!(input.is_empty());
    assert_eq!(input.span(), SCOPE);
    assert!(input.parenthesized().is_none());
}

#[test]
fn identifiers_compare_by_their_spelling() {
    let a = Ident::new("x", Span::new(1));
    let b = Ident::new("x", Span::new(2));
    let c = Ident::new("y", Span::new(1));
    assert!(a.same_name(&b));
    assert!(!a.same_name(&c));
    assert!(a.is("x"));
    assert!(!a.is("X"));
    assert_eq!(a.span(), Span::new(1));
    assert_eq!(a.with_suffix("_mut"), Ident::new("x_mut", Span::new(1)));
    assert_eq!(a.clone(), a);
}

#[test]
fn group_is_reported_at_its_opening_bracket() {
    let group = parens(vec![], 4);
    assert_eq!(group.span(), Span::new(4));
    assert!(!group.is_punct(','));
    assert!(punct(',', 0).is_punct(','));
    assert!(!punct('=', 0).is_punct(','));
    let tokens = vec![group];
    let mut input = ParseStream::new(&tokens, SCOPE);
    assert!(input.peek_parenthesized());
    let content = input.parenthesized().unwrap();
    assert!(content.is_empty());
    assert_eq!(content.span(), CLOSE);
    assert_eq!(content.error(Expected::Comma).span(), CLOSE);
    assert!(input.is_empty());
}

fn invisible(tokens: Vec<Token>, id: usize) -> Token {
    Token::Group {
        delimiter: Delimiter::Invisible,
        tokens,
        open: Span::new(id),
        close: Span::new(id + 1),
    }
}

#[test]
fn literal_gives_way_to_what_was_read() {
    assert_eq!(
        token_of("\"x\"".to_string(), Span::new(3), Some("x".to_string())),
        text("x", 3)
    );
    assert_eq!(
        token_of("\"x\"".to_string(), Span::new(3), Some(String::new())),
        text("", 3)
    );
    assert_eq!(
        token_of("17".to_string(), Span::new(3), None),
        literal("17", 3)
    );
}

#[test]
fn cursor_looks_through_groups_without_brackets() {
    let tokens = vec![
        invisible(vec![word("from", 1)], 10),
        punct(',', 2),
        invisible(vec![], 20),
        invisible(
            vec![invisible(vec![word("into", 3), punct(',', 4)], 30), word("deref", 5)],
            40,
        ),
    ];
    let mut input = ParseStream::new(&tokens, SCOPE);
    assert_eq!(input.span(), Span::new(1));
    assert_eq!(input.parse_ident().unwrap(), Ident::new("from", Span::new(1)));
    assert_eq!(input.parse_comma().unwrap(), Span::new(2));
    assert_eq!(input.parse_ident().unwrap(), Ident::new("into", Span::new(3)));
    assert_eq!(input.parse_comma().unwrap(), Span::new(4));
    assert_eq!(input.parse_ident().unwrap(), Ident::new("deref", Span::new(5)));
    assert!(input.is_empty());

    let names: Vec<&str> = directives(&tokens, None)
        .unwrap()
        .iter()
        .map(|directive| directive.kind.name())
        .collect();
    assert_eq!(names, vec!["from", "into", "deref"]);
}

#[test]
fn parameters_are_read_through_groups_without_brackets() {
    // as a macro leaves them behind: `get_ref(name = $name)` and `$list`
    let tokens = vec![invisible(
        vec![
            word("get_ref", 1),
            invisible(
                vec![parens(
                    vec![word("name", 2), punct('=', 3), invisible(vec![text("x", 4)], 50)],
                    5,
                )],
                60,
            ),
        ],
        70,
    )];
    let mut input = ParseStream::new(&tokens, SCOPE);
    let directive = Directive::parse(&mut input, None).unwrap();
    assert_eq!(
        directive.kind,
        DirectiveKind::GetRef(GetParams {
            name: Ident::new("x", Span::new(4))
        })
    );
    assert!(input.is_empty());

    // a group in other brackets is not looked through
    let tokens = vec![Token::Group {
        delimiter: Delimiter::Brace,
        tokens: vec![word("from", 1)],
        open: Span::new(7),
        close: Span::new(8),
    }];
    let error = Directive::parse(&mut ParseStream::new(&tokens, SCOPE), None).unwrap_err();
    assert_eq!(error.kind, ErrorKind::Expected(Expected::Identifier));
    assert_eq!(error.span(), Span::new(7));
}
