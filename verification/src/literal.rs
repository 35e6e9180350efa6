use vstd::prelude::*;

use crate::token::IdentView;
use crate::token::Span;
use crate::token::Token;

verus! {

/// Asks `syn` what the literal written as `repr` denotes: the text of a
/// string literal, or `None` for anything else.
///
/// This is `proc_macro2::Literal::from_str`, then `syn::Lit::new`, then
/// `LitStr::value`. Nothing is proved of it, and nothing is claimed of what
/// comes back.
#[verifier::external_body]
fn read_str_literal(repr: &str) -> (r: Option<String>) {
    match repr.parse::<proc_macro2::Literal>() {
        Ok(literal) => match syn::Lit::new(literal) {
            syn::Lit::Str(string) => Some(string.value()),
            _ => None,
        },
        Err(_) => None,
    }
}

/// The token that a literal written as `repr` at `span` gives way to, once
/// `syn` was asked what it denotes and said `read`: the string with that
/// text, at the same place; or, where `syn` read no string, the literal as
/// it stood.
pub fn token_of(repr: String, span: Span, read: Option<String>) -> (r: Token)
    ensures
        match read {
            Some(value) => r == (Token::Str { value, span }),
            None => r == (Token::Literal { repr, span }),
        },
{
    match read {
        Some(value) => Token::Str { value, span },
        None => Token::Literal { repr, span },
    }
}

/// The name that `token` gives where a string literal is asked for: the
/// text of a string literal that was read, at the place of the token. A
/// literal that is still in its source text gives none: see [`read_literals`].
pub open spec fn string_of(token: Token) -> Option<IdentView> {
    match token {
        Token::Str { value, span } => Some(IdentView { name: value@, span }),
        _ => None,
    }
}

/// Whether `after` may be what reading the literals of `before` comes to.
///
/// A literal stays as it is, or gives way to a string at its place. A group
/// keeps its brackets and their places, and holds what reading its own
/// tokens came to. Any other token stays as it is.
pub open spec fn token_read(before: Token, after: Token) -> bool
    decreases before, 0int,
{
    match before {
        Token::Literal { span, .. } => after == before || (after is Str && after->Str_span == span),
        Token::Group { delimiter, tokens, open, close } => {
            &&& after is Group
            &&& after->Group_delimiter == delimiter
            &&& after->Group_open == open
            &&& after->Group_close == close
            &&& tokens_read(tokens@, after->Group_tokens@)
        },
        _ => after == before,
    }
}

/// Whether `after` may be what reading the literals of `before` comes to:
/// as many tokens, each read as [`token_read`] says.
pub open spec fn tokens_read(before: Seq<Token>, after: Seq<Token>) -> bool
    decreases before, 1int,
{
    &&& after.len() == before.len()
    &&& forall|i: int| 0 <= i < before.len() ==> token_read(#[trigger] before[i], after[i])
}

/// Reads the literals in `tokens`, and in the groups in them: each literal
/// that `syn` reads as a string literal gives way to a [`Token::Str`] with
/// the text it denotes.
///
/// Which literals those are, and what they denote, is `syn`'s to say. The
/// contract says what holds whatever `syn` says: no token is lost or added,
/// none changes its place, and none but a literal changes at all.
pub fn read_literals(tokens: Vec<Token>) -> (r: Vec<Token>)
    ensures
        tokens_read(tokens@, r@),
    decreases tokens,
{
    let mut rest = tokens;
    let mut read: Vec<Token> = Vec::new();
    proof {
        assert(rest@ =~= tokens@.skip(0));
    }
    while rest.len() > 0
        invariant
            read@.len() + rest@.len() == tokens@.len(),
            rest@ == tokens@.skip(read@.len() as int),
            forall|i: int| 0 <= i < read@.len() ==> token_read(#[trigger] tokens@[i], read@[i]),
        decreases rest.len(),
    {
        let ghost pos = read@.len() as int;
        let token = rest.remove(0);
        proof {
            assert(token == tokens@[pos]) by {
                assert(tokens@.skip(pos)[0] == tokens@[pos]);
            }
            assert(rest@ =~= tokens@.skip(pos + 1));
        }
        let next = match token {
            Token::Literal { repr, span } => {
                let read = read_str_literal(repr.as_str());
                token_of(repr, span, read)
            },
            Token::Group { delimiter, tokens: inner, open, close } => {
                proof {
                    broadcast use vstd::std_specs::vec::axiom_vec_index_decreases;

                    assert(decreases_to!(tokens => tokens[pos]));
                }
                Token::Group { delimiter, tokens: read_literals(inner), open, close }
            },
            Token::Ident(ident) => Token::Ident(ident),
            Token::Punct { ch, span } => Token::Punct { ch, span },
            Token::Str { value, span } => Token::Str { value, span },
        };
        read.push(next);
    }
    read
}

} // verus!
