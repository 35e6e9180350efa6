use vstd::prelude::*;

use crate::error::Error;
use crate::error::ErrorKind;
use crate::error::ErrorKindView;
use crate::error::ErrorView;
use crate::parse_stream::ParseStream;
use crate::token::Token;

verus! {

/// The engine's own arguments.
#[derive(Debug, PartialEq, Eq)]
pub struct Args {
    debug: bool,
}

impl View for Args {
    type V = bool;

    closed spec fn view(&self) -> bool {
        self.debug
    }
}

impl Args {
    /// Whether the caller is to print what the engine generated.
    pub fn debug(&self) -> (r: bool)
        ensures
            r == self@,
    {
        self.debug
    }

    /// What the arguments that stand in `tokens` from `pos` on come to:
    /// nothing stands for no printing, the word `debug` for printing. Any
    /// other word is refused, and so is anything that is no word, and
    /// anything behind the word.
    pub open spec fn spec_parse(tokens: Seq<Token>, pos: int) -> Result<bool, ErrorView> {
        if !(0 <= pos < tokens.len()) {
            Ok(false)
        } else {
            match tokens[pos] {
                Token::Ident(ident) => {
                    if ident@.name != "debug"@ {
                        Err(
                            ErrorView {
                                span: ident.span,
                                kind: ErrorKindView::UnknownArgument { found: ident@.name },
                            },
                        )
                    } else if pos + 1 < tokens.len() {
                        Err(
                            ErrorView {
                                span: tokens[pos + 1].spec_span(),
                                kind: ErrorKindView::UnexpectedToken,
                            },
                        )
                    } else {
                        Ok(true)
                    }
                },
                _ => Err(
                    ErrorView { span: tokens[pos].spec_span(), kind: ErrorKindView::UnexpectedToken },
                ),
            }
        }
    }

    /// Reads the engine's arguments, which are all that is left in `input`.
    pub fn parse(input: ParseStream) -> (r: Result<Self, Error>)
        ensures
            match r {
                Ok(args) => Self::spec_parse(input.tokens(), input.pos()) == Ok::<bool, ErrorView>(
                    args@,
                ),
                Err(error) => Self::spec_parse(input.tokens(), input.pos()) == Err::<
                    bool,
                    ErrorView,
                >(error@),
            },
    {
        proof {
            input.lemma_pos_in_range();
        }
        let mut stream = input;
        if stream.is_empty() {
            return Ok(Args { debug: false });
        }
        let debug = match stream.parse_ident() {
            Ok(ident) => {
                if ident.is("debug") {
                    true
                } else {
                    let span = ident.span();
                    return Err(Error::new(span, ErrorKind::UnknownArgument { found: ident.name }));
                }
            },
            Err(_) => {
                return Err(Error::new(stream.span(), ErrorKind::UnexpectedToken));
            },
        };
        if !stream.is_empty() {
            return Err(Error::new(stream.span(), ErrorKind::UnexpectedToken));
        }
        Ok(Args { debug })
    }
}

} // verus!
