use vstd::prelude::*;

use crate::declaration::ItemEnum;
use crate::declaration::ItemStruct;
use crate::error::Error;
use crate::error::ErrorKind;
use crate::error::ErrorKindView;
use crate::error::ErrorView;
use crate::fragment::Fragment;
use crate::fragment::FragmentView;
use crate::syn_field::first_error;
use crate::syn_item_enum::SynItemEnum;
use crate::syn_item_enum::enum_error;
use crate::syn_item_struct::SynItemStruct;
use crate::token::Span;

verus! {

/// A declaration after the engine has read it: a record type or a tagged union.
#[derive(Debug, PartialEq, Eq)]
pub enum Item {
    Struct(SynItemStruct),
    Enum(SynItemEnum),
}

impl Item {
    /// Why what was annotated is refused; `None` where it is accepted.
    ///
    /// `item_struct` is what was annotated, read as a record type, where it
    /// can be read so; `item_enum` the same for a tagged union. The record
    /// type is looked at first. What is neither is refused at `span`.
    pub open spec fn spec_error(
        item_struct: Option<ItemStruct>,
        item_enum: Option<ItemEnum>,
        span: Span,
    ) -> Option<ErrorView> {
        match item_struct {
            Some(item_struct) => first_error(item_struct.fields@),
            None => match item_enum {
                Some(item_enum) => enum_error(item_enum.variants@, 0),
                None => Some(ErrorView { span, kind: ErrorKindView::ExpectedStructOrEnum }),
            },
        }
    }

    /// Reads what was annotated: as a record type where `item_struct`
    /// holds one, else as a tagged union where `item_enum` holds one.
    pub fn parse(item_struct: Option<ItemStruct>, item_enum: Option<ItemEnum>, span: Span) -> (r:
        Result<Self, Error>)
        ensures
            match r {
                Ok(Item::Struct(parsed)) => {
                    &&& item_struct matches Some(item)
                    &&& parsed.parsed_from(item)
                },
                Ok(Item::Enum(parsed)) => {
                    &&& item_struct is None
                    &&& item_enum matches Some(item)
                    &&& parsed.parsed_from(item)
                },
                Err(error) => Self::spec_error(item_struct, item_enum, span) == Some(error@),
            },
            r is Ok <==> Self::spec_error(item_struct, item_enum, span) is None,
    {
        match item_struct {
            Some(item_struct) => Ok(Item::Struct(SynItemStruct::parse(item_struct)?)),
            None => match item_enum {
                Some(item_enum) => Ok(Item::Enum(SynItemEnum::parse(item_enum)?)),
                None => Err(Error::new(span, ErrorKind::ExpectedStructOrEnum)),
            },
        }
    }

    /// The whole output for the declaration.
    pub open spec fn fragments(&self) -> Seq<FragmentView> {
        match *self {
            Item::Struct(item_struct) => item_struct.fragments(),
            Item::Enum(item_enum) => item_enum.fragments(),
        }
    }

    /// Appends the whole output for the declaration to `tokens`.
    pub fn to_tokens(&self, tokens: &mut Vec<Fragment>)
        ensures
            final(tokens).deep_view() == old(tokens).deep_view() + self.fragments(),
    {
        match self {
            Item::Struct(item_struct) => {
                item_struct.to_tokens(tokens);
            },
            Item::Enum(item_enum) => {
                item_enum.to_tokens(tokens);
            },
        }
    }
}

} // verus!
