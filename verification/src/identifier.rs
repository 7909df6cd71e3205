//! Identifiers: the key under which a contributed item is stored, made
//! from the kind of the item and its name.

use crate::text::{trim, trimmed};
use vstd::prelude::*;

verus! {

/// The identifier of every item of a kind that has no name to go by. All
/// such items share it, so each of them overwrites the one before.
pub const UNKNOWN_ITEM: &'static str = "unknown";

/// What stands for the type of an `impl` block whose type is not a path.
pub const UNKNOWN_IMPL: &'static str = "impl_unknown";

/// What of a contributed item decides its identifier: its kind, and the
/// name that the kind goes by.
#[derive(Clone, Debug, PartialEq, Eq)]
pub enum ItemHead {
    /// A function, by its name.
    Fn { ident: String },
    /// A struct, by its name.
    Struct { ident: String },
    /// An `impl` block, by the path of its type, if the type is a path.
    Impl { self_ty: Option<String> },
    /// An enum, by its name.
    Enum { ident: String },
    /// A trait, by its name.
    Trait { ident: String },
    /// Any other item.
    Other,
}

/// The identifier of an item: the keyword of its kind, a space and its
/// name; for an `impl` block the trimmed path of its type in place of the
/// name; for any other kind the one identifier that they all share.
pub open spec fn item_identifier(head: ItemHead) -> Seq<char> {
    match head {
        ItemHead::Fn { ident } => "fn "@ + ident@,
        ItemHead::Struct { ident } => "struct "@ + ident@,
        ItemHead::Impl { self_ty: Some(path) } => "impl "@ + trimmed(path@),
        ItemHead::Impl { self_ty: None } => "impl "@ + UNKNOWN_IMPL@,
        ItemHead::Enum { ident } => "enum "@ + ident@,
        ItemHead::Trait { ident } => "trait "@ + ident@,
        ItemHead::Other => UNKNOWN_ITEM@,
    }
}

/// `keyword` and `name` in one string.
fn keyed(keyword: &str, name: &str) -> (id: String)
    ensures
        id@ == keyword@ + name@,
{
    String::from_str(keyword).concat(name)
}

/// The identifier under which an item with this head is stored.
pub fn get_item_identifier(item: &ItemHead) -> (id: String)
    ensures
        id@ == item_identifier(*item),
{
    match item {
        ItemHead::Fn { ident } => keyed("fn ", ident.as_str()),
        ItemHead::Struct { ident } => keyed("struct ", ident.as_str()),
        ItemHead::Impl { self_ty: Some(path) } => keyed("impl ", trim(path.as_str())),
        ItemHead::Impl { self_ty: None } => keyed("impl ", UNKNOWN_IMPL),
        ItemHead::Enum { ident } => keyed("enum ", ident.as_str()),
        ItemHead::Trait { ident } => keyed("trait ", ident.as_str()),
        ItemHead::Other => String::from_str(UNKNOWN_ITEM),
    }
}

} // verus!
