//! The derive input as plain values: the struct, its fields and the
//! attributes written on them.
use vstd::prelude::*;
use crate::tokens::TypeToken;

verus! {

/// The shape of the item a derive is applied to.
#[derive(Clone, Copy, Debug, PartialEq, Eq, Structural)]
pub enum StructShape {
    /// A struct with named fields.
    Named,
    /// A tuple struct.
    Unnamed,
    /// A unit struct.
    Unit,
    /// An enum or a union, which the derives reject.
    NotAStruct,
}

/// The settings of one field's `#[rusqlite(...)]` attributes.
pub struct FieldAttributes {
    /// `select = "..."`: the read expression.
    pub select: Option<String>,
    /// `column = "..."`: the storage column and default read expression.
    pub column: Option<String>,
    /// `read_default`: omit the field from reads and use `Default::default()`.
    pub read_default: bool,
    /// `default`: the short spelling of `read_default`.
    pub default: bool,
    /// `aggregate`: collect the selected value across grouped rows.
    pub aggregate: bool,
    /// `aggregate(optional)`: an all-NULL group becomes `None`.
    pub optional: bool,
    /// `aggregate(item = Type)`: an explicit item type is given.
    pub item: bool,
    /// `key`: part of the update predicate and upsert conflict target.
    pub key: bool,
    /// `skip_insert`: omitted from inserts.
    pub skip_insert: bool,
    /// `skip_update`: omitted from update assignments.
    pub skip_update: bool,
    /// `skip_write`: excluded from every write.
    pub skip_write: bool,
}

/// One field of the derive input.
pub struct FieldModel {
    /// The field's identifier as written (with any `r#`), for named fields.
    pub name: Option<String>,
    /// The parsed attributes, or `None` when they could not be parsed.
    pub attributes: Option<FieldAttributes>,
    /// The tokens of the field type.
    pub ty: Vec<TypeToken>,
    /// The tokens of the `aggregate(item = Type)` type, when given.
    pub item_ty: Vec<TypeToken>,
}

/// The struct-level `#[rusqlite(...)]` settings.
pub struct TableAttributes {
    /// `from = "..."`: the complete read source.
    pub from: Option<String>,
    /// `table = "..."`: the writable table and default read source.
    pub table: Option<String>,
    /// `crate = "..."`: the path of the wrapper crate.
    pub crate_path: Option<String>,
}

/// The derive input.
pub struct StructModel {
    /// The struct identifier as written (with any `r#`).
    pub name: String,
    /// The item's shape.
    pub shape: StructShape,
    /// The names of the generic parameters (lifetimes without the apostrophe).
    pub generic_params: Vec<String>,
    /// The struct attributes, or `None` when they were rejected.
    pub table: Option<TableAttributes>,
    /// The fields in declaration order.
    pub fields: Vec<FieldModel>,
}

/// The view of an optional string.
pub open spec fn option_view(text: Option<String>) -> Option<Seq<char>> {
    match text {
        Some(s) => Some(s@),
        None => None,
    }
}

/// Copies an optional string.
pub fn clone_option(text: &Option<String>) -> (res: Option<String>)
    ensures
        option_view(res) == option_view(*text),
{
    match text {
        Some(s) => Some(s.clone()),
        None => None,
    }
}

} // verus!
