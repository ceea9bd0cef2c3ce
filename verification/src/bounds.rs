//! Trait bounds that the generated impls add for generic-dependent fields.
use vstd::prelude::*;
use crate::tokens::{TypeToken, contains_parameter, tokens_mention};
use crate::text::string_views;

verus! {

/// The trait a generated `where` predicate requires.
#[derive(Clone, Copy, Debug, PartialEq, Eq, Structural)]
pub enum BoundTrait {
    /// `Default`, for `read_default` fields.
    Default,
    /// `FromSql`, for selected values and explicit aggregate items.
    FromSql,
    /// `FromIterator<Item>`, for aggregate collections with an explicit item.
    FromIterator,
    /// The optional-aggregate helper trait over `Item`, for `aggregate(optional)`.
    OptionalAggregate,
    /// `PartialEq`, for the fields that identify a group of aggregated rows.
    PartialEq,
    /// `ToSql`, for written fields.
    ToSql,
}

/// Which type of a field a predicate constrains.
#[derive(Clone, Copy, Debug, PartialEq, Eq, Structural)]
pub enum BoundSubject {
    /// The field's own type.
    FieldType,
    /// The field's explicit aggregate item type.
    ItemType,
}

/// A `where` predicate: `<subject of field> : <trait>` (the aggregate traits
/// take the field's item type as their parameter).
#[derive(Clone, Copy, Debug, PartialEq, Eq, Structural)]
pub struct Bound {
    pub field: usize,
    pub subject: BoundSubject,
    pub bound: BoundTrait,
}

/// Whether a type's tokens mention one of the generic parameters, so that a
/// bound on it belongs in the `where` clause rather than being checked at use.
pub open spec fn uses_generic(ty: Seq<TypeToken>, params: Seq<String>) -> bool {
    tokens_mention(ty, string_views(params))
}

/// The predicate `subject: bound` for field `field`, when the subject type is generic-dependent.
pub open spec fn bound_if_generic(
    ty: Seq<TypeToken>,
    params: Seq<String>,
    field: int,
    subject: BoundSubject,
    bound: BoundTrait,
) -> Seq<Bound> {
    if uses_generic(ty, params) {
        seq![Bound { field: field as usize, subject, bound }]
    } else {
        Seq::empty()
    }
}

/// Adds `subject: bound` for field `field` to `bounds` when the type is generic-dependent.
pub fn push_bound_if_generic(
    bounds: &mut Vec<Bound>,
    ty: &Vec<TypeToken>,
    params: &Vec<String>,
    field: usize,
    subject: BoundSubject,
    bound: BoundTrait,
)
    ensures
        final(bounds)@ == old(bounds)@ + bound_if_generic(ty@, params@, field as int, subject, bound),
{
    if contains_parameter(ty, params) {
        bounds.push(Bound { field, subject, bound });
        assert(final(bounds)@ =~= old(bounds)@ + bound_if_generic(ty@, params@, field as int, subject, bound));
    } else {
        assert(final(bounds)@ =~= old(bounds)@ + bound_if_generic(ty@, params@, field as int, subject, bound));
    }
}

} // verus!
