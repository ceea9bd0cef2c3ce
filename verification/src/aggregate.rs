//! The handling of values collected into aggregate fields: which conversion
//! failures are reported, which NULLs are left out, and when an optional
//! aggregate is absent.
use vstd::prelude::*;

verus! {

/// The storage class of an SQLite value.
#[derive(Clone, Copy, Debug, PartialEq, Eq, Structural)]
pub enum SqlType {
    Null,
    Integer,
    Real,
    Text,
    Blob,
}

/// Why converting a stored value into an item failed.
#[derive(Clone, Copy, Debug, PartialEq, Eq, Structural)]
pub enum ConversionFailure {
    /// The value's type cannot be converted into the item type.
    InvalidType,
    /// The integer does not fit the item type.
    OutOfRange(i64),
    /// The text is not valid UTF-8.
    Utf8,
    /// Any other kind of failure (such as a blob of the wrong size).
    Unlisted,
    /// The item type reported its own error.
    Other,
}

/// Which error a failed `Other` or unexpected conversion carries.
#[derive(Clone, Copy, Debug, PartialEq, Eq, Structural)]
pub enum FailureSource {
    /// The error the item type reported.
    ItemError,
    /// The conversion failure itself.
    ConversionFailure,
}

/// The error reported for an item that could not be converted.
#[derive(Clone, Copy, Debug, PartialEq, Eq, Structural)]
pub enum ItemError {
    /// The value at this column has a type the item cannot take.
    InvalidColumnType { column: usize, ty: SqlType },
    /// The integer at this column is out of the item's range.
    IntegralValueOutOfRange { column: usize, value: i64 },
    /// The text at this column is not UTF-8.
    Utf8 { column: usize },
    /// Any other failure at this column, carrying the given error.
    ConversionFailure { column: usize, ty: SqlType, source: FailureSource },
}

/// The error reported when converting a value of type `ty` at `column` fails with `failure`.
pub open spec fn spec_item_error(failure: ConversionFailure, column: usize, ty: SqlType) -> ItemError {
    match failure {
        ConversionFailure::InvalidType => ItemError::InvalidColumnType { column, ty },
        ConversionFailure::OutOfRange(value) => ItemError::IntegralValueOutOfRange { column, value },
        ConversionFailure::Utf8 => ItemError::Utf8 { column },
        ConversionFailure::Other => ItemError::ConversionFailure {
            column,
            ty,
            source: FailureSource::ItemError,
        },
        ConversionFailure::Unlisted => ItemError::ConversionFailure {
            column,
            ty,
            source: FailureSource::ConversionFailure,
        },
    }
}

/// The error reported when converting a value of type `ty` at `column` fails with `failure`.
pub fn item_error(failure: ConversionFailure, column: usize, ty: SqlType) -> (res: ItemError)
    ensures
        res == spec_item_error(failure, column, ty),
{
    match failure {
        ConversionFailure::InvalidType => ItemError::InvalidColumnType { column, ty },
        ConversionFailure::OutOfRange(value) => ItemError::IntegralValueOutOfRange { column, value },
        ConversionFailure::Utf8 => ItemError::Utf8 { column },
        ConversionFailure::Other => ItemError::ConversionFailure {
            column,
            ty,
            source: FailureSource::ItemError,
        },
        ConversionFailure::Unlisted => ItemError::ConversionFailure {
            column,
            ty,
            source: FailureSource::ConversionFailure,
        },
    }
}

/// A NULL the item type rejects as an invalid type is left out of the aggregate.
pub open spec fn is_omitted(e: ItemError) -> bool {
    e matches ItemError::InvalidColumnType { ty: SqlType::Null, .. }
}

/// The aggregate of a group's converted values: the first failure that is
/// not an omitted NULL (with the detail `P` it carries), or else every
/// converted item in row order.
pub open spec fn spec_collect<T, P>(outcomes: Seq<Result<T, (ItemError, P)>>) -> Result<Seq<T>, (ItemError, P)>
    decreases outcomes.len(),
{
    if outcomes.len() == 0 {
        Ok(Seq::empty())
    } else {
        match spec_collect(outcomes.drop_last()) {
            Err(e) => Err(e),
            Ok(items) => match outcomes.last() {
                Ok(item) => Ok(items.push(item)),
                Err(e) => if is_omitted(e.0) {
                    Ok(items)
                } else {
                    Err(e)
                },
            },
        }
    }
}

proof fn lemma_collect_prefix_error<T, P>(outcomes: Seq<Result<T, (ItemError, P)>>, n: int)
    requires
        0 <= n <= outcomes.len(),
        spec_collect(outcomes.take(n)) is Err,
    ensures
        spec_collect(outcomes) == spec_collect(outcomes.take(n)),
    decreases outcomes.len(),
{
    if n == outcomes.len() {
        assert(outcomes.take(n) =~= outcomes);
    } else {
        let rest = outcomes.drop_last();
        assert(rest.take(n) =~= outcomes.take(n));
        lemma_collect_prefix_error(rest, n);
    }
}

/// Collects a group's converted values in row order, leaving out NULLs the
/// item type rejects as an invalid type and stopping at any other failure.
pub fn collect_items<T, P>(outcomes: Vec<Result<T, (ItemError, P)>>) -> (res: Result<Vec<T>, (ItemError, P)>)
    ensures
        match res {
            Ok(items) => spec_collect(outcomes@) == Ok::<Seq<T>, (ItemError, P)>(items@),
            Err(e) => spec_collect(outcomes@) == Err::<Seq<T>, (ItemError, P)>(e),
        },
{
    let ghost all = outcomes@;
    let n = outcomes.len();
    let mut rest = outcomes;
    let mut items: Vec<T> = Vec::new();
    let mut i: usize = 0;
    proof {
        assert(all.take(0) =~= Seq::<Result<T, (ItemError, P)>>::empty());
        assert(rest@ =~= all.skip(0));
    }
    while rest.len() > 0
        invariant
            i <= all.len(),
            all.len() == n,
            all == outcomes@,
            rest@ == all.skip(i as int),
            spec_collect(all.take(i as int)) == Ok::<Seq<T>, (ItemError, P)>(items@),
        decreases rest.len(),
    {
        assert(all.take(i + 1).drop_last() =~= all.take(i as int));
        assert(all.take(i + 1).last() == all[i as int]);
        let outcome = rest.remove(0);
        assert(rest@ =~= all.skip(i + 1));
        match outcome {
            Ok(item) => {
                items.push(item);
            },
            Err(e) => {
                let omitted = match e.0 {
                    ItemError::InvalidColumnType { ty: SqlType::Null, .. } => true,
                    _ => false,
                };
                if !omitted {
                    proof {
                        lemma_collect_prefix_error(all, i + 1);
                    }
                    return Err(e);
                }
            },
        }
        i = i + 1;
    }
    proof {
        assert(all.take(i as int) =~= all);
    }
    Ok(items)
}

/// Whether every value of a group is NULL.
pub open spec fn spec_all_null(types: Seq<SqlType>) -> bool {
    forall|i: int| 0 <= i < types.len() ==> types[i] == SqlType::Null
}

/// Whether every value of a group is NULL.
pub fn all_null(types: &Vec<SqlType>) -> (res: bool)
    ensures
        res == spec_all_null(types@),
{
    let mut i: usize = 0;
    while i < types.len()
        invariant
            i <= types.len(),
            forall|j: int| 0 <= j < i ==> types@[j] == SqlType::Null,
        decreases types.len() - i,
    {
        if types[i] != SqlType::Null {
            return false;
        }
        i = i + 1;
    }
    true
}

/// Collects an optional aggregate: absent when every value of the group is
/// NULL, otherwise the collected items (or the first reported failure).
pub fn collect_optional_items<T, P>(types: &Vec<SqlType>, outcomes: Vec<Result<T, (ItemError, P)>>) -> (res: Result<
    Option<Vec<T>>,
    (ItemError, P),
>)
    ensures
        spec_all_null(types@) ==> res matches Ok(None),
        !spec_all_null(types@) ==> match res {
            Ok(Some(items)) => spec_collect(outcomes@) == Ok::<Seq<T>, (ItemError, P)>(items@),
            Ok(None) => false,
            Err(e) => spec_collect(outcomes@) == Err::<Seq<T>, (ItemError, P)>(e),
        },
{
    if all_null(types) {
        Ok(None)
    } else {
        match collect_items(outcomes) {
            Ok(items) => Ok(Some(items)),
            Err(e) => Err(e),
        }
    }
}

} // verus!
