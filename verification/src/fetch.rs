//! The read mapping: which expression each field is selected with, how it is
//! decoded, the generated `SELECT` statements, and the bounds the impl needs.
use vstd::prelude::*;
use crate::bounds::{Bound, BoundSubject, BoundTrait, bound_if_generic, push_bound_if_generic};
use crate::model::{FieldAttributes, FieldModel, StructModel, StructShape, TableAttributes, option_view};
use crate::text::{join, join_strings, string_views, unraw, unraw_text};

verus! {

/// Why a read mapping cannot be derived.
#[derive(Clone, Copy, Debug, PartialEq, Eq, Structural)]
pub enum FetchError {
    /// The derive input is an enum or a union.
    NotAStruct,
    /// The struct attributes were rejected.
    TableAttributes,
    /// The attributes of the given field could not be parsed.
    FieldAttributes(usize),
    /// The given field has `item` without `aggregate`.
    ItemWithoutAggregate(usize),
    /// The given field has `optional` without `aggregate`.
    OptionalWithoutAggregate(usize),
    /// The given tuple field has no read expression.
    TupleFieldWithoutColumn(usize),
}

/// How a field's value is produced for each constructed record.
#[derive(Clone, Copy, Debug, PartialEq, Eq, Structural)]
pub enum FieldRead {
    /// `Default::default()`; the field is not selected.
    Default,
    /// Decoded from the selected column with this index.
    Selected { column: usize },
    /// Collected across a group of rows from the selected column with this index.
    Aggregated { column: usize, optional: bool },
}

/// Whether the attributes ask for a defaulted, unselected field.
pub open spec fn reads_default(a: FieldAttributes) -> bool {
    a.read_default || a.default
}

/// The column a named field maps to when nothing else is given: its name without `r#`.
pub open spec fn implicit_column(f: FieldModel) -> Option<Seq<char>> {
    match f.name {
        Some(n) => Some(unraw(n@)),
        None => None,
    }
}

/// The read expression: `select`, else `column`, else the field name.
pub open spec fn read_expression(f: FieldModel, a: FieldAttributes) -> Option<Seq<char>> {
    match a.select {
        Some(s) => Some(s@),
        None => match a.column {
            Some(c) => Some(c@),
            None => implicit_column(f),
        },
    }
}

/// The error the field at position `i` causes, if any.
pub open spec fn field_read_error(f: FieldModel, i: int) -> Option<FetchError> {
    match f.attributes {
        None => Some(FetchError::FieldAttributes(i as usize)),
        Some(a) => if a.item && !a.aggregate {
            Some(FetchError::ItemWithoutAggregate(i as usize))
        } else if a.optional && !a.aggregate {
            Some(FetchError::OptionalWithoutAggregate(i as usize))
        } else if reads_default(a) {
            None
        } else if read_expression(f, a) is None {
            Some(FetchError::TupleFieldWithoutColumn(i as usize))
        } else {
            None
        },
    }
}

/// The error of the first field, in declaration order, that causes one.
pub open spec fn fields_read_error(fields: Seq<FieldModel>) -> Option<FetchError>
    decreases fields.len(),
{
    if fields.len() == 0 {
        None
    } else {
        match fields_read_error(fields.drop_last()) {
            Some(e) => Some(e),
            None => field_read_error(fields.last(), fields.len() - 1),
        }
    }
}

/// The error deriving the read mapping reports, if any.
pub open spec fn fetch_error(m: StructModel) -> Option<FetchError> {
    if m.shape == StructShape::NotAStruct {
        Some(FetchError::NotAStruct)
    } else if m.table is None {
        Some(FetchError::TableAttributes)
    } else {
        fields_read_error(m.fields@)
    }
}

/// Whether a field (with parsed attributes) is selected.
pub open spec fn is_selected(f: FieldModel) -> bool {
    !reads_default(f.attributes.unwrap())
}

/// The selected expressions, in field declaration order, skipping defaulted fields.
pub open spec fn read_columns(fields: Seq<FieldModel>) -> Seq<Seq<char>>
    decreases fields.len(),
{
    if fields.len() == 0 {
        Seq::empty()
    } else if is_selected(fields.last()) {
        read_columns(fields.drop_last()).push(
            read_expression(fields.last(), fields.last().attributes.unwrap()).unwrap(),
        )
    } else {
        read_columns(fields.drop_last())
    }
}

/// How a field is read, given the index its selected column would take.
pub open spec fn field_read(f: FieldModel, column: int) -> FieldRead {
    let a = f.attributes.unwrap();
    if reads_default(a) {
        FieldRead::Default
    } else if a.aggregate {
        FieldRead::Aggregated { column: column as usize, optional: a.optional }
    } else {
        FieldRead::Selected { column: column as usize }
    }
}

/// How each field is read, in declaration order.
pub open spec fn field_reads(fields: Seq<FieldModel>) -> Seq<FieldRead>
    decreases fields.len(),
{
    if fields.len() == 0 {
        Seq::empty()
    } else {
        field_reads(fields.drop_last()).push(
            field_read(fields.last(), read_columns(fields.drop_last()).len() as int),
        )
    }
}

/// The bounds a field's read adds.
pub open spec fn field_read_bounds(f: FieldModel, i: int, params: Seq<String>) -> Seq<Bound> {
    let a = f.attributes.unwrap();
    if reads_default(a) {
        bound_if_generic(f.ty@, params, i, BoundSubject::FieldType, BoundTrait::Default)
    } else if a.aggregate {
        if a.item {
            bound_if_generic(
                f.ty@,
                params,
                i,
                BoundSubject::FieldType,
                if a.optional {
                    BoundTrait::OptionalAggregate
                } else {
                    BoundTrait::FromIterator
                },
            ) + bound_if_generic(f.item_ty@, params, i, BoundSubject::ItemType, BoundTrait::FromSql)
        } else {
            Seq::empty()
        }
    } else {
        bound_if_generic(f.ty@, params, i, BoundSubject::FieldType, BoundTrait::FromSql)
    }
}

/// The read bounds of all fields, in declaration order.
pub open spec fn read_bounds(fields: Seq<FieldModel>, params: Seq<String>) -> Seq<Bound>
    decreases fields.len(),
{
    if fields.len() == 0 {
        Seq::empty()
    } else {
        read_bounds(fields.drop_last(), params) + field_read_bounds(
            fields.last(),
            fields.len() - 1,
            params,
        )
    }
}

/// Whether a field is selected and aggregated.
pub open spec fn is_aggregated(f: FieldModel) -> bool {
    is_selected(f) && f.attributes.unwrap().aggregate
}

/// Whether a field is selected and identifies its group (not aggregated).
pub open spec fn is_identity(f: FieldModel) -> bool {
    is_selected(f) && !f.attributes.unwrap().aggregate
}

/// Whether any field is aggregated.
pub open spec fn has_aggregate(fields: Seq<FieldModel>) -> bool
    decreases fields.len(),
{
    if fields.len() == 0 {
        false
    } else {
        has_aggregate(fields.drop_last()) || is_aggregated(fields.last())
    }
}

/// `PartialEq` bounds for the generic-dependent fields that identify a group.
pub open spec fn identity_bounds(fields: Seq<FieldModel>, params: Seq<String>) -> Seq<Bound>
    decreases fields.len(),
{
    if fields.len() == 0 {
        Seq::empty()
    } else if is_identity(fields.last()) {
        identity_bounds(fields.drop_last(), params) + bound_if_generic(
            fields.last().ty@,
            params,
            fields.len() - 1,
            BoundSubject::FieldType,
            BoundTrait::PartialEq,
        )
    } else {
        identity_bounds(fields.drop_last(), params)
    }
}

/// All bounds of the read impl: per-field bounds, then, when rows are
/// aggregated, `PartialEq` for the identifying fields.
pub open spec fn fetch_bounds(fields: Seq<FieldModel>, params: Seq<String>) -> Seq<Bound> {
    if has_aggregate(fields) {
        read_bounds(fields, params) + identity_bounds(fields, params)
    } else {
        read_bounds(fields, params)
    }
}

/// The read source: `from`, else `table`, else the struct name without `r#`.
pub open spec fn read_source(name: Seq<char>, t: TableAttributes) -> Seq<char> {
    match t.from {
        Some(f) => f@,
        None => match t.table {
            Some(x) => x@,
            None => unraw(name),
        },
    }
}

/// The path generated code uses for the wrapper crate.
pub open spec fn crate_path(t: TableAttributes) -> Seq<char> {
    match t.crate_path {
        Some(p) => p@,
        None => "::rusqlite_derive"@,
    }
}

/// The select list; a constant when no field is selected, so that every
/// source row still yields one record.
pub open spec fn select_list(columns: Seq<Seq<char>>) -> Seq<char> {
    if columns.len() == 0 {
        "1"@
    } else {
        join(columns, ", "@)
    }
}

/// `SELECT <select list> FROM <source>;`
pub open spec fn select_query(columns: Seq<Seq<char>>, source: Seq<char>) -> Seq<char> {
    "SELECT "@ + select_list(columns) + " FROM "@ + source + ";"@
}

/// `SELECT <select list> FROM <source> WHERE `, to which a filter is appended.
pub open spec fn filter_prefix(columns: Seq<Seq<char>>, source: Seq<char>) -> Seq<char> {
    "SELECT "@ + select_list(columns) + " FROM "@ + source + " WHERE "@
}

/// Everything the generated read impl is built from.
pub struct FetchPlan {
    /// The path of the wrapper crate in generated code.
    pub crate_path: String,
    /// The `FROM` fragment.
    pub source: String,
    /// The selected expressions, in order.
    pub columns: Vec<String>,
    /// The statement `fetch` runs.
    pub query: String,
    /// The statement prefix `fetch_with_filter` completes with its filter.
    pub filter_prefix: String,
    /// How each field is read, in declaration order.
    pub reads: Vec<FieldRead>,
    /// The `where` predicates the impl adds.
    pub bounds: Vec<Bound>,
    /// Whether rows are grouped because some field is aggregated.
    pub aggregate: bool,
}

impl FetchPlan {
    /// The statement `fetch_with_filter` runs: the filter inserted verbatim after `WHERE`.
    pub fn filter_query(&self, filter: &str) -> (res: String)
        ensures
            res@ == self.filter_prefix@ + filter@ + ";"@,
    {
        let mut res = self.filter_prefix.clone();
        res.append(filter);
        res.append(";");
        res
    }
}

/// The facts the read plan holds for a valid model.
pub open spec fn fetch_plan_matches(m: StructModel, p: FetchPlan) -> bool {
    let t = m.table.unwrap();
    let source = read_source(m.name@, t);
    let columns = read_columns(m.fields@);
    &&& p.crate_path@ == crate_path(t)
    &&& p.source@ == source
    &&& string_views(p.columns@) == columns
    &&& p.query@ == select_query(columns, source)
    &&& p.filter_prefix@ == filter_prefix(columns, source)
    &&& p.reads@ == field_reads(m.fields@)
    &&& p.bounds@ == fetch_bounds(m.fields@, m.generic_params@)
    &&& p.aggregate == has_aggregate(m.fields@)
}

proof fn lemma_take_step<T>(s: Seq<T>, i: int)
    requires
        0 <= i < s.len(),
    ensures
        s.take(i + 1).drop_last() == s.take(i),
        s.take(i + 1).last() == s[i],
        s.take(i + 1).len() == i + 1,
{
    assert(s.take(i + 1).drop_last() =~= s.take(i));
}

fn clone_expression(f: &FieldModel, a: &FieldAttributes) -> (res: Option<String>)
    ensures
        option_view(res) == read_expression(*f, *a),
{
    match &a.select {
        Some(s) => Some(s.clone()),
        None => match &a.column {
            Some(c) => Some(c.clone()),
            None => match &f.name {
                Some(n) => Some(unraw_text(n.as_str())),
                None => None,
            },
        },
    }
}

/// The wrapper crate path generated code uses: `crate = "..."`, else `::rusqlite_derive`.
pub fn crate_path_text(t: &TableAttributes) -> (res: String)
    ensures
        res@ == crate_path(*t),
{
    match &t.crate_path {
        Some(p) => p.clone(),
        None => String::from_str("::rusqlite_derive"),
    }
}

fn read_source_text(name: &String, t: &TableAttributes) -> (res: String)
    ensures
        res@ == read_source(name@, *t),
{
    match &t.from {
        Some(f) => f.clone(),
        None => match &t.table {
            Some(x) => x.clone(),
            None => unraw_text(name.as_str()),
        },
    }
}

fn select_list_text(columns: &Vec<String>) -> (res: String)
    ensures
        res@ == select_list(string_views(columns@)),
{
    if columns.len() == 0 {
        String::from_str("1")
    } else {
        join_strings(columns, ", ")
    }
}

/// Derives the read mapping of a struct.
///
/// Fails with the error of the first offending item: a non-struct input,
/// rejected struct attributes, then the fields in declaration order.
/// Otherwise the fields are selected in declaration order (defaulted fields
/// are not selected), the source is `from`, else `table`, else the struct
/// name, and bounds are added only for generic-dependent types.
pub fn plan_fetch(m: &StructModel) -> (res: Result<FetchPlan, FetchError>)
    ensures
        match res {
            Ok(p) => fetch_error(*m) is None && fetch_plan_matches(*m, p),
            Err(e) => fetch_error(*m) == Some(e),
        },
{
    if m.shape == StructShape::NotAStruct {
        return Err(FetchError::NotAStruct);
    }
    let t = match &m.table {
        Some(t) => t,
        None => return Err(FetchError::TableAttributes),
    };
    let mut columns: Vec<String> = Vec::new();
    let mut reads: Vec<FieldRead> = Vec::new();
    let mut bounds: Vec<Bound> = Vec::new();
    let mut aggregate = false;
    let ghost fields = m.fields@;
    let mut i: usize = 0;
    while i < m.fields.len()
        invariant
            fields == m.fields@,
            i <= fields.len(),
            fields_read_error(fields.take(i as int)) is None,
            string_views(columns@) == read_columns(fields.take(i as int)),
            reads@ == field_reads(fields.take(i as int)),
            bounds@ == read_bounds(fields.take(i as int), m.generic_params@),
            aggregate == has_aggregate(fields.take(i as int)),
            m.shape != StructShape::NotAStruct,
            m.table is Some,
        decreases fields.len() - i,
    {
        proof {
            lemma_take_step(fields, i as int);
            if field_read_error(fields[i as int], i as int) is Some {
                lemma_prefix_error(fields, i + 1);
            }
        }
        let f = &m.fields[i];
        let a = match &f.attributes {
            Some(a) => a,
            None => return Err(FetchError::FieldAttributes(i)),
        };
        if a.item && !a.aggregate {
            return Err(FetchError::ItemWithoutAggregate(i));
        }
        if a.optional && !a.aggregate {
            return Err(FetchError::OptionalWithoutAggregate(i));
        }
        if a.read_default || a.default {
            push_bound_if_generic(
                &mut bounds,
                &f.ty,
                &m.generic_params,
                i,
                BoundSubject::FieldType,
                BoundTrait::Default,
            );
            reads.push(FieldRead::Default);
        } else {
            let expression = match clone_expression(f, a) {
                Some(e) => e,
                None => return Err(FetchError::TupleFieldWithoutColumn(i)),
            };
            let column = columns.len();
            columns.push(expression);
            if a.aggregate {
                if a.item {
                    push_bound_if_generic(
                        &mut bounds,
                        &f.ty,
                        &m.generic_params,
                        i,
                        BoundSubject::FieldType,
                        if a.optional {
                            BoundTrait::OptionalAggregate
                        } else {
                            BoundTrait::FromIterator
                        },
                    );
                    push_bound_if_generic(
                        &mut bounds,
                        &f.item_ty,
                        &m.generic_params,
                        i,
                        BoundSubject::ItemType,
                        BoundTrait::FromSql,
                    );
                }
                reads.push(FieldRead::Aggregated { column, optional: a.optional });
                aggregate = true;
            } else {
                push_bound_if_generic(
                    &mut bounds,
                    &f.ty,
                    &m.generic_params,
                    i,
                    BoundSubject::FieldType,
                    BoundTrait::FromSql,
                );
                reads.push(FieldRead::Selected { column });
            }
        }
        proof {
            let prefix = fields.take(i + 1);
            assert(string_views(columns@) =~= read_columns(prefix));
            assert(bounds@ =~= read_bounds(prefix, m.generic_params@));
        }
        i = i + 1;
    }
    proof {
        assert(fields.take(fields.len() as int) =~= fields);
    }
    if aggregate {
        let mut j: usize = 0;
        while j < m.fields.len()
            invariant
                fields == m.fields@,
                j <= fields.len(),
                fields_read_error(fields) is None,
                m.shape != StructShape::NotAStruct,
                m.table is Some,
                bounds@ == read_bounds(fields, m.generic_params@) + identity_bounds(
                    fields.take(j as int),
                    m.generic_params@,
                ),
            decreases fields.len() - j,
        {
            proof {
                lemma_take_step(fields, j as int);
                lemma_no_error_prefix(fields, j as int + 1);
            }
            let f = &m.fields[j];
            let selected_plain = match &f.attributes {
                Some(a) => !(a.read_default || a.default) && !a.aggregate,
                None => false,
            };
            let ghost before = bounds@;
            if selected_plain {
                push_bound_if_generic(
                    &mut bounds,
                    &f.ty,
                    &m.generic_params,
                    j,
                    BoundSubject::FieldType,
                    BoundTrait::PartialEq,
                );
            }
            proof {
                let prefix = fields.take(j + 1);
                assert(bounds@ =~= read_bounds(fields, m.generic_params@) + identity_bounds(
                    prefix,
                    m.generic_params@,
                ));
            }
            j = j + 1;
        }
        proof {
            assert(fields.take(fields.len() as int) =~= fields);
        }
    }
    let source = read_source_text(&m.name, t);
    let select = select_list_text(&columns);
    let mut query = String::from_str("SELECT ");
    query.append(select.as_str());
    query.append(" FROM ");
    query.append(source.as_str());
    let mut filter_prefix = query.clone();
    query.append(";");
    filter_prefix.append(" WHERE ");
    Ok(FetchPlan {
        crate_path: crate_path_text(t),
        source,
        columns,
        query,
        filter_prefix,
        reads,
        bounds,
        aggregate,
    })
}

/// The first error within a prefix is the first error of the whole sequence.
proof fn lemma_prefix_error(fields: Seq<FieldModel>, n: int)
    requires
        0 <= n <= fields.len(),
        fields_read_error(fields.take(n)) is Some,
    ensures
        fields_read_error(fields) == fields_read_error(fields.take(n)),
    decreases fields.len(),
{
    if n == fields.len() {
        assert(fields.take(n) =~= fields);
    } else {
        let rest = fields.drop_last();
        assert(rest.take(n) =~= fields.take(n));
        lemma_prefix_error(rest, n);
    }
}

/// A prefix of a sequence of fields without errors has none either, and each
/// of its fields has parsed attributes.
proof fn lemma_no_error_prefix(fields: Seq<FieldModel>, n: int)
    requires
        0 <= n <= fields.len(),
        fields_read_error(fields) is None,
    ensures
        fields_read_error(fields.take(n)) is None,
        forall|k: int| 0 <= k < n ==> (#[trigger] fields[k]).attributes is Some,
    decreases fields.len(),
{
    if fields.len() > 0 {
        let rest = fields.drop_last();
        lemma_no_error_prefix(rest, if n < fields.len() { n } else { rest.len() as int });
        if n == fields.len() {
            assert(fields.take(n) =~= fields);
        } else {
            assert(rest.take(n) =~= fields.take(n));
        }
        assert forall|k: int| 0 <= k < n implies (#[trigger] fields[k]).attributes is Some by {
            if k < rest.len() {
                assert(rest[k] == fields[k]);
            }
        }
    }
}

/// The diagnostic text of a read-mapping error.
pub open spec fn fetch_error_message(e: FetchError) -> Seq<char> {
    match e {
        FetchError::NotAStruct => "only structs are supported for now"@,
        FetchError::TableAttributes => "invalid `rusqlite` struct attribute"@,
        FetchError::FieldAttributes(_) => "invalid `rusqlite` field attribute"@,
        FetchError::ItemWithoutAggregate(_) => "`item` requires `aggregate`"@,
        FetchError::OptionalWithoutAggregate(_) => "`optional` requires `aggregate`"@,
        FetchError::TupleFieldWithoutColumn(_) => "tuple struct fields require #[rusqlite(select = \"...\")], #[rusqlite(column = \"...\")], or #[rusqlite(read_default)]"@,
    }
}

/// The field a read-mapping error points at, if it concerns one field.
pub open spec fn fetch_error_field(e: FetchError) -> Option<usize> {
    match e {
        FetchError::FieldAttributes(i) => Some(i),
        FetchError::ItemWithoutAggregate(i) => Some(i),
        FetchError::OptionalWithoutAggregate(i) => Some(i),
        FetchError::TupleFieldWithoutColumn(i) => Some(i),
        _ => None,
    }
}

impl FetchError {
    /// The diagnostic text.
    pub fn message(&self) -> (res: String)
        ensures
            res@ == fetch_error_message(*self),
    {
        match self {
            FetchError::NotAStruct => String::from_str("only structs are supported for now"),
            FetchError::TableAttributes => String::from_str("invalid `rusqlite` struct attribute"),
            FetchError::FieldAttributes(_) => String::from_str("invalid `rusqlite` field attribute"),
            FetchError::ItemWithoutAggregate(_) => String::from_str("`item` requires `aggregate`"),
            FetchError::OptionalWithoutAggregate(_) => String::from_str("`optional` requires `aggregate`"),
            FetchError::TupleFieldWithoutColumn(_) => String::from_str(
                "tuple struct fields require #[rusqlite(select = \"...\")], #[rusqlite(column = \"...\")], or #[rusqlite(read_default)]",
            ),
        }
    }

    /// The field the error points at; `None` means the struct itself.
    pub fn field(&self) -> (res: Option<usize>)
        ensures
            res == fetch_error_field(*self),
    {
        match self {
            FetchError::FieldAttributes(i) => Some(*i),
            FetchError::ItemWithoutAggregate(i) => Some(*i),
            FetchError::OptionalWithoutAggregate(i) => Some(*i),
            FetchError::TupleFieldWithoutColumn(i) => Some(*i),
            _ => None,
        }
    }
}

} // verus!
