//! Properties of the derived mappings that hold for every input.
use vstd::prelude::*;
use crate::text::{join, placeholder, string_views};
use crate::model::{FieldModel, StructModel, option_view};
use crate::fetch::{field_read, read_expression, reads_default, select_list, is_selected, fetch_error, fields_read_error, read_columns, field_reads, fetch_bounds, read_bounds, identity_bounds, has_aggregate, field_read_error, field_read_bounds, read_source};
use crate::write::{write_bounds, write_field_outcome, insert_columns, separately_bound_columns, assignments, insert_head, insert_sql, upsert_sql, upsert_assignments, upsert_assignment, write_columns, Pick, WriteColumn, key_columns, picks, repeated_column, select_columns, update_columns, write_failure, written_columns};

verus! {

/// Every member of a selection is a written field at some position.
proof fn lemma_selected_member(cols: Seq<WriteColumn>, p: Pick, x: int)
    requires
        0 <= x < select_columns(cols, p).len(),
    ensures
        exists|i: int| 0 <= i < cols.len() && cols[i] == select_columns(cols, p)[x] && picks(p, cols[i]),
    decreases cols.len(),
{
    let rest = cols.drop_last();
    if picks(p, cols.last()) && x == select_columns(cols, p).len() - 1 {
        assert(cols[cols.len() - 1] == cols.last());
    } else {
        lemma_selected_member(rest, p, x);
        let i = choose|i: int| 0 <= i < rest.len() && rest[i] == select_columns(rest, p)[x] && picks(p, rest[i]);
        assert(cols[i] == rest[i]);
    }
}

/// Without a repetition, written fields at different positions write different columns.
proof fn lemma_distinct_columns(cols: Seq<WriteColumn>, a: int, b: int)
    requires
        repeated_column(cols) is None,
        0 <= a < b < cols.len(),
    ensures
        cols[a].column != cols[b].column,
    decreases cols.len(),
{
    if b < cols.len() - 1 {
        lemma_distinct_columns(cols.drop_last(), a, b);
        assert(cols.drop_last()[a] == cols[a] && cols.drop_last()[b] == cols[b]);
    } else {
        if cols[a].column == cols[b].column {
            assert(cols[a].column == cols.last().column);
            assert(repeated_column(cols.drop_last()) is None);
            assert(exists|k: int| 0 <= k < cols.len() - 1 && #[trigger] cols[k].column == cols.last().column);
        }
    }
}

/// No assigned field is a key, and no assigned column is a key column.
pub open spec fn assigns_no_key(cols: Seq<WriteColumn>) -> bool {
    &&& forall|u: int| 0 <= u < update_columns(cols).len() ==> !(#[trigger] update_columns(cols)[u]).key
    &&& forall|u: int, k: int|
        #![trigger update_columns(cols)[u], key_columns(cols)[k]]
        0 <= u < update_columns(cols).len() && 0 <= k < key_columns(cols).len()
            ==> update_columns(cols)[u].column != key_columns(cols)[k].column
}

/// Updates never assign a key column: every assigned field is a non-key
/// field whose column differs from every key column.
pub proof fn law_update_never_assigns_keys(m: crate::model::StructModel)
    requires
        write_failure(m) is None,
    ensures
        assigns_no_key(written_columns(m.fields@)),
{
    let cols = written_columns(m.fields@);
    assert(write_columns(m.fields@) is Ok);
    assert(repeated_column(cols) is None);
    assert forall|u: int| 0 <= u < update_columns(cols).len() implies !(#[trigger] update_columns(cols)[u]).key by {
        lemma_selected_member(cols, Pick::Updatable, u);
    }
    assert forall|u: int, k: int|
        #![trigger update_columns(cols)[u], key_columns(cols)[k]]
        0 <= u < update_columns(cols).len() && 0 <= k < key_columns(cols).len()
            implies update_columns(cols)[u].column != key_columns(cols)[k].column by {
        lemma_selected_member(cols, Pick::Updatable, u);
        lemma_selected_member(cols, Pick::Key, k);
        let a = choose|i: int| 0 <= i < cols.len() && cols[i] == select_columns(cols, Pick::Updatable)[u] && picks(Pick::Updatable, cols[i]);
        let b = choose|i: int| 0 <= i < cols.len() && cols[i] == select_columns(cols, Pick::Key)[k] && picks(Pick::Key, cols[i]);
        assert(a != b);
        if a < b {
            lemma_distinct_columns(cols, a, b);
        } else {
            lemma_distinct_columns(cols, b, a);
        }
    }
}

/// Each listed assignment is `<column of the t-th field> = ?<t + 1>`.
pub open spec fn binds_in_order(parts: Seq<Seq<char>>, bound: Seq<WriteColumn>) -> bool {
    &&& parts.len() == bound.len()
    &&& forall|t: int| 0 <= t < parts.len() ==> #[trigger] parts[t] == bound[t].column + " = "@ + placeholder((t + 1) as nat)
}

/// In an update, the t-th bound value (`update_values[t]`, the assigned fields
/// then the keys) is the field whose column stands left of `?t+1`, in the
/// assignments and then in the key predicate.
pub proof fn law_update_binds_each_placeholder(cols: Seq<WriteColumn>)
    ensures
        binds_in_order(
            assignments(update_columns(cols), 1) + assignments(
                key_columns(cols),
                update_columns(cols).len() + 1,
            ),
            update_columns(cols) + key_columns(cols),
        ),
{
    let upd = update_columns(cols);
    let keys = key_columns(cols);
    let parts = assignments(upd, 1) + assignments(keys, upd.len() + 1);
    let bound = upd + keys;
    assert forall|t: int| 0 <= t < parts.len() implies #[trigger] parts[t] == bound[t].column + " = "@ + placeholder((t + 1) as nat) by {
        if t >= upd.len() {
            assert(parts[t] == assignments(keys, upd.len() + 1)[t - upd.len()]);
            assert((upd.len() + 1 + (t - upd.len())) as nat == (t + 1) as nat);
        }
    }
}

/// The upsert assignments have one entry per assigned field, and a prefix
/// of the fields gives a prefix of the assignments.
proof fn lemma_upsert_assignments_prefix(upd: Seq<WriteColumn>, start: nat)
    ensures
        upsert_assignments(upd, start).len() == upd.len(),
        forall|k: int| 0 <= k < upd.len() ==> #[trigger] upsert_assignments(upd, start)[k] == upsert_assignment(
            upd[k],
            start + select_columns(upd.take(k), Pick::SkippedOnInsert).len(),
        ),
    decreases upd.len(),
{
    if upd.len() > 0 {
        let rest = upd.drop_last();
        lemma_upsert_assignments_prefix(rest, start);
        assert(upd.take(upd.len() - 1) =~= rest);
        assert forall|k: int| 0 <= k < upd.len() implies #[trigger] upsert_assignments(upd, start)[k] == upsert_assignment(
            upd[k],
            start + select_columns(upd.take(k), Pick::SkippedOnInsert).len(),
        ) by {
            if k < rest.len() {
                assert(rest.take(k) =~= upd.take(k));
                assert(rest[k] == upd[k]);
            }
        }
    }
}

/// The selection from the first `k + 1` fields extends the selection from the
/// first `k` by field `k` exactly when it is selected.
proof fn lemma_select_take_step(cols: Seq<WriteColumn>, p: Pick, k: int)
    requires
        0 <= k < cols.len(),
    ensures
        picks(p, cols[k]) ==> select_columns(cols.take(k + 1), p) == select_columns(cols.take(k), p).push(cols[k]),
        !picks(p, cols[k]) ==> select_columns(cols.take(k + 1), p) == select_columns(cols.take(k), p),
{
    assert(cols.take(k + 1).drop_last() =~= cols.take(k));
}

/// A field selected from the first `k + 1` fields sits, in the full
/// selection, at the index given by the size of the selection before it.
proof fn lemma_selection_index(cols: Seq<WriteColumn>, p: Pick, k: int)
    requires
        0 <= k < cols.len(),
        picks(p, cols[k]),
    ensures
        select_columns(cols.take(k), p).len() < select_columns(cols, p).len(),
        select_columns(cols, p)[select_columns(cols.take(k), p).len() as int] == cols[k],
    decreases cols.len(),
{
    lemma_select_take_step(cols, p, k);
    if k == cols.len() - 1 {
        assert(cols.take(k) =~= cols.drop_last());
    } else {
        let rest = cols.drop_last();
        assert(rest.take(k) =~= cols.take(k));
        assert(rest[k] == cols[k]);
        lemma_selection_index(rest, p, k);
    }
}

/// In an upsert, a field the insert wrote is assigned from `excluded`, and the
/// r-th assigned field that the insert skipped is assigned from `?n+1+r`,
/// where `n` counts the inserted fields; that placeholder binds value
/// `n + r` of `upsert_values` (the inserted fields, then the separately bound
/// ones), which is this same field.
pub proof fn law_upsert_binds_skipped_fields_from_self(cols: Seq<WriteColumn>)
    ensures
        ({
            let ins = insert_columns(cols);
            let upd = update_columns(cols);
            let sep = separately_bound_columns(cols);
            let parts = upsert_assignments(upd, ins.len() + 1);
            &&& parts.len() == upd.len()
            &&& forall|k: int| 0 <= k < upd.len() && !upd[k].skip_insert
                ==> #[trigger] parts[k] == upd[k].column + " = excluded."@ + upd[k].column
            &&& forall|k: int| 0 <= k < upd.len() && upd[k].skip_insert ==> {
                let r = select_columns(upd.take(k), Pick::SkippedOnInsert).len();
                &&& #[trigger] parts[k] == upd[k].column + " = "@ + placeholder((ins.len() + 1 + r) as nat)
                &&& r < sep.len()
                &&& (ins + sep)[(ins.len() + r) as int] == upd[k]
            }
        }),
{
    let ins = insert_columns(cols);
    let upd = update_columns(cols);
    let sep = separately_bound_columns(cols);
    lemma_upsert_assignments_prefix(upd, (ins.len() + 1) as nat);
    assert forall|k: int| 0 <= k < upd.len() && upd[k].skip_insert implies {
        let r = select_columns(upd.take(k), Pick::SkippedOnInsert).len();
        &&& #[trigger] upsert_assignments(upd, (ins.len() + 1) as nat)[k] == upd[k].column + " = "@ + placeholder((ins.len() + 1 + r) as nat)
        &&& r < sep.len()
        &&& (ins + sep)[(ins.len() + r) as int] == upd[k]
    } by {
        lemma_selection_index(upd, Pick::SkippedOnInsert, k);
    }
}

/// `insert_sql` is `insert_head` and a final `;`; the upsert statement
/// starts with the same head, so it inserts the same columns with the same
/// placeholders as the insert statement.
pub proof fn law_upsert_starts_with_insert(
    table: Seq<char>,
    ins: Seq<WriteColumn>,
    upd: Seq<WriteColumn>,
    keys: Seq<WriteColumn>,
)
    ensures
        insert_sql(table, ins).drop_last() == insert_head(table, ins),
        upsert_sql(table, ins, upd, keys).take(insert_head(table, ins).len() as int) == insert_head(table, ins),
{
    reveal_strlit(";");
    assert(insert_sql(table, ins).drop_last() =~= insert_head(table, ins));
    let head = insert_head(table, ins);
    let tail = " ON CONFLICT ("@ + crate::text::join(crate::write::column_names(keys), ", "@) + ") DO UPDATE SET "@
        + join(upsert_assignments(upd, ins.len() + 1), ", "@) + ";"@;
    assert(upsert_sql(table, ins, upd, keys) =~= head + tail);
    assert((head + tail).take(head.len() as int) =~= head);
}

/// Upserts and updates assign the same columns in the same order: the k-th
/// assignment of each starts with `<column of the k-th assigned field> = `.
pub proof fn law_upsert_assigns_update_columns(cols: Seq<WriteColumn>, start: nat)
    ensures
        ({
            let upd = update_columns(cols);
            let lead = |k: int| upd[k].column + " = "@;
            &&& upsert_assignments(upd, start).len() == upd.len()
            &&& assignments(upd, 1).len() == upd.len()
            &&& forall|k: int| 0 <= k < upd.len() ==> (#[trigger] upsert_assignments(upd, start)[k]).take(lead(k).len() as int) == lead(k)
            &&& forall|k: int| 0 <= k < upd.len() ==> (#[trigger] assignments(upd, 1)[k]).take(lead(k).len() as int) == lead(k)
        }),
{
    reveal_strlit(" = ");
    reveal_strlit(" = excluded.");
    let upd = update_columns(cols);
    lemma_upsert_assignments_prefix(upd, start);
    let lead = |k: int| upd[k].column + " = "@;
    assert forall|k: int| 0 <= k < upd.len() implies (#[trigger] upsert_assignments(upd, start)[k]).take(lead(k).len() as int) == lead(k) by {
        let a = upsert_assignments(upd, start)[k];
        if upd[k].skip_insert {
            assert(a.take(lead(k).len() as int) =~= lead(k));
        } else {
            assert(a.take(lead(k).len() as int) =~= lead(k));
        }
    }
    assert forall|k: int| 0 <= k < upd.len() implies (#[trigger] assignments(upd, 1)[k]).take(lead(k).len() as int) == lead(k) by {
        assert(assignments(upd, 1)[k].take(lead(k).len() as int) =~= lead(k));
    }
}

/// Two fields agree on everything the write mapping reads: name, type,
/// column, whether a read expression is given, and the write settings.
pub open spec fn same_write_settings(f: FieldModel, g: FieldModel) -> bool {
    &&& option_view(f.name) == option_view(g.name)
    &&& f.ty@ == g.ty@
    &&& match (f.attributes, g.attributes) {
        (None, None) => true,
        (Some(a), Some(b)) => {
            &&& option_view(a.column) == option_view(b.column)
            &&& (a.select is None) == (b.select is None)
            &&& a.key == b.key
            &&& a.skip_insert == b.skip_insert
            &&& a.skip_update == b.skip_update
            &&& a.skip_write == b.skip_write
        },
        _ => false,
    }
}

/// Two derive inputs agree on everything the write mapping reads; they may
/// differ in `from`, in read expressions, and in the read-only settings
/// (`read_default`, `aggregate` and its options).
pub open spec fn same_write_input(m: StructModel, n: StructModel) -> bool {
    &&& m.shape == n.shape
    &&& string_views(m.generic_params@) == string_views(n.generic_params@)
    &&& m.fields@.len() == n.fields@.len()
    &&& forall|i: int| 0 <= i < m.fields@.len() ==> same_write_settings(#[trigger] m.fields@[i], n.fields@[i])
    &&& match (m.table, n.table) {
        (None, None) => true,
        (Some(a), Some(b)) => option_view(a.table) == option_view(b.table) && option_view(a.crate_path)
            == option_view(b.crate_path),
        _ => false,
    }
}

proof fn lemma_same_write_columns(fs: Seq<FieldModel>, gs: Seq<FieldModel>)
    requires
        fs.len() == gs.len(),
        forall|i: int| 0 <= i < fs.len() ==> same_write_settings(#[trigger] fs[i], gs[i]),
    ensures
        write_columns(fs) == write_columns(gs),
    decreases fs.len(),
{
    if fs.len() > 0 {
        assert forall|i: int| 0 <= i < fs.len() - 1 implies same_write_settings(#[trigger] fs.drop_last()[i], gs.drop_last()[i]) by {
            assert(fs.drop_last()[i] == fs[i] && gs.drop_last()[i] == gs[i]);
        }
        lemma_same_write_columns(fs.drop_last(), gs.drop_last());
        assert(same_write_settings(fs.last(), gs.last()));
        assert(write_field_outcome(fs.last(), fs.len() - 1) == write_field_outcome(gs.last(), gs.len() - 1));
    }
}

proof fn lemma_same_write_bounds(fs: Seq<FieldModel>, gs: Seq<FieldModel>, cols: Seq<WriteColumn>, ps: Seq<String>, qs: Seq<String>)
    requires
        fs.len() == gs.len(),
        forall|i: int| 0 <= i < fs.len() ==> same_write_settings(#[trigger] fs[i], gs[i]),
        forall|k: int| 0 <= k < cols.len() ==> (#[trigger] cols[k]).field < fs.len(),
        string_views(ps) == string_views(qs),
    ensures
        write_bounds(fs, cols, ps) == write_bounds(gs, cols, qs),
    decreases cols.len(),
{
    if cols.len() > 0 {
        lemma_same_write_bounds(fs, gs, cols.drop_last(), ps, qs);
        let f = cols.last().field as int;
        assert(cols[cols.len() - 1].field < fs.len());
        assert(same_write_settings(fs[f], gs[f]));
    }
}

/// The write mapping reads neither `from` nor read expressions' text nor the
/// read-only settings: inputs that agree on the write settings get the same
/// outcome, the same written fields and the same bounds. In particular the
/// written table is `table`, never the read source.
pub proof fn law_write_ignores_read_settings(m: StructModel, n: StructModel)
    requires
        same_write_input(m, n),
        m.fields@.len() <= usize::MAX,
    ensures
        write_failure(m) == write_failure(n),
        written_columns(m.fields@) == written_columns(n.fields@),
        write_failure(m) is None ==> write_bounds(m.fields@, written_columns(m.fields@), m.generic_params@)
            == write_bounds(n.fields@, written_columns(n.fields@), n.generic_params@),
{
    lemma_same_write_columns(m.fields@, n.fields@);
    if write_failure(m) is None {
        crate::write::lemma_write_columns_facts(m.fields@);
        lemma_same_write_bounds(m.fields@, n.fields@, written_columns(m.fields@), m.generic_params@, n.generic_params@);
    }
}

/// Two fields agree on everything the read mapping reads: name, types and
/// the read settings.
pub open spec fn same_read_settings(f: FieldModel, g: FieldModel) -> bool {
    &&& option_view(f.name) == option_view(g.name)
    &&& f.ty@ == g.ty@
    &&& f.item_ty@ == g.item_ty@
    &&& match (f.attributes, g.attributes) {
        (None, None) => true,
        (Some(a), Some(b)) => {
            &&& option_view(a.select) == option_view(b.select)
            &&& option_view(a.column) == option_view(b.column)
            &&& a.read_default == b.read_default
            &&& a.default == b.default
            &&& a.aggregate == b.aggregate
            &&& a.optional == b.optional
            &&& a.item == b.item
        },
        _ => false,
    }
}

/// Two derive inputs agree on everything the read mapping reads; they may
/// differ in the write settings (`key`, `skip_insert`, `skip_update`, `skip_write`).
pub open spec fn same_read_input(m: StructModel, n: StructModel) -> bool {
    &&& m.shape == n.shape
    &&& m.name@ == n.name@
    &&& string_views(m.generic_params@) == string_views(n.generic_params@)
    &&& m.fields@.len() == n.fields@.len()
    &&& forall|i: int| 0 <= i < m.fields@.len() ==> same_read_settings(#[trigger] m.fields@[i], n.fields@[i])
    &&& match (m.table, n.table) {
        (None, None) => true,
        (Some(a), Some(b)) => {
            &&& option_view(a.from) == option_view(b.from)
            &&& option_view(a.table) == option_view(b.table)
            &&& option_view(a.crate_path) == option_view(b.crate_path)
        },
        _ => false,
    }
}

proof fn lemma_same_reads(fs: Seq<FieldModel>, gs: Seq<FieldModel>, ps: Seq<String>, qs: Seq<String>)
    requires
        fs.len() == gs.len(),
        forall|i: int| 0 <= i < fs.len() ==> same_read_settings(#[trigger] fs[i], gs[i]),
        string_views(ps) == string_views(qs),
    ensures
        fields_read_error(fs) == fields_read_error(gs),
        fields_read_error(fs) is None ==> {
            &&& read_columns(fs) == read_columns(gs)
            &&& field_reads(fs) == field_reads(gs)
            &&& read_bounds(fs, ps) == read_bounds(gs, qs)
            &&& identity_bounds(fs, ps) == identity_bounds(gs, qs)
            &&& has_aggregate(fs) == has_aggregate(gs)
        },
    decreases fs.len(),
{
    if fs.len() > 0 {
        assert forall|i: int| 0 <= i < fs.len() - 1 implies same_read_settings(#[trigger] fs.drop_last()[i], gs.drop_last()[i]) by {
            assert(fs.drop_last()[i] == fs[i] && gs.drop_last()[i] == gs[i]);
        }
        lemma_same_reads(fs.drop_last(), gs.drop_last(), ps, qs);
        assert(same_read_settings(fs.last(), gs.last()));
        assert(field_read_error(fs.last(), fs.len() - 1) == field_read_error(gs.last(), gs.len() - 1));
        if fields_read_error(fs) is None {
            assert(field_read_bounds(fs.last(), fs.len() - 1, ps) == field_read_bounds(gs.last(), gs.len() - 1, qs));
        }
    }
}

/// The read mapping does not read the write settings: inputs that agree on
/// the read settings get the same outcome, source, selected columns, field
/// reads and bounds.
pub proof fn law_fetch_ignores_write_settings(m: StructModel, n: StructModel)
    requires
        same_read_input(m, n),
    ensures
        fetch_error(m) == fetch_error(n),
        fetch_error(m) is None ==> {
            &&& read_source(m.name@, m.table.unwrap()) == read_source(n.name@, n.table.unwrap())
            &&& read_columns(m.fields@) == read_columns(n.fields@)
            &&& field_reads(m.fields@) == field_reads(n.fields@)
            &&& fetch_bounds(m.fields@, m.generic_params@) == fetch_bounds(n.fields@, n.generic_params@)
        },
{
    lemma_same_reads(m.fields@, n.fields@, m.generic_params@, n.generic_params@);
}

/// A struct none of whose fields is selected reads the constant `1`, so that
/// every source row still yields one record.
pub proof fn law_unselected_struct_selects_constant(fields: Seq<FieldModel>)
    requires
        forall|i: int| 0 <= i < fields.len() ==> !is_selected(#[trigger] fields[i]),
    ensures
        read_columns(fields).len() == 0,
        select_list(read_columns(fields)) == "1"@,
    decreases fields.len(),
{
    if fields.len() > 0 {
        assert forall|i: int| 0 <= i < fields.len() - 1 implies !is_selected(#[trigger] fields.drop_last()[i]) by {
            assert(fields.drop_last()[i] == fields[i]);
        }
        law_unselected_struct_selects_constant(fields.drop_last());
        assert(!is_selected(fields[fields.len() - 1]));
    }
}

/// The type a bound constrains.
pub open spec fn bound_subject_type(fields: Seq<FieldModel>, b: crate::bounds::Bound) -> Seq<crate::tokens::TypeToken> {
    match b.subject {
        crate::bounds::BoundSubject::FieldType => fields[b.field as int].ty@,
        crate::bounds::BoundSubject::ItemType => fields[b.field as int].item_ty@,
    }
}

/// Every bound names an existing field and a type that mentions a generic parameter.
pub open spec fn bounds_only_generic(fields: Seq<FieldModel>, bounds: Seq<crate::bounds::Bound>, params: Seq<String>) -> bool {
    forall|j: int| 0 <= j < bounds.len() ==> {
        &&& (#[trigger] bounds[j]).field < fields.len()
        &&& crate::bounds::uses_generic(bound_subject_type(fields, bounds[j]), params)
    }
}

proof fn lemma_read_bounds_generic(fields: Seq<FieldModel>, params: Seq<String>)
    requires
        fields_read_error(fields) is None,
        fields.len() <= usize::MAX,
    ensures
        bounds_only_generic(fields, read_bounds(fields, params), params),
        bounds_only_generic(fields, identity_bounds(fields, params), params),
    decreases fields.len(),
{
    if fields.len() > 0 {
        let rest = fields.drop_last();
        lemma_read_bounds_generic(rest, params);
        let before = read_bounds(rest, params);
        let all = read_bounds(fields, params);
        assert forall|j: int| 0 <= j < all.len() implies {
            &&& (#[trigger] all[j]).field < fields.len()
            &&& crate::bounds::uses_generic(bound_subject_type(fields, all[j]), params)
        } by {
            if j < before.len() {
                assert(all[j] == before[j]);
                assert(rest[before[j].field as int] == fields[before[j].field as int]);
            }
        }
        let ib = identity_bounds(fields, params);
        let ib_before = identity_bounds(rest, params);
        assert forall|j: int| 0 <= j < ib.len() implies {
            &&& (#[trigger] ib[j]).field < fields.len()
            &&& crate::bounds::uses_generic(bound_subject_type(fields, ib[j]), params)
        } by {
            if j < ib_before.len() {
                assert(ib[j] == ib_before[j]);
                assert(rest[ib_before[j].field as int] == fields[ib_before[j].field as int]);
            }
        }
    }
}

/// The read impl adds a bound only for a type that mentions a generic
/// parameter; concrete field types are checked where they are used.
pub proof fn law_fetch_bounds_only_generic(m: StructModel)
    requires
        fetch_error(m) is None,
        m.fields@.len() <= usize::MAX,
    ensures
        bounds_only_generic(m.fields@, fetch_bounds(m.fields@, m.generic_params@), m.generic_params@),
{
    lemma_read_bounds_generic(m.fields@, m.generic_params@);
    let r = read_bounds(m.fields@, m.generic_params@);
    let i = identity_bounds(m.fields@, m.generic_params@);
    let all = fetch_bounds(m.fields@, m.generic_params@);
    if has_aggregate(m.fields@) {
        assert forall|j: int| 0 <= j < all.len() implies {
            &&& (#[trigger] all[j]).field < m.fields@.len()
            &&& crate::bounds::uses_generic(bound_subject_type(m.fields@, all[j]), m.generic_params@)
        } by {
            if j < r.len() {
                assert(all[j] == r[j]);
            } else {
                assert(all[j] == i[j - r.len()]);
            }
        }
    }
}

proof fn lemma_write_bounds_generic(fields: Seq<FieldModel>, cols: Seq<WriteColumn>, params: Seq<String>)
    requires
        forall|k: int| 0 <= k < cols.len() ==> (#[trigger] cols[k]).field < fields.len(),
    ensures
        bounds_only_generic(fields, write_bounds(fields, cols, params), params),
    decreases cols.len(),
{
    if cols.len() > 0 {
        lemma_write_bounds_generic(fields, cols.drop_last(), params);
        assert(cols[cols.len() - 1].field < fields.len());
        let before = write_bounds(fields, cols.drop_last(), params);
        let all = write_bounds(fields, cols, params);
        assert forall|j: int| 0 <= j < all.len() implies {
            &&& (#[trigger] all[j]).field < fields.len()
            &&& crate::bounds::uses_generic(bound_subject_type(fields, all[j]), params)
        } by {
            if j < before.len() {
                assert(all[j] == before[j]);
            }
        }
    }
}

/// The write impl adds `ToSql` only for written types that mention a generic parameter.
pub proof fn law_write_bounds_only_generic(m: StructModel)
    requires
        write_failure(m) is None,
        m.fields@.len() <= usize::MAX,
    ensures
        bounds_only_generic(
            m.fields@,
            write_bounds(m.fields@, written_columns(m.fields@), m.generic_params@),
            m.generic_params@,
        ),
{
    crate::write::lemma_write_columns_facts(m.fields@);
    lemma_write_bounds_generic(m.fields@, written_columns(m.fields@), m.generic_params@);
}

/// A struct attribute setting given twice keeps its first value and records
/// the repetition, so that collecting then fails.
pub proof fn law_repeated_setting_is_reported(
    c0: crate::table::TableAttributeCollector,
    c1: crate::table::TableAttributeCollector,
    c2: crate::table::TableAttributeCollector,
    key: crate::table::TableKey,
    v1: Seq<char>,
    p1: usize,
    v2: Seq<char>,
    p2: usize,
)
    requires
        crate::table::accepted(c0, key, v1, p1, c1),
        crate::table::accepted(c1, key, v2, p2, c2),
    ensures
        crate::table::first_value(c2, key) == crate::table::first_value(c1, key),
        crate::table::first_value(c2, key) is Some,
        c2.repetitions@.len() > 0,
        c2.repetitions@.last().key == key && c2.repetitions@.last().repeated == p2,
        crate::table::slot(c0, key) is None ==> crate::table::first_value(c2, key) == Some(v1)
            && c2.repetitions@.last().first == p1,
{
}

/// Without conversion failures, an aggregate holds every converted item in row order.
pub proof fn law_collect_keeps_every_item<T, P>(outcomes: Seq<Result<T, (crate::aggregate::ItemError, P)>>)
    requires
        forall|i: int| 0 <= i < outcomes.len() ==> (#[trigger] outcomes[i]) is Ok,
    ensures
        crate::aggregate::spec_collect(outcomes) == Ok::<Seq<T>, (crate::aggregate::ItemError, P)>(
            outcomes.map_values(|r: Result<T, (crate::aggregate::ItemError, P)>| r->Ok_0),
        ),
    decreases outcomes.len(),
{
    if outcomes.len() > 0 {
        let rest = outcomes.drop_last();
        assert forall|i: int| 0 <= i < rest.len() implies (#[trigger] rest[i]) is Ok by {
            assert(rest[i] == outcomes[i]);
        }
        law_collect_keeps_every_item(rest);
        assert(outcomes[outcomes.len() - 1] is Ok);
        assert(outcomes.map_values(|r: Result<T, (crate::aggregate::ItemError, P)>| r->Ok_0) =~= rest.map_values(
            |r: Result<T, (crate::aggregate::ItemError, P)>| r->Ok_0,
        ).push(outcomes.last()->Ok_0));
    } else {
        assert(outcomes.map_values(|r: Result<T, (crate::aggregate::ItemError, P)>| r->Ok_0) =~= Seq::<T>::empty());
    }
}

/// Omitted NULLs never make an aggregate fail: if every failure is a NULL the
/// item type rejects as an invalid type, collecting succeeds.
pub proof fn law_omitted_nulls_never_fail<T, P>(outcomes: Seq<Result<T, (crate::aggregate::ItemError, P)>>)
    requires
        forall|i: int| 0 <= i < outcomes.len() && (#[trigger] outcomes[i]) is Err ==> crate::aggregate::is_omitted(
            outcomes[i]->Err_0.0,
        ),
    ensures
        crate::aggregate::spec_collect(outcomes) is Ok,
    decreases outcomes.len(),
{
    if outcomes.len() > 0 {
        let rest = outcomes.drop_last();
        assert forall|i: int| 0 <= i < rest.len() && (#[trigger] rest[i]) is Err implies crate::aggregate::is_omitted(
            rest[i]->Err_0.0,
        ) by {
            assert(rest[i] == outcomes[i]);
        }
        law_omitted_nulls_never_fail(rest);
        assert(outcomes[outcomes.len() - 1] == outcomes.last());
    }
}

/// Without an `aggregate(...)` group, flattening keeps every token in place.
pub proof fn law_flatten_keeps_plain_lists(tokens: Seq<crate::tokens::AttributeToken>, i: int)
    requires
        0 <= i <= tokens.len(),
        forall|j: int| 0 <= j < tokens.len() ==> !crate::tokens::opens_aggregate_options(tokens, j),
    ensures
        crate::tokens::flattened_from(tokens, i) == Seq::new(
            (tokens.len() - i) as nat,
            |k: int| crate::tokens::FlatToken::Keep((i + k) as usize),
        ),
    decreases tokens.len() - i,
{
    if i < tokens.len() {
        law_flatten_keeps_plain_lists(tokens, i + 1);
        assert(!crate::tokens::opens_aggregate_options(tokens, i));
        assert(crate::tokens::flattened_from(tokens, i) =~= Seq::new(
            (tokens.len() - i) as nat,
            |k: int| crate::tokens::FlatToken::Keep((i + k) as usize),
        ));
    } else {
        assert(crate::tokens::flattened_from(tokens, i) =~= Seq::new(
            (tokens.len() - i) as nat,
            |k: int| crate::tokens::FlatToken::Keep((i + k) as usize),
        ));
    }
}

/// The reads of the first `i` fields are a prefix of the reads of all fields.
proof fn lemma_reads_prefix(fields: Seq<FieldModel>, i: int)
    requires
        0 <= i <= fields.len(),
        fields_read_error(fields) is None,
    ensures
        field_reads(fields).len() == fields.len(),
        field_reads(fields.take(i)) == field_reads(fields).take(i),
        read_columns(fields.take(i)).len() <= read_columns(fields).len(),
        read_columns(fields.take(i)) == read_columns(fields).take(read_columns(fields.take(i)).len() as int),
    decreases fields.len(),
{
    if fields.len() > 0 {
        let rest = fields.drop_last();
        if i == fields.len() {
            assert(fields.take(i) =~= fields);
            lemma_reads_prefix(rest, rest.len() as int);
            assert(rest.take(rest.len() as int) =~= rest);
            assert(field_reads(fields).take(i) =~= field_reads(fields));
            assert(read_columns(fields).take(read_columns(fields).len() as int) =~= read_columns(fields));
        } else {
            assert(rest.take(i) =~= fields.take(i));
            lemma_reads_prefix(rest, i);
            assert(field_reads(fields).take(i) =~= field_reads(rest).take(i));
            assert(read_columns(fields).take(read_columns(rest.take(i)).len() as int)
                =~= read_columns(rest).take(read_columns(rest.take(i)).len() as int));
        }
    } else {
        assert(fields.take(i) =~= fields);
    }
}

/// A selected field is decoded from the column at index `j` (the number of
/// selected fields before it), and that column is its read expression.
proof fn lemma_read_position(fields: Seq<FieldModel>, i: int)
    requires
        0 <= i < fields.len(),
        fields_read_error(fields) is None,
        is_selected(fields[i]),
    ensures
        ({
            let j = read_columns(fields.take(i)).len() as int;
            &&& j < read_columns(fields).len()
            &&& read_columns(fields)[j] == read_expression(fields[i], fields[i].attributes.unwrap()).unwrap()
            &&& field_reads(fields)[i] == field_read(fields[i], j)
        }),
{
    lemma_reads_prefix(fields, i + 1);
    lemma_reads_prefix(fields, i);
    assert(fields.take(i + 1).drop_last() =~= fields.take(i));
    assert(fields.take(i + 1).last() == fields[i]);
    let j = read_columns(fields.take(i)).len() as int;
    assert(read_columns(fields.take(i + 1)) == read_columns(fields.take(i)).push(
        read_expression(fields[i], fields[i].attributes.unwrap()).unwrap(),
    ));
    assert(read_columns(fields.take(i + 1))[j] == read_columns(fields)[j]);
    assert(field_reads(fields.take(i + 1))[i] == field_reads(fields)[i]);
}

/// What a write stores is what a read gives back: a field that is written and
/// selected without its own `select` expression is decoded from the selected
/// column at the position its read names, and that column is exactly the
/// column the field is written to.
pub proof fn law_written_columns_are_read_back(m: StructModel)
    requires
        write_failure(m) is None,
        fetch_error(m) is None,
        m.fields@.len() <= usize::MAX,
    ensures
        forall|k: int| 0 <= k < written_columns(m.fields@).len() ==> {
            let c = #[trigger] written_columns(m.fields@)[k];
            let f = m.fields@[c.field as int];
            (is_selected(f) && f.attributes.unwrap().select is None) ==> {
                let j = read_columns(m.fields@.take(c.field as int)).len() as int;
                &&& j < read_columns(m.fields@).len()
                &&& read_columns(m.fields@)[j] == c.column
                &&& field_reads(m.fields@)[c.field as int] == field_read(f, j)
            }
        },
{
    let fields = m.fields@;
    let cols = written_columns(fields);
    crate::write::lemma_write_columns_facts(fields);
    lemma_written_field_column(fields);
    assert forall|k: int| 0 <= k < cols.len() implies {
        let c = #[trigger] cols[k];
        let f = fields[c.field as int];
        (is_selected(f) && f.attributes.unwrap().select is None) ==> {
            let j = read_columns(fields.take(c.field as int)).len() as int;
            &&& j < read_columns(fields).len()
            &&& read_columns(fields)[j] == c.column
            &&& field_reads(fields)[c.field as int] == field_read(f, j)
        }
    } by {
        let c = cols[k];
        let f = fields[c.field as int];
        if is_selected(f) && f.attributes.unwrap().select is None {
            lemma_read_position(fields, c.field as int);
        }
    }
}

/// Each written field records its struct position, and, when the field has no
/// `select`, its column is the field's read expression.
proof fn lemma_written_field_column(fields: Seq<FieldModel>)
    requires
        write_columns(fields) is Ok,
        fields.len() <= usize::MAX,
    ensures
        forall|k: int| 0 <= k < written_columns(fields).len() ==> {
            let c = #[trigger] written_columns(fields)[k];
            &&& fields[c.field as int].attributes is Some
            &&& fields[c.field as int].attributes.unwrap().select is None ==> read_expression(
                fields[c.field as int],
                fields[c.field as int].attributes.unwrap(),
            ) == Some(c.column)
        },
    decreases fields.len(),
{
    if fields.len() > 0 {
        let rest = fields.drop_last();
        lemma_written_field_column(rest);
        crate::write::lemma_write_columns_facts(rest);
        let cols = written_columns(fields);
        let before = written_columns(rest);
        assert forall|k: int| 0 <= k < cols.len() implies {
            let c = #[trigger] cols[k];
            &&& fields[c.field as int].attributes is Some
            &&& fields[c.field as int].attributes.unwrap().select is None ==> read_expression(
                fields[c.field as int],
                fields[c.field as int].attributes.unwrap(),
            ) == Some(c.column)
        } by {
            if k < before.len() {
                assert(cols[k] == before[k]);
                assert(before[k].field < rest.len());
                assert(rest[before[k].field as int] == fields[before[k].field as int]);
            } else {
                assert(cols[k].field == fields.len() - 1);
                assert(fields[fields.len() - 1] == fields.last());
            }
        }
    }
}

/// An optional aggregate is absent only when every value of its group is
/// NULL: one non-NULL value at any row makes it present. A group's values
/// are all NULL exactly when those of each part are, and a single value is
/// NULL-only exactly when it is NULL.
pub proof fn law_optional_aggregate_present_with_any_value(
    types: Seq<crate::aggregate::SqlType>,
    more: Seq<crate::aggregate::SqlType>,
    t: crate::aggregate::SqlType,
)
    ensures
        (exists|i: int| 0 <= i < types.len() && types[i] != crate::aggregate::SqlType::Null)
            ==> !crate::aggregate::spec_all_null(types),
        (forall|i: int| 0 <= i < types.len() ==> types[i] == crate::aggregate::SqlType::Null)
            ==> crate::aggregate::spec_all_null(types),
        crate::aggregate::spec_all_null(seq![t]) == (t == crate::aggregate::SqlType::Null),
        crate::aggregate::spec_all_null(types + more) == (crate::aggregate::spec_all_null(types)
            && crate::aggregate::spec_all_null(more)),
{
    if exists|i: int| 0 <= i < types.len() && types[i] != crate::aggregate::SqlType::Null {
        let i = choose|i: int| 0 <= i < types.len() && types[i] != crate::aggregate::SqlType::Null;
        assert(types[i] != crate::aggregate::SqlType::Null);
    }
    assert(seq![t][0] == t);
    let all = types + more;
    if crate::aggregate::spec_all_null(all) {
        assert forall|i: int| 0 <= i < types.len() implies types[i] == crate::aggregate::SqlType::Null by {
            assert(all[i] == types[i]);
        }
        assert forall|i: int| 0 <= i < more.len() implies more[i] == crate::aggregate::SqlType::Null by {
            assert(all[types.len() + i] == more[i]);
        }
    }
    if crate::aggregate::spec_all_null(types) && crate::aggregate::spec_all_null(more) {
        assert forall|i: int| 0 <= i < all.len() implies all[i] == crate::aggregate::SqlType::Null by {
            if i < types.len() {
                assert(all[i] == types[i]);
            } else {
                assert(all[i] == more[i - types.len()]);
            }
        }
    }
}

/// Whether a conversion outcome is left out of an aggregate: only a NULL that
/// the item type rejects as an invalid type.
pub open spec fn null_rejection<T, P>(r: Result<T, (crate::aggregate::ItemError, P)>) -> bool {
    r is Err && (r->Err_0.0 matches crate::aggregate::ItemError::InvalidColumnType {
        ty: crate::aggregate::SqlType::Null,
        ..
    })
}

/// Collecting an aggregate fails with the first failure that is not a NULL
/// rejected as an invalid type: an out-of-range integer, a UTF-8 error, an
/// invalid non-NULL type or any other conversion error is never dropped.
pub proof fn law_collect_reports_first_failure<T, P>(
    outcomes: Seq<Result<T, (crate::aggregate::ItemError, P)>>,
    k: int,
)
    requires
        0 <= k < outcomes.len(),
        outcomes[k] is Err,
        !null_rejection(outcomes[k]),
        forall|j: int| 0 <= j < k ==> (#[trigger] outcomes[j]) is Ok || null_rejection(outcomes[j]),
    ensures
        crate::aggregate::spec_collect(outcomes) == Err::<Seq<T>, (crate::aggregate::ItemError, P)>(
            outcomes[k]->Err_0,
        ),
    decreases outcomes.len(),
{
    let rest = outcomes.drop_last();
    if k < outcomes.len() - 1 {
        assert forall|j: int| 0 <= j < k implies (#[trigger] rest[j]) is Ok || null_rejection(rest[j]) by {
            assert(rest[j] == outcomes[j]);
        }
        assert(rest[k] == outcomes[k]);
        law_collect_reports_first_failure(rest, k);
    } else {
        assert forall|i: int| 0 <= i < rest.len() && (#[trigger] rest[i]) is Err implies crate::aggregate::is_omitted(
            rest[i]->Err_0.0,
        ) by {
            assert(rest[i] == outcomes[i]);
        }
        law_omitted_nulls_never_fail(rest);
        assert(outcomes.last() == outcomes[k]);
    }
}

/// What a successful collection holds: the converted items in row order, with
/// every outcome that is not an item being a NULL rejected as an invalid type.
pub proof fn law_collected_items_are_the_converted_values<T, P>(
    outcomes: Seq<Result<T, (crate::aggregate::ItemError, P)>>,
)
    ensures
        crate::aggregate::spec_collect(outcomes) is Ok ==> {
            &&& forall|j: int| 0 <= j < outcomes.len() ==> (#[trigger] outcomes[j]) is Ok || null_rejection(
                outcomes[j],
            )
            &&& crate::aggregate::spec_collect(outcomes)->Ok_0 == outcomes.filter(
                |r: Result<T, (crate::aggregate::ItemError, P)>| r is Ok,
            ).map_values(|r: Result<T, (crate::aggregate::ItemError, P)>| r->Ok_0)
        },
    decreases outcomes.len(),
{
    if outcomes.len() > 0 {
        let rest = outcomes.drop_last();
        law_collected_items_are_the_converted_values(rest);
        let keep = |r: Result<T, (crate::aggregate::ItemError, P)>| r is Ok;
        let item = |r: Result<T, (crate::aggregate::ItemError, P)>| r->Ok_0;
        assert(outcomes =~= rest.push(outcomes.last()));
        if crate::aggregate::spec_collect(outcomes) is Ok {
            assert(crate::aggregate::spec_collect(rest) is Ok);
            assert forall|j: int| 0 <= j < outcomes.len() implies (#[trigger] outcomes[j]) is Ok || null_rejection(
                outcomes[j],
            ) by {
                if j < rest.len() {
                    assert(rest[j] == outcomes[j]);
                }
            }
            reveal(Seq::filter);
            if outcomes.last() is Ok {
                assert(outcomes.filter(keep) == rest.filter(keep).push(outcomes.last()));
                assert(outcomes.filter(keep).map_values(item) =~= rest.filter(keep).map_values(item).push(
                    outcomes.last()->Ok_0,
                ));
            } else {
                assert(outcomes.filter(keep) == rest.filter(keep));
            }
        }
    } else {
        assert(outcomes.filter(|r: Result<T, (crate::aggregate::ItemError, P)>| r is Ok) =~= Seq::<
            Result<T, (crate::aggregate::ItemError, P)>,
        >::empty()) by {
            reveal(Seq::filter);
        }
    }
}

/// Whether the token at `i` is the identifier `aggregate`.
pub open spec fn is_aggregate_word(tokens: Seq<crate::tokens::AttributeToken>, i: int) -> bool {
    tokens[i] matches crate::tokens::AttributeToken::Ident(name) && name@ == "aggregate"@
}

proof fn lemma_flatten_reaches(tokens: Seq<crate::tokens::AttributeToken>, s: int, i: int)
    requires
        0 <= s <= i < tokens.len(),
        tokens.len() <= usize::MAX,
        tokens[i] is Ident,
    ensures
        exists|p: int|
            0 <= p < crate::tokens::flattened_from(tokens, s).len() && crate::tokens::flattened_from(tokens, s)[p]
                == crate::tokens::FlatToken::Keep(i as usize) && crate::tokens::flattened_from(tokens, s).subrange(
                p,
                crate::tokens::flattened_from(tokens, s).len() as int,
            ) == crate::tokens::flattened_from(tokens, i),
    decreases i - s,
{
    let all = crate::tokens::flattened_from(tokens, s);
    if s == i {
        assert(all.subrange(0, all.len() as int) =~= all);
        assert(all[0] == crate::tokens::FlatToken::Keep(i as usize));
    } else if crate::tokens::opens_aggregate_options(tokens, s) {
        assert(s + 1 != i);
        lemma_flatten_reaches(tokens, s + 2, i);
        let rest = crate::tokens::flattened_from(tokens, s + 2);
        let q = choose|p: int|
            0 <= p < rest.len() && rest[p] == crate::tokens::FlatToken::Keep(i as usize) && rest.subrange(
                p,
                rest.len() as int,
            ) == crate::tokens::flattened_from(tokens, i);
        let head = all.len() - rest.len();
        assert(all.subrange(head, all.len() as int) =~= rest);
        assert(all[head + q] == rest[q]);
        assert(all.subrange(head + q, all.len() as int) =~= rest.subrange(q, rest.len() as int));
        assert(all[head + q] == crate::tokens::FlatToken::Keep(i as usize));
    } else {
        lemma_flatten_reaches(tokens, s + 1, i);
        let rest = crate::tokens::flattened_from(tokens, s + 1);
        let q = choose|p: int|
            0 <= p < rest.len() && rest[p] == crate::tokens::FlatToken::Keep(i as usize) && rest.subrange(
                p,
                rest.len() as int,
            ) == crate::tokens::flattened_from(tokens, i);
        assert(all[1 + q] == rest[q]);
        assert(all.subrange(1 + q, all.len() as int) =~= rest.subrange(q, rest.len() as int));
        assert(all[1 + q] == crate::tokens::FlatToken::Keep(i as usize));
    }
}

/// Every `aggregate` followed by a parenthesised group, wherever it stands
/// in the argument list, has its options spliced in: `aggregate(a, b)`
/// becomes `aggregate`, a comma and the group's contents, and an empty
/// `aggregate()` becomes `aggregate` followed directly by what came after
/// the group. The group itself is never kept.
pub proof fn law_flatten_opens_every_aggregate_group(tokens: Seq<crate::tokens::AttributeToken>, i: int)
    requires
        0 <= i,
        i + 1 < tokens.len(),
        tokens.len() <= usize::MAX,
        is_aggregate_word(tokens, i),
        tokens[i + 1] matches crate::tokens::AttributeToken::Group { parenthesized: true, .. },
    ensures
        ({
            let flat = crate::tokens::flattened_from(tokens, 0);
            exists|p: int|
            #![trigger flat[p]]
            {
            &&& 0 <= p < flat.len()
            &&& flat[p] == crate::tokens::FlatToken::Keep(i as usize)
            &&& (tokens[i + 1] matches crate::tokens::AttributeToken::Group { empty: false, .. }) ==> {
                &&& p + 2 < flat.len()
                &&& flat[p + 1] == crate::tokens::FlatToken::Comma((i + 1) as usize)
                &&& flat[p + 2] == crate::tokens::FlatToken::ContentsOf((i + 1) as usize)
            }
            &&& (tokens[i + 1] matches crate::tokens::AttributeToken::Group { empty: true, .. }) ==> {
                ||| p + 1 == flat.len() && i + 2 == tokens.len()
                ||| p + 1 < flat.len() && i + 2 < tokens.len() && flat[p + 1]
                    == crate::tokens::FlatToken::Keep((i + 2) as usize)
            }
            }
        }),
{
    lemma_flatten_reaches(tokens, 0, i);
    let flat = crate::tokens::flattened_from(tokens, 0);
    let p = choose|p: int|
        0 <= p < flat.len() && flat[p] == crate::tokens::FlatToken::Keep(i as usize) && flat.subrange(
            p,
            flat.len() as int,
        ) == crate::tokens::flattened_from(tokens, i);
    let tail = crate::tokens::flattened_from(tokens, i);
    assert(crate::tokens::opens_aggregate_options(tokens, i));
    let after = crate::tokens::flattened_from(tokens, i + 2);
    if tokens[i + 1] matches crate::tokens::AttributeToken::Group { empty: false, .. } {
        assert(tail =~= seq![
            crate::tokens::FlatToken::Keep(i as usize),
            crate::tokens::FlatToken::Comma((i + 1) as usize),
            crate::tokens::FlatToken::ContentsOf((i + 1) as usize),
        ] + after);
        assert(flat.subrange(p, flat.len() as int).len() == flat.len() - p);
        assert(tail[1] == crate::tokens::FlatToken::Comma((i + 1) as usize));
        assert(tail[2] == crate::tokens::FlatToken::ContentsOf((i + 1) as usize));
        assert(flat.subrange(p, flat.len() as int)[1] == flat[p + 1]);
        assert(flat.subrange(p, flat.len() as int)[2] == flat[p + 2]);
    } else {
        assert(tail =~= seq![crate::tokens::FlatToken::Keep(i as usize)] + after);
        assert(flat.subrange(p, flat.len() as int).len() == flat.len() - p);
        if i + 2 < tokens.len() {
            assert(after[0] == crate::tokens::FlatToken::Keep((i + 2) as usize));
            assert(flat.subrange(p, flat.len() as int)[1] == flat[p + 1]);
        } else {
            assert(after.len() == 0);
        }
    }
}

/// Every field of a model whose written columns are known is parsed, and each
/// parsed field that is not `skip_write` is among the written columns.
proof fn lemma_written_fields(fields: Seq<FieldModel>, i: int)
    requires
        write_columns(fields) is Ok,
        0 <= i < fields.len(),
        fields.len() <= usize::MAX,
    ensures
        fields[i].attributes is Some,
        !fields[i].attributes.unwrap().skip_write ==> exists|k: int|
            0 <= k < written_columns(fields).len() && (#[trigger] written_columns(fields)[k]).field == i,
    decreases fields.len(),
{
    let rest = fields.drop_last();
    if i < fields.len() - 1 {
        assert(rest[i] == fields[i]);
        lemma_written_fields(rest, i);
        if !fields[i].attributes.unwrap().skip_write {
            let k = choose|k: int| 0 <= k < written_columns(rest).len() && (#[trigger] written_columns(rest)[k]).field == i;
            match write_field_outcome(fields.last(), fields.len() - 1) {
                Ok(Some(c)) => {
                    assert(written_columns(fields) == written_columns(rest).push(c));
                    assert(written_columns(fields)[k] == written_columns(rest)[k]);
                },
                _ => {
                    assert(written_columns(fields) == written_columns(rest));
                },
            }
        }
    } else {
        assert(fields.last() == fields[i]);
        if !fields[i].attributes.unwrap().skip_write {
            let c = write_field_outcome(fields.last(), fields.len() - 1)->Ok_0.unwrap();
            assert(written_columns(fields) == written_columns(rest).push(c));
            assert(written_columns(fields)[written_columns(rest).len() as int] == c);
        }
    }
}

/// The write bounds are `ToSql` bounds on field types, one for each written
/// column whose field type mentions a generic parameter.
proof fn lemma_write_bounds_cover(fields: Seq<FieldModel>, cols: Seq<WriteColumn>, params: Seq<String>)
    ensures
        forall|j: int| 0 <= j < write_bounds(fields, cols, params).len() ==> {
            &&& (#[trigger] write_bounds(fields, cols, params)[j]).bound == crate::bounds::BoundTrait::ToSql
            &&& write_bounds(fields, cols, params)[j].subject == crate::bounds::BoundSubject::FieldType
        },
        forall|k: int| 0 <= k < cols.len() && crate::bounds::uses_generic(fields[(#[trigger] cols[k]).field as int].ty@, params)
            ==> write_bounds(fields, cols, params).contains(crate::bounds::Bound {
                field: cols[k].field,
                subject: crate::bounds::BoundSubject::FieldType,
                bound: crate::bounds::BoundTrait::ToSql,
            }),
    decreases cols.len(),
{
    if cols.len() > 0 {
        let rest = cols.drop_last();
        lemma_write_bounds_cover(fields, rest, params);
        let before = write_bounds(fields, rest, params);
        let all = write_bounds(fields, cols, params);
        let added = crate::bounds::bound_if_generic(
            fields[cols.last().field as int].ty@,
            params,
            cols.last().field as int,
            crate::bounds::BoundSubject::FieldType,
            crate::bounds::BoundTrait::ToSql,
        );
        assert(all == before + added);
        assert forall|j: int| 0 <= j < all.len() implies {
            &&& (#[trigger] all[j]).bound == crate::bounds::BoundTrait::ToSql
            &&& all[j].subject == crate::bounds::BoundSubject::FieldType
        } by {
            if j < before.len() {
                assert(all[j] == before[j]);
            } else {
                assert(all[j] == added[j - before.len()]);
            }
        }
        assert forall|k: int| 0 <= k < cols.len() && crate::bounds::uses_generic(fields[(#[trigger] cols[k]).field as int].ty@, params)
            implies all.contains(crate::bounds::Bound {
                field: cols[k].field,
                subject: crate::bounds::BoundSubject::FieldType,
                bound: crate::bounds::BoundTrait::ToSql,
            }) by {
            let b = crate::bounds::Bound {
                field: cols[k].field,
                subject: crate::bounds::BoundSubject::FieldType,
                bound: crate::bounds::BoundTrait::ToSql,
            };
            if k < rest.len() {
                assert(rest[k] == cols[k]);
                assert(before.contains(b));
                let j = choose|j: int| 0 <= j < before.len() && before[j] == b;
                assert(all[j] == before[j]);
            } else {
                assert(cols[k] == cols.last());
                assert(added[0] == b);
                assert(all[before.len() as int] == b);
            }
        }
    }
}

/// The write impl binds fields as `ToSql`: every bound it adds is `ToSql` on a
/// field's type, and every written (not `skip_write`) field whose type
/// mentions a generic parameter gets that bound.
pub proof fn law_write_bounds_are_to_sql(m: StructModel)
    requires
        write_failure(m) is None,
        m.fields@.len() <= usize::MAX,
    ensures
        ({
            let b = write_bounds(m.fields@, written_columns(m.fields@), m.generic_params@);
            &&& forall|j: int| 0 <= j < b.len() ==> (#[trigger] b[j]).bound == crate::bounds::BoundTrait::ToSql
                && b[j].subject == crate::bounds::BoundSubject::FieldType
            &&& forall|i: int| 0 <= i < m.fields@.len()
                && !(#[trigger] m.fields@[i]).attributes.unwrap().skip_write
                && crate::bounds::uses_generic(m.fields@[i].ty@, m.generic_params@)
                ==> b.contains(crate::bounds::Bound {
                    field: i as usize,
                    subject: crate::bounds::BoundSubject::FieldType,
                    bound: crate::bounds::BoundTrait::ToSql,
                })
        }),
{
    let fields = m.fields@;
    let cols = written_columns(fields);
    let params = m.generic_params@;
    assert(write_columns(fields) is Ok);
    lemma_write_bounds_cover(fields, cols, params);
    assert forall|i: int| 0 <= i < fields.len()
        && !(#[trigger] fields[i]).attributes.unwrap().skip_write
        && crate::bounds::uses_generic(fields[i].ty@, params)
        implies write_bounds(fields, cols, params).contains(crate::bounds::Bound {
            field: i as usize,
            subject: crate::bounds::BoundSubject::FieldType,
            bound: crate::bounds::BoundTrait::ToSql,
        }) by {
        lemma_written_fields(fields, i);
        let k = choose|k: int| 0 <= k < cols.len() && (#[trigger] cols[k]).field == i;
        assert(fields[cols[k].field as int] == fields[i]);
    }
}

/// Whether a field's parsed attributes make it selected and aggregated.
pub open spec fn aggregates_values(f: FieldModel) -> bool {
    let a = f.attributes.unwrap();
    a.aggregate && !a.read_default && !a.default
}

/// Whether a field's parsed attributes make it selected and not aggregated,
/// so that it tells groups of rows apart.
pub open spec fn tells_groups_apart(f: FieldModel) -> bool {
    let a = f.attributes.unwrap();
    !a.aggregate && !a.read_default && !a.default
}

/// A model whose read mapping derives has every field's attributes parsed.
proof fn lemma_read_fields_parsed(fields: Seq<FieldModel>, i: int)
    requires
        fields_read_error(fields) is None,
        0 <= i < fields.len(),
    ensures
        fields[i].attributes is Some,
    decreases fields.len(),
{
    let rest = fields.drop_last();
    if i < fields.len() - 1 {
        assert(rest[i] == fields[i]);
        lemma_read_fields_parsed(rest, i);
    } else {
        assert(field_read_error(fields.last(), fields.len() - 1) is None);
        assert(fields.last() == fields[i]);
    }
}

/// Rows are grouped exactly when some field aggregates its values.
proof fn lemma_has_aggregate_some(fields: Seq<FieldModel>)
    ensures
        has_aggregate(fields) <==> exists|j: int| 0 <= j < fields.len() && crate::fetch::is_aggregated(#[trigger] fields[j]),
    decreases fields.len(),
{
    if fields.len() > 0 {
        let rest = fields.drop_last();
        lemma_has_aggregate_some(rest);
        if has_aggregate(rest) {
            let j = choose|j: int| 0 <= j < rest.len() && crate::fetch::is_aggregated(#[trigger] rest[j]);
            assert(rest[j] == fields[j]);
        }
        if exists|j: int| 0 <= j < fields.len() && crate::fetch::is_aggregated(#[trigger] fields[j]) {
            let j = choose|j: int| 0 <= j < fields.len() && crate::fetch::is_aggregated(#[trigger] fields[j]);
            if j < rest.len() {
                assert(rest[j] == fields[j]);
            } else {
                assert(fields.last() == fields[j]);
            }
        }
    }
}

/// The per-field read bounds never ask for `PartialEq`.
proof fn lemma_read_bounds_not_partial_eq(fields: Seq<FieldModel>, params: Seq<String>)
    ensures
        forall|j: int| 0 <= j < read_bounds(fields, params).len()
            ==> (#[trigger] read_bounds(fields, params)[j]).bound != crate::bounds::BoundTrait::PartialEq,
    decreases fields.len(),
{
    if fields.len() > 0 {
        let rest = fields.drop_last();
        lemma_read_bounds_not_partial_eq(rest, params);
        let before = read_bounds(rest, params);
        let added = field_read_bounds(fields.last(), fields.len() - 1, params);
        let all = read_bounds(fields, params);
        assert(all == before + added);
        assert forall|j: int| 0 <= j < all.len() implies (#[trigger] all[j]).bound != crate::bounds::BoundTrait::PartialEq by {
            if j < before.len() {
                assert(all[j] == before[j]);
            } else {
                assert(all[j] == added[j - before.len()]);
            }
        }
    }
}

/// The group bounds are `PartialEq` on the types of the fields that tell
/// groups apart, one for each such field whose type mentions a generic parameter.
proof fn lemma_identity_bounds_cover(fields: Seq<FieldModel>, params: Seq<String>)
    requires
        forall|i: int| 0 <= i < fields.len() ==> (#[trigger] fields[i]).attributes is Some,
        fields.len() <= usize::MAX,
    ensures
        forall|j: int| 0 <= j < identity_bounds(fields, params).len() ==> {
            let b = #[trigger] identity_bounds(fields, params)[j];
            &&& b.bound == crate::bounds::BoundTrait::PartialEq
            &&& b.subject == crate::bounds::BoundSubject::FieldType
            &&& b.field < fields.len()
            &&& tells_groups_apart(fields[b.field as int])
        },
        forall|i: int| 0 <= i < fields.len() && tells_groups_apart(#[trigger] fields[i])
            && crate::bounds::uses_generic(fields[i].ty@, params)
            ==> identity_bounds(fields, params).contains(crate::bounds::Bound {
                field: i as usize,
                subject: crate::bounds::BoundSubject::FieldType,
                bound: crate::bounds::BoundTrait::PartialEq,
            }),
    decreases fields.len(),
{
    if fields.len() > 0 {
        let rest = fields.drop_last();
        assert forall|i: int| 0 <= i < rest.len() implies (#[trigger] rest[i]).attributes is Some by {
            assert(rest[i] == fields[i]);
        }
        lemma_identity_bounds_cover(rest, params);
        let before = identity_bounds(rest, params);
        let all = identity_bounds(fields, params);
        let n = fields.len() - 1;
        let last = fields.last();
        assert(last == fields[n]);
        let added = if crate::fetch::is_identity(last) {
            crate::bounds::bound_if_generic(
                last.ty@,
                params,
                n,
                crate::bounds::BoundSubject::FieldType,
                crate::bounds::BoundTrait::PartialEq,
            )
        } else {
            Seq::empty()
        };
        assert(all =~= before + added);
        assert forall|j: int| 0 <= j < all.len() implies {
            let b = #[trigger] all[j];
            &&& b.bound == crate::bounds::BoundTrait::PartialEq
            &&& b.subject == crate::bounds::BoundSubject::FieldType
            &&& b.field < fields.len()
            &&& tells_groups_apart(fields[b.field as int])
        } by {
            if j < before.len() {
                assert(all[j] == before[j]);
                assert(rest[before[j].field as int] == fields[before[j].field as int]);
            } else {
                assert(all[j] == added[j - before.len()]);
            }
        }
        assert forall|i: int| 0 <= i < fields.len() && tells_groups_apart(#[trigger] fields[i])
            && crate::bounds::uses_generic(fields[i].ty@, params)
            implies all.contains(crate::bounds::Bound {
                field: i as usize,
                subject: crate::bounds::BoundSubject::FieldType,
                bound: crate::bounds::BoundTrait::PartialEq,
            }) by {
            let b = crate::bounds::Bound {
                field: i as usize,
                subject: crate::bounds::BoundSubject::FieldType,
                bound: crate::bounds::BoundTrait::PartialEq,
            };
            if i < n {
                assert(rest[i] == fields[i]);
                assert(before.contains(b));
                let j = choose|j: int| 0 <= j < before.len() && before[j] == b;
                assert(all[j] == before[j]);
            } else {
                assert(added[0] == b);
                assert(all[before.len() as int] == b);
            }
        }
    }
}

/// When rows are grouped because some field aggregates its values, every
/// selected, non-aggregated field tells groups apart and so is compared:
/// its type gets `PartialEq` when it mentions a generic parameter. No
/// aggregated or unselected field is compared, and without aggregation
/// nothing is.
pub proof fn law_grouping_fields_are_comparable(m: StructModel)
    requires
        fetch_error(m) is None,
        m.fields@.len() <= usize::MAX,
    ensures
        ({
            let fields = m.fields@;
            let b = fetch_bounds(fields, m.generic_params@);
            let grouped = exists|j: int| 0 <= j < fields.len() && aggregates_values(#[trigger] fields[j]);
            &&& grouped ==> forall|i: int| 0 <= i < fields.len() && tells_groups_apart(#[trigger] fields[i])
                && crate::bounds::uses_generic(fields[i].ty@, m.generic_params@)
                ==> b.contains(crate::bounds::Bound {
                    field: i as usize,
                    subject: crate::bounds::BoundSubject::FieldType,
                    bound: crate::bounds::BoundTrait::PartialEq,
                })
            &&& forall|j: int| 0 <= j < b.len() && (#[trigger] b[j]).bound == crate::bounds::BoundTrait::PartialEq
                ==> grouped && b[j].field < fields.len() && tells_groups_apart(fields[b[j].field as int])
        }),
{
    let fields = m.fields@;
    let params = m.generic_params@;
    assert forall|i: int| 0 <= i < fields.len() implies (#[trigger] fields[i]).attributes is Some by {
        lemma_read_fields_parsed(fields, i);
    }
    lemma_has_aggregate_some(fields);
    lemma_read_bounds_not_partial_eq(fields, params);
    lemma_identity_bounds_cover(fields, params);
    let grouped = exists|j: int| 0 <= j < fields.len() && aggregates_values(#[trigger] fields[j]);
    if grouped {
        let j = choose|j: int| 0 <= j < fields.len() && aggregates_values(#[trigger] fields[j]);
        assert(crate::fetch::is_aggregated(fields[j]));
    }
    if has_aggregate(fields) {
        let j = choose|j: int| 0 <= j < fields.len() && crate::fetch::is_aggregated(#[trigger] fields[j]);
        assert(aggregates_values(fields[j]));
    }
    let r = read_bounds(fields, params);
    let ib = identity_bounds(fields, params);
    let b = fetch_bounds(fields, params);
    if has_aggregate(fields) {
        assert(b == r + ib);
        assert forall|i: int| 0 <= i < fields.len() && tells_groups_apart(#[trigger] fields[i])
            && crate::bounds::uses_generic(fields[i].ty@, params)
            implies b.contains(crate::bounds::Bound {
                field: i as usize,
                subject: crate::bounds::BoundSubject::FieldType,
                bound: crate::bounds::BoundTrait::PartialEq,
            }) by {
            let x = crate::bounds::Bound {
                field: i as usize,
                subject: crate::bounds::BoundSubject::FieldType,
                bound: crate::bounds::BoundTrait::PartialEq,
            };
            let k = choose|k: int| 0 <= k < ib.len() && ib[k] == x;
            assert(b[r.len() + k] == ib[k]);
        }
        assert forall|j: int| 0 <= j < b.len() && (#[trigger] b[j]).bound == crate::bounds::BoundTrait::PartialEq
            implies grouped && b[j].field < fields.len() && tells_groups_apart(fields[b[j].field as int]) by {
            if j < r.len() {
                assert(b[j] == r[j]);
            } else {
                assert(b[j] == ib[j - r.len()]);
            }
        }
    } else {
        assert(b == r);
    }
}

} // verus!
