//! The write mapping: which fields are written to which columns, the
//! generated `INSERT`, `UPDATE` and upsert statements, and the order in which
//! field values are bound to their placeholders.
use vstd::prelude::*;
use crate::bounds::{Bound, BoundSubject, BoundTrait, bound_if_generic, push_bound_if_generic};
use crate::fetch::crate_path_text;
use crate::fetch::crate_path as spec_crate_path;
use crate::model::{FieldAttributes, FieldModel, StructModel, StructShape};
use crate::text::{join, join_strings, placeholder, placeholder_text, string_views, unraw, unraw_text};

verus! {

/// A written field: its position in the struct, its column and its write settings.
pub struct WriteColumn {
    pub field: usize,
    pub column: Seq<char>,
    pub key: bool,
    pub skip_insert: bool,
    pub skip_update: bool,
}

/// A written field, as the generated impl uses it.
pub struct WriteField {
    /// The field's position in the struct.
    pub field: usize,
    /// The column it is written to.
    pub column: String,
    /// Whether it is a key.
    pub key: bool,
    /// Whether it is left out of inserts.
    pub skip_insert: bool,
    /// Whether it is left out of update assignments.
    pub skip_update: bool,
}

impl View for WriteField {
    type V = WriteColumn;

    open spec fn view(&self) -> WriteColumn {
        WriteColumn {
            field: self.field,
            column: self.column@,
            key: self.key,
            skip_insert: self.skip_insert,
            skip_update: self.skip_update,
        }
    }
}

impl WriteField {
    /// A copy of this written field.
    pub fn copy(&self) -> (res: WriteField)
        ensures
            res@ == self@,
    {
        WriteField {
            field: self.field,
            column: self.column.clone(),
            key: self.key,
            skip_insert: self.skip_insert,
            skip_update: self.skip_update,
        }
    }
}

/// The views of a sequence of written fields.
pub open spec fn column_views(fields: Seq<WriteField>) -> Seq<WriteColumn> {
    fields.map_values(|f: WriteField| f@)
}

/// Why a write mapping cannot be derived (as a value for specifications).
pub enum WriteFailure {
    NotAStruct,
    TableAttributes,
    MissingTable,
    FieldAttributes(usize),
    KeyWithSkipWrite(usize),
    KeyWithSkipUpdate(usize),
    SkipInsertAndUpdate(usize),
    KeyWithoutColumn(usize),
    ReadExpressionWithoutColumn(usize),
    KeyTupleFieldWithoutColumn(usize),
    TupleFieldWithoutColumn(usize),
    DuplicateColumn { field: usize, column: Seq<char> },
    NoKey,
    NoInsertable,
    NoUpdatable,
}

/// Why a write mapping cannot be derived.
#[derive(Debug)]
pub enum WriteError {
    /// The derive input is an enum or a union.
    NotAStruct,
    /// The struct attributes were rejected.
    TableAttributes,
    /// No `table = "..."` was given.
    MissingTable,
    /// The attributes of the given field could not be parsed.
    FieldAttributes(usize),
    /// The given key field has `skip_write`.
    KeyWithSkipWrite(usize),
    /// The given key field has `skip_update`.
    KeyWithSkipUpdate(usize),
    /// The given non-key field has both `skip_insert` and `skip_update`.
    SkipInsertAndUpdate(usize),
    /// The given named key field has a read expression but no column.
    KeyWithoutColumn(usize),
    /// The given named field has a read expression but no column.
    ReadExpressionWithoutColumn(usize),
    /// The given key tuple field has no column.
    KeyTupleFieldWithoutColumn(usize),
    /// The given tuple field has no column.
    TupleFieldWithoutColumn(usize),
    /// The given field writes a column an earlier field already writes.
    DuplicateColumn { field: usize, column: String },
    /// No field is a key.
    NoKey,
    /// Every field is skipped on insert.
    NoInsertable,
    /// No non-key field is updated.
    NoUpdatable,
}

impl View for WriteError {
    type V = WriteFailure;

    open spec fn view(&self) -> WriteFailure {
        match *self {
            WriteError::NotAStruct => WriteFailure::NotAStruct,
            WriteError::TableAttributes => WriteFailure::TableAttributes,
            WriteError::MissingTable => WriteFailure::MissingTable,
            WriteError::FieldAttributes(i) => WriteFailure::FieldAttributes(i),
            WriteError::KeyWithSkipWrite(i) => WriteFailure::KeyWithSkipWrite(i),
            WriteError::KeyWithSkipUpdate(i) => WriteFailure::KeyWithSkipUpdate(i),
            WriteError::SkipInsertAndUpdate(i) => WriteFailure::SkipInsertAndUpdate(i),
            WriteError::KeyWithoutColumn(i) => WriteFailure::KeyWithoutColumn(i),
            WriteError::ReadExpressionWithoutColumn(i) => WriteFailure::ReadExpressionWithoutColumn(i),
            WriteError::KeyTupleFieldWithoutColumn(i) => WriteFailure::KeyTupleFieldWithoutColumn(i),
            WriteError::TupleFieldWithoutColumn(i) => WriteFailure::TupleFieldWithoutColumn(i),
            WriteError::DuplicateColumn { field, column } => WriteFailure::DuplicateColumn {
                field,
                column: column@,
            },
            WriteError::NoKey => WriteFailure::NoKey,
            WriteError::NoInsertable => WriteFailure::NoInsertable,
            WriteError::NoUpdatable => WriteFailure::NoUpdatable,
        }
    }
}

/// The column the field at position `i` is written to, or why it has none.
pub open spec fn write_column(f: FieldModel, a: FieldAttributes, i: int) -> Result<Seq<char>, WriteFailure> {
    match a.column {
        Some(c) => Ok(c@),
        None => match f.name {
            Some(n) => if a.select is None {
                Ok(unraw(n@))
            } else if a.key {
                Err(WriteFailure::KeyWithoutColumn(i as usize))
            } else {
                Err(WriteFailure::ReadExpressionWithoutColumn(i as usize))
            },
            None => if a.key {
                Err(WriteFailure::KeyTupleFieldWithoutColumn(i as usize))
            } else {
                Err(WriteFailure::TupleFieldWithoutColumn(i as usize))
            },
        },
    }
}

/// The field at position `i` as written (`None` when `skip_write`), or why it is refused.
pub open spec fn write_field_outcome(f: FieldModel, i: int) -> Result<Option<WriteColumn>, WriteFailure> {
    match f.attributes {
        None => Err(WriteFailure::FieldAttributes(i as usize)),
        Some(a) => if a.key && a.skip_write {
            Err(WriteFailure::KeyWithSkipWrite(i as usize))
        } else if a.key && a.skip_update {
            Err(WriteFailure::KeyWithSkipUpdate(i as usize))
        } else if !a.key && a.skip_insert && a.skip_update {
            Err(WriteFailure::SkipInsertAndUpdate(i as usize))
        } else if a.skip_write {
            Ok(None)
        } else {
            match write_column(f, a, i) {
                Ok(c) => Ok(
                    Some(
                        WriteColumn {
                            field: i as usize,
                            column: c,
                            key: a.key,
                            skip_insert: a.skip_insert,
                            skip_update: a.skip_update,
                        },
                    ),
                ),
                Err(e) => Err(e),
            }
        },
    }
}

/// The written fields in declaration order, or the first field's refusal.
pub open spec fn write_columns(fields: Seq<FieldModel>) -> Result<Seq<WriteColumn>, WriteFailure>
    decreases fields.len(),
{
    if fields.len() == 0 {
        Ok(Seq::empty())
    } else {
        match write_columns(fields.drop_last()) {
            Err(e) => Err(e),
            Ok(cols) => match write_field_outcome(fields.last(), fields.len() - 1) {
                Err(e) => Err(e),
                Ok(None) => Ok(cols),
                Ok(Some(c)) => Ok(cols.push(c)),
            },
        }
    }
}

/// The written fields when no field is refused (empty otherwise).
pub open spec fn written_columns(fields: Seq<FieldModel>) -> Seq<WriteColumn> {
    match write_columns(fields) {
        Ok(cols) => cols,
        Err(_) => Seq::empty(),
    }
}

/// The first written field whose column an earlier written field already uses.
pub open spec fn repeated_column(cols: Seq<WriteColumn>) -> Option<WriteColumn>
    decreases cols.len(),
{
    if cols.len() == 0 {
        None
    } else {
        match repeated_column(cols.drop_last()) {
            Some(c) => Some(c),
            None => if exists|k: int| 0 <= k < cols.len() - 1 && #[trigger] cols[k].column == cols.last().column {
                Some(cols.last())
            } else {
                None
            },
        }
    }
}

/// A selection of written fields.
#[derive(Clone, Copy, Debug, PartialEq, Eq, Structural)]
pub enum Pick {
    /// Fields that inserts write: not `skip_insert`.
    Insertable,
    /// Fields that updates assign: neither key nor `skip_update`.
    Updatable,
    /// Key fields.
    Key,
    /// Fields with `skip_insert`.
    SkippedOnInsert,
}

/// Whether a written field belongs to a selection.
pub open spec fn picks(p: Pick, c: WriteColumn) -> bool {
    match p {
        Pick::Insertable => !c.skip_insert,
        Pick::Updatable => !c.key && !c.skip_update,
        Pick::Key => c.key,
        Pick::SkippedOnInsert => c.skip_insert,
    }
}

/// The written fields of a selection, in order.
pub open spec fn select_columns(cols: Seq<WriteColumn>, p: Pick) -> Seq<WriteColumn>
    decreases cols.len(),
{
    if cols.len() == 0 {
        Seq::empty()
    } else if picks(p, cols.last()) {
        select_columns(cols.drop_last(), p).push(cols.last())
    } else {
        select_columns(cols.drop_last(), p)
    }
}

/// The fields an insert writes.
pub open spec fn insert_columns(cols: Seq<WriteColumn>) -> Seq<WriteColumn> {
    select_columns(cols, Pick::Insertable)
}

/// The fields an update assigns.
pub open spec fn update_columns(cols: Seq<WriteColumn>) -> Seq<WriteColumn> {
    select_columns(cols, Pick::Updatable)
}

/// The key fields.
pub open spec fn key_columns(cols: Seq<WriteColumn>) -> Seq<WriteColumn> {
    select_columns(cols, Pick::Key)
}

/// The updated fields that an upsert binds separately because inserts skip them.
pub open spec fn separately_bound_columns(cols: Seq<WriteColumn>) -> Seq<WriteColumn> {
    select_columns(update_columns(cols), Pick::SkippedOnInsert)
}

/// The column names of written fields.
pub open spec fn column_names(cols: Seq<WriteColumn>) -> Seq<Seq<char>> {
    cols.map_values(|c: WriteColumn| c.column)
}

/// The struct positions of written fields.
pub open spec fn field_positions(cols: Seq<WriteColumn>) -> Seq<usize> {
    cols.map_values(|c: WriteColumn| c.field)
}

/// The placeholders `?start`, `?start+1`, ... (`count` of them).
pub open spec fn placeholders(start: nat, count: nat) -> Seq<Seq<char>> {
    Seq::new(count, |k: int| placeholder((start + k) as nat))
}

/// `<column> = ?<start + k>` for the k-th field.
pub open spec fn assignments(cols: Seq<WriteColumn>, start: nat) -> Seq<Seq<char>> {
    Seq::new(cols.len(), |k: int| cols[k].column + " = "@ + placeholder((start + k) as nat))
}

/// An upsert assignment: from `excluded` for a field the insert wrote,
/// from the placeholder `?next` for a field the insert skipped.
pub open spec fn upsert_assignment(c: WriteColumn, next: nat) -> Seq<char> {
    if c.skip_insert {
        c.column + " = "@ + placeholder(next)
    } else {
        c.column + " = excluded."@ + c.column
    }
}

/// The upsert assignments of the updated fields; separately bound fields take
/// consecutive placeholders from `start`.
pub open spec fn upsert_assignments(upd: Seq<WriteColumn>, start: nat) -> Seq<Seq<char>>
    decreases upd.len(),
{
    if upd.len() == 0 {
        Seq::empty()
    } else {
        upsert_assignments(upd.drop_last(), start).push(
            upsert_assignment(
                upd.last(),
                start + select_columns(upd.drop_last(), Pick::SkippedOnInsert).len(),
            ),
        )
    }
}

/// `INSERT INTO <table> (<columns>) VALUES (?1, ..., ?n)`, without the final `;`.
pub open spec fn insert_head(table: Seq<char>, ins: Seq<WriteColumn>) -> Seq<char> {
    "INSERT INTO "@ + table + " ("@ + join(column_names(ins), ", "@) + ") VALUES ("@ + join(
        placeholders(1, ins.len()),
        ", "@,
    ) + ")"@
}

/// The insert statement.
pub open spec fn insert_sql(table: Seq<char>, ins: Seq<WriteColumn>) -> Seq<char> {
    insert_head(table, ins) + ";"@
}

/// The update statement: assignments bound first, then the key predicate.
pub open spec fn update_sql(table: Seq<char>, upd: Seq<WriteColumn>, keys: Seq<WriteColumn>) -> Seq<char> {
    "UPDATE "@ + table + " SET "@ + join(assignments(upd, 1), ", "@) + " WHERE "@ + join(
        assignments(keys, upd.len() + 1),
        " AND "@,
    ) + ";"@
}

/// The upsert statement: the insert, then the conflict clause on the keys
/// and the update assignments.
pub open spec fn upsert_sql(
    table: Seq<char>,
    ins: Seq<WriteColumn>,
    upd: Seq<WriteColumn>,
    keys: Seq<WriteColumn>,
) -> Seq<char> {
    insert_head(table, ins) + " ON CONFLICT ("@ + join(column_names(keys), ", "@) + ") DO UPDATE SET "@
        + join(upsert_assignments(upd, ins.len() + 1), ", "@) + ";"@
}

/// `ToSql` bounds for the generic-dependent written fields, in write order.
pub open spec fn write_bounds(fields: Seq<FieldModel>, cols: Seq<WriteColumn>, params: Seq<String>) -> Seq<Bound>
    decreases cols.len(),
{
    if cols.len() == 0 {
        Seq::empty()
    } else {
        write_bounds(fields, cols.drop_last(), params) + bound_if_generic(
            fields[cols.last().field as int].ty@,
            params,
            cols.last().field as int,
            BoundSubject::FieldType,
            BoundTrait::ToSql,
        )
    }
}

/// The error deriving the write mapping reports, if any.
pub open spec fn write_failure(m: StructModel) -> Option<WriteFailure> {
    if m.shape == StructShape::NotAStruct {
        Some(WriteFailure::NotAStruct)
    } else if m.table is None {
        Some(WriteFailure::TableAttributes)
    } else if m.table.unwrap().table is None {
        Some(WriteFailure::MissingTable)
    } else {
        match write_columns(m.fields@) {
            Err(e) => Some(e),
            Ok(cols) => match repeated_column(cols) {
                Some(c) => Some(WriteFailure::DuplicateColumn { field: c.field, column: c.column }),
                None => if key_columns(cols).len() == 0 {
                    Some(WriteFailure::NoKey)
                } else if insert_columns(cols).len() == 0 {
                    Some(WriteFailure::NoInsertable)
                } else if update_columns(cols).len() == 0 {
                    Some(WriteFailure::NoUpdatable)
                } else {
                    None
                },
            },
        }
    }
}

proof fn lemma_take_step<T>(s: Seq<T>, i: int)
    requires
        0 <= i < s.len(),
    ensures
        s.take(i + 1).drop_last() == s.take(i),
        s.take(i + 1).last() == s[i],
{
    assert(s.take(i + 1).drop_last() =~= s.take(i));
}

/// A refusal within a prefix of the fields is the refusal of all of them.
proof fn lemma_prefix_refusal(fields: Seq<FieldModel>, n: int)
    requires
        0 <= n <= fields.len(),
        write_columns(fields.take(n)) is Err,
    ensures
        write_columns(fields) == write_columns(fields.take(n)),
    decreases fields.len(),
{
    if n == fields.len() {
        assert(fields.take(n) =~= fields);
    } else {
        let rest = fields.drop_last();
        assert(rest.take(n) =~= fields.take(n));
        lemma_prefix_refusal(rest, n);
    }
}

fn field_write_column(f: &FieldModel, a: &FieldAttributes, i: usize) -> (res: Result<String, WriteError>)
    ensures
        match res {
            Ok(c) => write_column(*f, *a, i as int) == Ok::<Seq<char>, WriteFailure>(c@),
            Err(e) => write_column(*f, *a, i as int) == Err::<Seq<char>, WriteFailure>(e@),
        },
{
    match &a.column {
        Some(c) => Ok(c.clone()),
        None => match &f.name {
            Some(n) => if a.select.is_none() {
                Ok(unraw_text(n.as_str()))
            } else if a.key {
                Err(WriteError::KeyWithoutColumn(i))
            } else {
                Err(WriteError::ReadExpressionWithoutColumn(i))
            },
            None => if a.key {
                Err(WriteError::KeyTupleFieldWithoutColumn(i))
            } else {
                Err(WriteError::TupleFieldWithoutColumn(i))
            },
        },
    }
}

/// The written fields of a struct in declaration order, or the first field's refusal.
pub fn collect_write_fields(fields: &Vec<FieldModel>) -> (res: Result<Vec<WriteField>, WriteError>)
    ensures
        match res {
            Ok(cols) => write_columns(fields@) == Ok::<Seq<WriteColumn>, WriteFailure>(column_views(cols@)),
            Err(e) => write_columns(fields@) == Err::<Seq<WriteColumn>, WriteFailure>(e@),
        },
{
    let mut cols: Vec<WriteField> = Vec::new();
    let mut i: usize = 0;
    proof {
        assert(column_views(cols@) =~= Seq::<WriteColumn>::empty());
        assert(fields@.take(0) =~= Seq::<FieldModel>::empty());
    }
    while i < fields.len()
        invariant
            i <= fields.len(),
            write_columns(fields@.take(i as int)) == Ok::<Seq<WriteColumn>, WriteFailure>(column_views(cols@)),
        decreases fields.len() - i,
    {
        proof {
            lemma_take_step(fields@, i as int);
        }
        let f = &fields[i];
        let outcome: Result<Option<WriteField>, WriteError> = match &f.attributes {
            None => Err(WriteError::FieldAttributes(i)),
            Some(a) => if a.key && a.skip_write {
                Err(WriteError::KeyWithSkipWrite(i))
            } else if a.key && a.skip_update {
                Err(WriteError::KeyWithSkipUpdate(i))
            } else if !a.key && a.skip_insert && a.skip_update {
                Err(WriteError::SkipInsertAndUpdate(i))
            } else if a.skip_write {
                Ok(None)
            } else {
                match field_write_column(f, a, i) {
                    Ok(column) => Ok(Some(WriteField {
                        field: i,
                        column,
                        key: a.key,
                        skip_insert: a.skip_insert,
                        skip_update: a.skip_update,
                    })),
                    Err(e) => Err(e),
                }
            },
        };
        assert(match outcome {
            Err(e) => write_field_outcome(*f, i as int) == Err::<Option<WriteColumn>, WriteFailure>(e@),
            Ok(None) => write_field_outcome(*f, i as int) == Ok::<Option<WriteColumn>, WriteFailure>(None),
            Ok(Some(c)) => write_field_outcome(*f, i as int) == Ok::<Option<WriteColumn>, WriteFailure>(Some(c@)),
        });
        let ghost before = column_views(cols@);
        match outcome {
            Err(e) => {
                proof {
                    lemma_prefix_refusal(fields@, i + 1);
                }
                return Err(e);
            },
            Ok(None) => {},
            Ok(Some(c)) => {
                cols.push(c);
                proof {
                    assert(column_views(cols@) =~= before.push(cols@.last()@));
                }
            },
        }
        i = i + 1;
    }
    proof {
        assert(fields@.take(fields.len() as int) =~= fields@);
    }
    Ok(cols)
}

/// A repetition within a prefix is the first repetition of the whole sequence.
proof fn lemma_prefix_repetition(cols: Seq<WriteColumn>, n: int)
    requires
        0 <= n <= cols.len(),
        repeated_column(cols.take(n)) is Some,
    ensures
        repeated_column(cols) == repeated_column(cols.take(n)),
    decreases cols.len(),
{
    if n == cols.len() {
        assert(cols.take(n) =~= cols);
    } else {
        let rest = cols.drop_last();
        assert(rest.take(n) =~= cols.take(n));
        lemma_prefix_repetition(rest, n);
    }
}

/// The position (among written fields) of the first field whose column an
/// earlier written field already uses.
pub fn find_repeated_column(cols: &Vec<WriteField>) -> (res: Option<usize>)
    ensures
        match res {
            Some(j) => j < cols.len() && repeated_column(column_views(cols@)) == Some(cols@[j as int]@),
            None => repeated_column(column_views(cols@)) is None,
        },
{
    let ghost views = column_views(cols@);
    let mut j: usize = 0;
    proof {
        assert(views.take(0) =~= Seq::<WriteColumn>::empty());
    }
    while j < cols.len()
        invariant
            j <= cols.len(),
            views == column_views(cols@),
            repeated_column(views.take(j as int)) is None,
        decreases cols.len() - j,
    {
        proof {
            lemma_take_step(views, j as int);
        }
        let mut k: usize = 0;
        while k < j
            invariant
                k <= j < cols.len(),
                views == column_views(cols@),
                forall|l: int| 0 <= l < k ==> views[l].column != views[j as int].column,
                repeated_column(views.take(j as int)) is None,
            decreases j - k,
        {
            if crate::text::same_text(cols[k].column.as_str(), cols[j].column.as_str()) {
                proof {
                    lemma_take_step(views, j as int);
                    let prefix = views.take(j + 1);
                    assert(prefix[k as int].column == prefix.last().column);
                    lemma_prefix_repetition(views, j + 1);
                }
                return Some(j);
            }
            k = k + 1;
        }
        proof {
            let prefix = views.take(j + 1);
            assert forall|l: int| 0 <= l < prefix.len() - 1 implies #[trigger] prefix[l].column != prefix.last().column by {
                assert(prefix[l] == views[l]);
            }
        }
        j = j + 1;
    }
    proof {
        assert(views.take(cols.len() as int) =~= views);
    }
    None
}

/// The written fields of a selection, in order.
pub fn pick_columns(cols: &Vec<WriteField>, p: Pick) -> (res: Vec<WriteField>)
    ensures
        column_views(res@) == select_columns(column_views(cols@), p),
{
    let ghost views = column_views(cols@);
    let mut res: Vec<WriteField> = Vec::new();
    let mut i: usize = 0;
    proof {
        assert(views.take(0) =~= Seq::<WriteColumn>::empty());
        assert(column_views(res@) =~= Seq::<WriteColumn>::empty());
    }
    while i < cols.len()
        invariant
            i <= cols.len(),
            views == column_views(cols@),
            column_views(res@) == select_columns(views.take(i as int), p),
        decreases cols.len() - i,
    {
        proof {
            lemma_take_step(views, i as int);
        }
        let c = &cols[i];
        let chosen = match p {
            Pick::Insertable => !c.skip_insert,
            Pick::Updatable => !c.key && !c.skip_update,
            Pick::Key => c.key,
            Pick::SkippedOnInsert => c.skip_insert,
        };
        let ghost before = column_views(res@);
        if chosen {
            res.push(c.copy());
            proof {
                assert(column_views(res@) =~= before.push(views[i as int]));
            }
        }
        i = i + 1;
    }
    proof {
        assert(views.take(cols.len() as int) =~= views);
    }
    res
}

/// The column names of written fields.
pub fn column_name_list(cols: &Vec<WriteField>) -> (res: Vec<String>)
    ensures
        string_views(res@) == column_names(column_views(cols@)),
{
    let mut res: Vec<String> = Vec::new();
    let mut i: usize = 0;
    while i < cols.len()
        invariant
            i <= cols.len(),
            string_views(res@) == column_names(column_views(cols@)).take(i as int),
        decreases cols.len() - i,
    {
        let ghost before = string_views(res@);
        res.push(cols[i].column.clone());
        proof {
            assert(string_views(res@) =~= before.push(res@.last()@));
            assert(string_views(res@) =~= column_names(column_views(cols@)).take(i + 1));
        }
        i = i + 1;
    }
    proof {
        assert(column_names(column_views(cols@)).take(cols.len() as int) =~= column_names(column_views(cols@)));
    }
    res
}

/// The struct positions of written fields.
pub fn position_list(cols: &Vec<WriteField>) -> (res: Vec<usize>)
    ensures
        res@ == field_positions(column_views(cols@)),
{
    let mut res: Vec<usize> = Vec::new();
    let mut i: usize = 0;
    while i < cols.len()
        invariant
            i <= cols.len(),
            res@ == field_positions(column_views(cols@)).take(i as int),
        decreases cols.len() - i,
    {
        res.push(cols[i].field);
        proof {
            assert(res@ =~= field_positions(column_views(cols@)).take(i + 1));
        }
        i = i + 1;
    }
    proof {
        assert(field_positions(column_views(cols@)).take(cols.len() as int) =~= field_positions(column_views(cols@)));
    }
    res
}

/// The placeholders `?start` to `?(start + count - 1)`.
pub fn placeholder_list(start: usize, count: usize) -> (res: Vec<String>)
    requires
        start + count <= usize::MAX,
    ensures
        string_views(res@) == placeholders(start as nat, count as nat),
{
    let mut res: Vec<String> = Vec::new();
    let mut k: usize = 0;
    while k < count
        invariant
            k <= count,
            start + count <= usize::MAX,
            string_views(res@) == placeholders(start as nat, count as nat).take(k as int),
        decreases count - k,
    {
        let ghost before = string_views(res@);
        res.push(placeholder_text(start + k));
        proof {
            assert(string_views(res@) =~= before.push(res@.last()@));
            assert(string_views(res@) =~= placeholders(start as nat, count as nat).take(k + 1));
        }
        k = k + 1;
    }
    proof {
        assert(placeholders(start as nat, count as nat).take(count as int) =~= placeholders(start as nat, count as nat));
    }
    res
}

/// `<column> = ?<start + k>` for the k-th written field.
pub fn assignment_list(cols: &Vec<WriteField>, start: usize) -> (res: Vec<String>)
    requires
        start + cols.len() <= usize::MAX,
    ensures
        string_views(res@) == assignments(column_views(cols@), start as nat),
{
    let ghost views = column_views(cols@);
    let mut res: Vec<String> = Vec::new();
    let mut k: usize = 0;
    while k < cols.len()
        invariant
            k <= cols.len(),
            start + cols.len() <= usize::MAX,
            views == column_views(cols@),
            string_views(res@) == assignments(views, start as nat).take(k as int),
        decreases cols.len() - k,
    {
        let mut a = cols[k].column.clone();
        a.append(" = ");
        let p = placeholder_text(start + k);
        a.append(p.as_str());
        let ghost before = string_views(res@);
        res.push(a);
        proof {
            assert(string_views(res@) =~= before.push(res@.last()@));
            assert(string_views(res@) =~= assignments(views, start as nat).take(k + 1));
        }
        k = k + 1;
    }
    proof {
        assert(assignments(views, start as nat).take(cols.len() as int) =~= assignments(views, start as nat));
    }
    res
}

/// The upsert assignments of the updated fields, separately bound fields
/// taking consecutive placeholders from `start`.
pub fn upsert_assignment_list(upd: &Vec<WriteField>, start: usize) -> (res: Vec<String>)
    requires
        start + select_columns(column_views(upd@), Pick::SkippedOnInsert).len() <= usize::MAX,
    ensures
        string_views(res@) == upsert_assignments(column_views(upd@), start as nat),
{
    let ghost views = column_views(upd@);
    let mut res: Vec<String> = Vec::new();
    let mut next: usize = start;
    let mut k: usize = 0;
    proof {
        assert(views.take(0) =~= Seq::<WriteColumn>::empty());
        assert(string_views(res@) =~= Seq::<Seq<char>>::empty());
    }
    while k < upd.len()
        invariant
            k <= upd.len(),
            views == column_views(upd@),
            start + select_columns(views, Pick::SkippedOnInsert).len() <= usize::MAX,
            next == start + select_columns(views.take(k as int), Pick::SkippedOnInsert).len(),
            string_views(res@) == upsert_assignments(views.take(k as int), start as nat),
        decreases upd.len() - k,
    {
        proof {
            lemma_take_step(views, k as int);
            lemma_select_prefix_len(views, Pick::SkippedOnInsert, k as int + 1);
        }
        let c = &upd[k];
        let mut a = c.column.clone();
        if c.skip_insert {
            a.append(" = ");
            let p = placeholder_text(next);
            a.append(p.as_str());
            next = next + 1;
        } else {
            a.append(" = excluded.");
            a.append(c.column.as_str());
        }
        let ghost before = string_views(res@);
        res.push(a);
        proof {
            assert(string_views(res@) =~= before.push(res@.last()@));
        }
        k = k + 1;
    }
    proof {
        assert(views.take(upd.len() as int) =~= views);
    }
    res
}

/// A selection from a prefix is no larger than the selection from the whole.
proof fn lemma_select_prefix_len(cols: Seq<WriteColumn>, p: Pick, n: int)
    requires
        0 <= n <= cols.len(),
    ensures
        select_columns(cols.take(n), p).len() <= select_columns(cols, p).len(),
    decreases cols.len(),
{
    if n == cols.len() {
        assert(cols.take(n) =~= cols);
    } else {
        let rest = cols.drop_last();
        assert(rest.take(n) =~= cols.take(n));
        lemma_select_prefix_len(rest, p, n);
    }
}

/// Written fields come from distinct struct positions in increasing order,
/// so there are no more of them than fields.
pub(crate) proof fn lemma_write_columns_facts(fields: Seq<FieldModel>)
    requires
        write_columns(fields) is Ok,
        fields.len() <= usize::MAX,
    ensures
        written_columns(fields).len() <= fields.len(),
        forall|k: int| 0 <= k < written_columns(fields).len()
            ==> (#[trigger] written_columns(fields)[k]).field < fields.len(),
        forall|a: int, b: int| 0 <= a < b < written_columns(fields).len()
            ==> written_columns(fields)[a].field < written_columns(fields)[b].field,
    decreases fields.len(),
{
    if fields.len() > 0 {
        let rest = fields.drop_last();
        lemma_write_columns_facts(rest);
        let cols = written_columns(fields);
        let before = written_columns(rest);
        match write_field_outcome(fields.last(), fields.len() - 1) {
            Ok(Some(c)) => {
                assert(cols == before.push(c));
                assert(c.field == fields.len() - 1);
                assert forall|a: int, b: int| 0 <= a < b < cols.len() implies cols[a].field < cols[b].field by {
                    assert(cols[a] == before[a]);
                    if b < before.len() {
                        assert(cols[b] == before[b]);
                    } else {
                        assert(before[a].field < rest.len());
                    }
                }
            },
            _ => {},
        }
    }
}

/// Two selections that share no field together hold no more fields than there are.
proof fn lemma_disjoint_selections(cols: Seq<WriteColumn>, p: Pick, q: Pick)
    requires
        forall|c: WriteColumn| !(picks(p, c) && picks(q, c)),
    ensures
        select_columns(cols, p).len() + select_columns(cols, q).len() <= cols.len(),
    decreases cols.len(),
{
    if cols.len() > 0 {
        lemma_disjoint_selections(cols.drop_last(), p, q);
    }
}

/// Selecting from a selection keeps no more fields than selecting directly.
proof fn lemma_nested_selection(cols: Seq<WriteColumn>, p: Pick, q: Pick)
    ensures
        select_columns(select_columns(cols, p), q).len() <= select_columns(cols, q).len(),
        select_columns(cols, p).len() <= cols.len(),
    decreases cols.len(),
{
    if cols.len() > 0 {
        lemma_nested_selection(cols.drop_last(), p, q);
        let inner = select_columns(cols.drop_last(), p);
        if picks(p, cols.last()) {
            assert(select_columns(cols, p).drop_last() =~= inner);
        }
    }
}

/// Everything the generated write impl is built from.
pub struct WritePlan {
    /// The path of the wrapper crate in generated code.
    pub crate_path: String,
    /// The written table.
    pub table: String,
    /// The written fields, in declaration order.
    pub columns: Vec<WriteField>,
    /// The statement `insert` runs.
    pub insert_query: String,
    /// The statement `update` runs.
    pub update_query: String,
    /// The statement `upsert` runs.
    pub upsert_query: String,
    /// The struct positions of the values `insert` binds, in placeholder order.
    pub insert_values: Vec<usize>,
    /// The struct positions of the values `update` binds, in placeholder order.
    pub update_values: Vec<usize>,
    /// The struct positions of the values `upsert` binds, in placeholder order.
    pub upsert_values: Vec<usize>,
    /// The `where` predicates the impl adds.
    pub bounds: Vec<Bound>,
}

/// The facts the write plan holds for a valid model.
pub open spec fn write_plan_matches(m: StructModel, p: WritePlan) -> bool {
    let t = m.table.unwrap();
    let table = t.table.unwrap()@;
    let cols = written_columns(m.fields@);
    let ins = insert_columns(cols);
    let upd = update_columns(cols);
    let keys = key_columns(cols);
    &&& p.crate_path@ == spec_crate_path(t)
    &&& p.table@ == table
    &&& column_views(p.columns@) == cols
    &&& p.insert_query@ == insert_sql(table, ins)
    &&& p.update_query@ == update_sql(table, upd, keys)
    &&& p.upsert_query@ == upsert_sql(table, ins, upd, keys)
    &&& p.insert_values@ == field_positions(ins)
    &&& p.update_values@ == field_positions(upd + keys)
    &&& p.upsert_values@ == field_positions(ins + separately_bound_columns(cols))
    &&& p.bounds@ == write_bounds(m.fields@, cols, m.generic_params@)
}

/// Derives the write mapping of a struct.
///
/// Fails with the error of the first offending item: a non-struct input,
/// rejected struct attributes, a missing `table`, the fields in declaration
/// order, a repeated column, then a missing key, insertable field or
/// updatable non-key field. Otherwise the statements write `table` (never the
/// read source) and each placeholder binds the field written to its column.
pub fn plan_write(m: &StructModel) -> (res: Result<WritePlan, WriteError>)
    requires
        m.fields.len() < usize::MAX,
    ensures
        match res {
            Ok(p) => write_failure(*m) is None && write_plan_matches(*m, p),
            Err(e) => write_failure(*m) == Some(e@),
        },
{
    if m.shape == StructShape::NotAStruct {
        return Err(WriteError::NotAStruct);
    }
    let t = match &m.table {
        Some(t) => t,
        None => return Err(WriteError::TableAttributes),
    };
    let table = match &t.table {
        Some(table) => table.clone(),
        None => return Err(WriteError::MissingTable),
    };
    let cols = collect_write_fields(&m.fields)?;
    let ghost views = column_views(cols@);
    proof {
        lemma_write_columns_facts(m.fields@);
    }
    match find_repeated_column(&cols) {
        Some(j) => {
            return Err(WriteError::DuplicateColumn { field: cols[j].field, column: cols[j].column.clone() });
        },
        None => {},
    }
    let keys = pick_columns(&cols, Pick::Key);
    if keys.len() == 0 {
        return Err(WriteError::NoKey);
    }
    let ins = pick_columns(&cols, Pick::Insertable);
    if ins.len() == 0 {
        return Err(WriteError::NoInsertable);
    }
    let upd = pick_columns(&cols, Pick::Updatable);
    if upd.len() == 0 {
        return Err(WriteError::NoUpdatable);
    }
    let separate = pick_columns(&upd, Pick::SkippedOnInsert);
    proof {
        lemma_disjoint_selections(views, Pick::Updatable, Pick::Key);
        lemma_disjoint_selections(views, Pick::Insertable, Pick::SkippedOnInsert);
        lemma_nested_selection(views, Pick::Updatable, Pick::SkippedOnInsert);
        lemma_nested_selection(views, Pick::Insertable, Pick::Insertable);
    }

    // INSERT INTO <table> (<columns>) VALUES (<placeholders>)
    let mut head = String::from_str("INSERT INTO ");
    head.append(table.as_str());
    head.append(" (");
    let names = column_name_list(&ins);
    let names = join_strings(&names, ", ");
    head.append(names.as_str());
    head.append(") VALUES (");
    let slots = placeholder_list(1, ins.len());
    let slots = join_strings(&slots, ", ");
    head.append(slots.as_str());
    head.append(")");

    let mut insert_query = head.clone();
    insert_query.append(";");

    let mut update_query = String::from_str("UPDATE ");
    update_query.append(table.as_str());
    update_query.append(" SET ");
    let sets = assignment_list(&upd, 1);
    let sets = join_strings(&sets, ", ");
    update_query.append(sets.as_str());
    update_query.append(" WHERE ");
    let predicate = assignment_list(&keys, upd.len() + 1);
    let predicate = join_strings(&predicate, " AND ");
    update_query.append(predicate.as_str());
    update_query.append(";");

    let mut upsert_query = head;
    upsert_query.append(" ON CONFLICT (");
    let conflict = column_name_list(&keys);
    let conflict = join_strings(&conflict, ", ");
    upsert_query.append(conflict.as_str());
    upsert_query.append(") DO UPDATE SET ");
    let upserts = upsert_assignment_list(&upd, ins.len() + 1);
    let upserts = join_strings(&upserts, ", ");
    upsert_query.append(upserts.as_str());
    upsert_query.append(";");

    let insert_values = position_list(&ins);
    let mut update_values = position_list(&upd);
    let mut key_values = position_list(&keys);
    update_values.append(&mut key_values);
    let mut upsert_values = position_list(&ins);
    let mut separate_values = position_list(&separate);
    upsert_values.append(&mut separate_values);

    let mut bounds: Vec<Bound> = Vec::new();
    let mut i: usize = 0;
    proof {
        assert(views.take(0) =~= Seq::<WriteColumn>::empty());
    }
    while i < cols.len()
        invariant
            i <= cols.len(),
            views == column_views(cols@),
            views == written_columns(m.fields@),
            forall|k: int| 0 <= k < views.len() ==> (#[trigger] views[k]).field < m.fields@.len(),
            bounds@ == write_bounds(m.fields@, views.take(i as int), m.generic_params@),
        decreases cols.len() - i,
    {
        proof {
            lemma_take_step(views, i as int);
            assert(views[i as int].field < m.fields@.len());
        }
        let position = cols[i].field;
        push_bound_if_generic(
            &mut bounds,
            &m.fields[position].ty,
            &m.generic_params,
            position,
            BoundSubject::FieldType,
            BoundTrait::ToSql,
        );
        i = i + 1;
    }
    proof {
        assert(views.take(cols.len() as int) =~= views);
    }
    let plan = WritePlan {
        crate_path: crate_path_text(t),
        table,
        columns: cols,
        insert_query,
        update_query,
        upsert_query,
        insert_values,
        update_values,
        upsert_values,
        bounds,
    };
    proof {
        let cols_spec = written_columns(m.fields@);
        assert(write_columns(m.fields@) is Ok);
        assert(cols_spec == views);
        assert(repeated_column(views) is None);
        assert(write_failure(*m) is None);
        assert(plan.crate_path@ == spec_crate_path(*t));
        assert(plan.table@ == t.table.unwrap()@);
        assert(plan.insert_query@ == insert_sql(table@, insert_columns(views)));
        assert(plan.update_query@ == update_sql(table@, update_columns(views), key_columns(views)));
        assert(plan.upsert_query@ == upsert_sql(table@, insert_columns(views), update_columns(views), key_columns(views)));
        assert(plan.insert_values@ == field_positions(insert_columns(views)));
        assert(plan.update_values@ =~= field_positions(update_columns(views) + key_columns(views)));
        assert(plan.upsert_values@ =~= field_positions(insert_columns(views) + separately_bound_columns(views)));
    }
    Ok(plan)
}

/// The diagnostic text of a write-mapping error.
pub open spec fn write_failure_message(e: WriteFailure) -> Seq<char> {
    match e {
        WriteFailure::NotAStruct => "only structs are supported for now"@,
        WriteFailure::TableAttributes => "invalid `rusqlite` struct attribute"@,
        WriteFailure::MissingTable => "RusqliteWrite requires #[rusqlite(table = \"...\")]"@,
        WriteFailure::FieldAttributes(_) => "invalid `rusqlite` field attribute"@,
        WriteFailure::KeyWithSkipWrite(_) => "key fields participate in update predicates; for a database-generated key, use #[rusqlite(key, skip_insert)] instead of skip_write"@,
        WriteFailure::KeyWithSkipUpdate(_) => "key fields are already excluded from update assignments; remove #[rusqlite(skip_update)]"@,
        WriteFailure::SkipInsertAndUpdate(_) => "a field skipped for both insert and update should use #[rusqlite(skip_write)]"@,
        WriteFailure::KeyWithoutColumn(_) => "key field has no writable column; add #[rusqlite(column = \"...\")]"@,
        WriteFailure::ReadExpressionWithoutColumn(_) => "field has a read expression but no writable column; add #[rusqlite(column = \"...\")] or #[rusqlite(skip_write)]"@,
        WriteFailure::KeyTupleFieldWithoutColumn(_) => "key tuple field has no writable column; add #[rusqlite(column = \"...\")]"@,
        WriteFailure::TupleFieldWithoutColumn(_) => "tuple field has no writable column; add #[rusqlite(column = \"...\")] or #[rusqlite(skip_write)]"@,
        WriteFailure::NoKey => "RusqliteWrite requires at least one #[rusqlite(key)] field"@,
        WriteFailure::NoInsertable => "RusqliteWrite requires at least one insertable field"@,
        WriteFailure::NoUpdatable => "RusqliteWrite requires at least one updatable non-key field"@,
        WriteFailure::DuplicateColumn { column, .. } => "duplicate writable column `"@ + column + "`"@,
    }
}

/// The field a write-mapping error points at, if it concerns one field.
pub open spec fn write_failure_field(e: WriteFailure) -> Option<usize> {
    match e {
        WriteFailure::FieldAttributes(i) => Some(i),
        WriteFailure::KeyWithSkipWrite(i) => Some(i),
        WriteFailure::KeyWithSkipUpdate(i) => Some(i),
        WriteFailure::SkipInsertAndUpdate(i) => Some(i),
        WriteFailure::KeyWithoutColumn(i) => Some(i),
        WriteFailure::ReadExpressionWithoutColumn(i) => Some(i),
        WriteFailure::KeyTupleFieldWithoutColumn(i) => Some(i),
        WriteFailure::TupleFieldWithoutColumn(i) => Some(i),
        WriteFailure::DuplicateColumn { field, .. } => Some(field),
        _ => None,
    }
}

impl WriteError {
    /// The diagnostic text.
    pub fn message(&self) -> (res: String)
        ensures
            res@ == write_failure_message(self@),
    {
        match self {
            WriteError::NotAStruct => String::from_str("only structs are supported for now"),
            WriteError::TableAttributes => String::from_str("invalid `rusqlite` struct attribute"),
            WriteError::MissingTable => String::from_str("RusqliteWrite requires #[rusqlite(table = \"...\")]"),
            WriteError::FieldAttributes(_) => String::from_str("invalid `rusqlite` field attribute"),
            WriteError::KeyWithSkipWrite(_) => String::from_str("key fields participate in update predicates; for a database-generated key, use #[rusqlite(key, skip_insert)] instead of skip_write"),
            WriteError::KeyWithSkipUpdate(_) => String::from_str("key fields are already excluded from update assignments; remove #[rusqlite(skip_update)]"),
            WriteError::SkipInsertAndUpdate(_) => String::from_str("a field skipped for both insert and update should use #[rusqlite(skip_write)]"),
            WriteError::KeyWithoutColumn(_) => String::from_str("key field has no writable column; add #[rusqlite(column = \"...\")]"),
            WriteError::ReadExpressionWithoutColumn(_) => String::from_str("field has a read expression but no writable column; add #[rusqlite(column = \"...\")] or #[rusqlite(skip_write)]"),
            WriteError::KeyTupleFieldWithoutColumn(_) => String::from_str("key tuple field has no writable column; add #[rusqlite(column = \"...\")]"),
            WriteError::TupleFieldWithoutColumn(_) => String::from_str("tuple field has no writable column; add #[rusqlite(column = \"...\")] or #[rusqlite(skip_write)]"),
            WriteError::NoKey => String::from_str("RusqliteWrite requires at least one #[rusqlite(key)] field"),
            WriteError::NoInsertable => String::from_str("RusqliteWrite requires at least one insertable field"),
            WriteError::NoUpdatable => String::from_str("RusqliteWrite requires at least one updatable non-key field"),
            WriteError::DuplicateColumn { column, .. } => {
                let mut text = String::from_str("duplicate writable column `");
                text.append(column.as_str());
                text.append("`");
                text
            },
        }
    }

    /// The field the error points at; `None` means the struct itself.
    pub fn field(&self) -> (res: Option<usize>)
        ensures
            res == write_failure_field(self@),
    {
        match self {
            WriteError::FieldAttributes(i) => Some(*i),
            WriteError::KeyWithSkipWrite(i) => Some(*i),
            WriteError::KeyWithSkipUpdate(i) => Some(*i),
            WriteError::SkipInsertAndUpdate(i) => Some(*i),
            WriteError::KeyWithoutColumn(i) => Some(*i),
            WriteError::ReadExpressionWithoutColumn(i) => Some(*i),
            WriteError::KeyTupleFieldWithoutColumn(i) => Some(*i),
            WriteError::TupleFieldWithoutColumn(i) => Some(*i),
            WriteError::DuplicateColumn { field, .. } => Some(*field),
            _ => None,
        }
    }
}

} // verus!
