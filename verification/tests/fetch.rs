use rusqlite::types::Value;
use rusqlite::Connection;
use rusqlite_derive::aggregate::{collect_items, collect_optional_items, item_error, ConversionFailure, ItemError, SqlType};
use rusqlite_derive::fetch::{plan_fetch, FetchPlan, FieldRead};
use rusqlite_derive::model::{FieldAttributes, FieldModel, StructModel, StructShape, TableAttributes};
use rusqlite_derive::tokens::TypeToken;

// How a test decodes a selected column, standing in for the field type.
#[derive(Clone, Copy)]
enum Kind {
    Int,
    Text,
    Bool,
    OptText,
}

#[derive(Clone, Debug, PartialEq)]
enum V {
    I(i64),
    T(String),
    B(bool),
    Null,
    Default,
    Many(Vec<V>),
    Absent,
}

fn plain() -> FieldAttributes {
    FieldAttributes {
        select: None,
        column: None,
        read_default: false,
        default: false,
        aggregate: false,
        optional: false,
        item: false,
        key: false,
        skip_insert: false,
        skip_update: false,
        skip_write: false,
    }
}

fn select(expression: &str) -> FieldAttributes {
    FieldAttributes { select: Some(expression.to_string()), ..plain() }
}

fn field(name: Option<&str>, attributes: FieldAttributes) -> FieldModel {
    FieldModel {
        name: name.map(|n| n.to_string()),
        attributes: Some(attributes),
        ty: vec![TypeToken::Ident("i64".to_string())],
        item_ty: Vec::new(),
    }
}

fn model(name: &str, shape: StructShape, from: Option<&str>, fields: Vec<FieldModel>) -> StructModel {
    StructModel {
        name: name.to_string(),
        shape,
        generic_params: Vec::new(),
        table: Some(TableAttributes { from: from.map(|s| s.to_string()), table: None, crate_path: None }),
        fields,
    }
}

fn plan(m: &StructModel) -> FetchPlan {
    plan_fetch(m).ok().expect("the mapping is valid")
}

fn decode(row: &rusqlite::Row<'_>, column: usize, kind: Kind) -> rusqlite::Result<V> {
    Ok(match kind {
        Kind::Int => V::I(row.get::<_, i64>(column)?),
        Kind::Text => V::T(row.get::<_, String>(column)?),
        Kind::Bool => V::B(row.get::<_, bool>(column)?),
        Kind::OptText => match row.get::<_, Option<String>>(column)? {
            Some(text) => V::T(text),
            None => V::Null,
        },
    })
}

// Runs a planned statement the way the generated impl does: one record per
// row, each field decoded from its planned column or defaulted.
fn run<P: rusqlite::Params>(
    conn: &Connection,
    plan: &FetchPlan,
    kinds: &[Kind],
    filter: Option<&str>,
    params: P,
) -> rusqlite::Result<Vec<Vec<V>>> {
    let query = match filter {
        Some(filter) => plan.filter_query(filter),
        None => plan.query.clone(),
    };
    let mut statement = conn.prepare(&query)?;
    let mut rows = statement.query(params)?;
    let mut records = Vec::new();
    while let Some(row) = rows.next()? {
        let mut record = Vec::new();
        for (index, read) in plan.reads.iter().enumerate() {
            record.push(match *read {
                FieldRead::Default => V::Default,
                FieldRead::Selected { column } => decode(row, column, kinds[index])?,
                FieldRead::Aggregated { .. } => unreachable!("aggregates are grouped separately"),
            });
        }
        records.push(record);
    }
    Ok(records)
}

fn default_record() -> StructModel {
    model(
        "DefaultRecord",
        StructShape::Named,
        None,
        vec![field(Some("id"), plain()), field(Some("label"), plain()), field(Some("enabled"), plain())],
    )
}

const RECORD_KINDS: [Kind; 3] = [Kind::Int, Kind::Text, Kind::Bool];

fn records_connection() -> Connection {
    let conn = Connection::open_in_memory().unwrap();
    conn.execute_batch(
        "CREATE TABLE DefaultRecord (
             id INTEGER NOT NULL,
             label TEXT NOT NULL,
             enabled INTEGER NOT NULL
         );
         INSERT INTO DefaultRecord VALUES
             (2, 'second', 0),
             (1, 'first', 1),
             (3, 'third', 1);",
    )
    .unwrap();
    conn
}

fn record(id: i64, label: &str, enabled: bool) -> Vec<V> {
    vec![V::I(id), V::T(label.to_string()), V::B(enabled)]
}

#[test]
fn fetch_uses_default_source_and_field_mappings() {
    let conn = records_connection();
    let plan = plan(&default_record());
    assert_eq!(plan.query, "SELECT id, label, enabled FROM DefaultRecord;");
    let mut records = run(&conn, &plan, &RECORD_KINDS, None, []).unwrap();
    records.sort_by_key(|r| match r[0] {
        V::I(id) => id,
        _ => 0,
    });
    assert_eq!(records, vec![record(1, "first", true), record(2, "second", false), record(3, "third", true)]);
}

#[test]
fn fetch_with_filter_accepts_a_static_filter_and_ordering() {
    let conn = records_connection();
    let plan = plan(&default_record());
    let records = run(&conn, &plan, &RECORD_KINDS, Some("enabled = 1 ORDER BY id DESC"), []).unwrap();
    assert_eq!(records, vec![record(3, "third", true), record(1, "first", true)]);
}

#[test]
fn fetch_with_filter_binds_positional_values_and_a_limit() {
    let conn = records_connection();
    let plan = plan(&default_record());
    let params: [&dyn rusqlite::ToSql; 3] = [&true, &1_i64, &1_i64];
    let records = run(
        &conn,
        &plan,
        &RECORD_KINDS,
        Some("enabled = ?1 AND id >= ?2 ORDER BY id DESC LIMIT ?3"),
        &params[..],
    )
    .unwrap();
    assert_eq!(records[0][0], V::I(3));
    assert_eq!(records.len(), 1);
}

#[test]
fn fetch_with_filter_binds_named_values() {
    let conn = records_connection();
    let plan = plan(&default_record());
    let params: [(&str, &dyn rusqlite::ToSql); 1] = [(":enabled", &true)];
    let records =
        run(&conn, &plan, &RECORD_KINDS, Some("enabled = :enabled ORDER BY id"), &params[..]).unwrap();
    let ids: Vec<V> = records.iter().map(|r| r[0].clone()).collect();
    assert_eq!(ids, vec![V::I(1), V::I(3)]);
}

#[test]
fn fetch_with_filter_treats_quotes_as_part_of_a_bound_value() {
    let conn = records_connection();
    let insert: [&dyn rusqlite::ToSql; 3] = [&4_i64, &"O'Reilly", &true];
    conn.execute("INSERT INTO DefaultRecord VALUES (?1, ?2, ?3)", &insert[..]).unwrap();
    let plan = plan(&default_record());
    let params: [&dyn rusqlite::ToSql; 1] = [&"O'Reilly"];
    let records = run(&conn, &plan, &RECORD_KINDS, Some("label = ?1"), &params[..]).unwrap();
    assert_eq!(records.len(), 1);
    assert_eq!(records[0][0], V::I(4));
}

#[test]
fn fetch_with_filter_returns_parameter_count_errors() {
    let conn = records_connection();
    let plan = plan(&default_record());
    let error = run(&conn, &plan, &RECORD_KINDS, Some("id = ?1"), []).unwrap_err();
    assert!(matches!(error, rusqlite::Error::InvalidParameterCount(0, 1)));
}

#[test]
fn custom_source_is_used() {
    let conn = Connection::open_in_memory().unwrap();
    conn.execute_batch(
        "CREATE TABLE source_records (value TEXT NOT NULL);
         INSERT INTO source_records VALUES ('mapped');",
    )
    .unwrap();
    let m = model("RenamedRecord", StructShape::Named, Some("source_records"), vec![field(Some("value"), plain())]);
    let plan = plan(&m);
    assert_eq!(plan.source, "source_records");
    assert_eq!(run(&conn, &plan, &[Kind::Text], None, []).unwrap(), vec![vec![V::T("mapped".into())]]);
}

#[test]
fn tuple_struct_fields_use_explicit_select_expressions() {
    let conn = Connection::open_in_memory().unwrap();
    conn.execute_batch(
        "CREATE TABLE tuple_records (record_id INTEGER NOT NULL, label TEXT NOT NULL);
         INSERT INTO tuple_records VALUES (7, 'tuple');",
    )
    .unwrap();
    let m = model(
        "TupleRecord",
        StructShape::Unnamed,
        Some("tuple_records"),
        vec![field(None, select("record_id")), field(None, select("label || '!'"))],
    );
    let plan = plan(&m);
    assert_eq!(
        run(&conn, &plan, &[Kind::Int, Kind::Text], None, []).unwrap(),
        vec![vec![V::I(7), V::T("tuple!".into())]]
    );
}

#[test]
fn custom_select_expressions_and_joins_are_used() {
    let conn = Connection::open_in_memory().unwrap();
    conn.execute_batch(
        "CREATE TABLE teams (id INTEGER PRIMARY KEY, name TEXT NOT NULL);
         CREATE TABLE users (
             id INTEGER PRIMARY KEY,
             name TEXT NOT NULL,
             team_id INTEGER NOT NULL
         );
         INSERT INTO teams VALUES (10, 'Compilers');
         INSERT INTO users VALUES (1, 'Ada', 10);",
    )
    .unwrap();
    let m = model(
        "UserWithTeam",
        StructShape::Named,
        Some("users AS u JOIN teams AS t ON t.id = u.team_id"),
        vec![
            field(Some("user_id"), select("u.id")),
            field(Some("upper_name"), select("upper(u.name)")),
            field(Some("team_name"), select("t.name")),
        ],
    );
    let plan = plan(&m);
    assert_eq!(
        plan.query,
        "SELECT u.id, upper(u.name), t.name FROM users AS u JOIN teams AS t ON t.id = u.team_id;"
    );
    assert_eq!(
        run(&conn, &plan, &[Kind::Int, Kind::Text, Kind::Text], None, []).unwrap(),
        vec![vec![V::I(1), V::T("ADA".into()), V::T("Compilers".into())]]
    );
}

fn generic_record() -> StructModel {
    StructModel {
        name: "GenericRecord".to_string(),
        shape: StructShape::Named,
        generic_params: vec!["T".to_string()],
        table: Some(TableAttributes { from: Some("generic_records".into()), table: None, crate_path: None }),
        fields: vec![
            FieldModel {
                name: Some("id".into()),
                attributes: Some(plain()),
                ty: vec![TypeToken::Ident("T".into())],
                item_ty: Vec::new(),
            },
            FieldModel {
                name: Some("label".into()),
                attributes: Some(plain()),
                ty: vec![TypeToken::Ident("String".into())],
                item_ty: Vec::new(),
            },
        ],
    }
}

#[test]
fn generic_fields_are_decoded() {
    let conn = Connection::open_in_memory().unwrap();
    conn.execute_batch(
        "CREATE TABLE generic_records (id INTEGER NOT NULL, label TEXT NOT NULL);
         INSERT INTO generic_records VALUES (8, 'generic'), (9, 'second');",
    )
    .unwrap();
    let plan = plan(&generic_record());
    assert_eq!(plan.bounds.len(), 1);
    assert_eq!(plan.bounds[0].field, 0);
    assert_eq!(
        run(&conn, &plan, &[Kind::Int, Kind::Text], None, []).unwrap(),
        vec![vec![V::I(8), V::T("generic".into())], vec![V::I(9), V::T("second".into())]]
    );
}

#[test]
fn generic_field_decode_errors_are_returned() {
    let conn = Connection::open_in_memory().unwrap();
    conn.execute_batch(
        "CREATE TABLE generic_records (id TEXT NOT NULL, label TEXT NOT NULL);
         INSERT INTO generic_records VALUES ('not an integer', 'generic');",
    )
    .unwrap();
    let plan = plan(&generic_record());
    let error = run(&conn, &plan, &[Kind::Int, Kind::Text], None, []).unwrap_err();
    assert!(matches!(error, rusqlite::Error::InvalidColumnType(..)));
}

#[test]
fn default_fields_are_not_selected() {
    let conn = Connection::open_in_memory().unwrap();
    conn.execute_batch(
        "CREATE TABLE generic_records (id INTEGER NOT NULL, label TEXT NOT NULL);
         INSERT INTO generic_records VALUES (8, 'defaulted');",
    )
    .unwrap();
    let m = model(
        "DefaultedRecord",
        StructShape::Named,
        Some("generic_records"),
        vec![
            field(Some("id"), plain()),
            field(Some("skipped"), FieldAttributes { read_default: true, ..plain() }),
            field(Some("label"), plain()),
        ],
    );
    let plan = plan(&m);
    assert_eq!(plan.query, "SELECT id, label FROM generic_records;");
    assert_eq!(
        run(&conn, &plan, &[Kind::Int, Kind::Bool, Kind::Text], None, []).unwrap(),
        vec![vec![V::I(8), V::Default, V::T("defaulted".into())]]
    );
}

#[test]
fn an_all_default_mapping_still_produces_one_value_per_row() {
    let conn = Connection::open_in_memory().unwrap();
    conn.execute_batch(
        "CREATE TABLE generic_records (id INTEGER NOT NULL);
         INSERT INTO generic_records VALUES (1), (2);",
    )
    .unwrap();
    let m = model(
        "AllDefault",
        StructShape::Unnamed,
        Some("generic_records"),
        vec![field(None, FieldAttributes { read_default: true, ..plain() })],
    );
    let plan = plan(&m);
    assert_eq!(plan.query, "SELECT 1 FROM generic_records;");
    assert_eq!(run(&conn, &plan, &[Kind::Int], None, []).unwrap(), vec![vec![V::Default], vec![V::Default]]);
}

fn unit_record() -> StructModel {
    model("UnitRecord", StructShape::Unit, Some("unit_records"), Vec::new())
}

fn unit_connection() -> Connection {
    let conn = Connection::open_in_memory().unwrap();
    conn.execute_batch(
        "CREATE TABLE unit_records (id INTEGER NOT NULL);
         INSERT INTO unit_records VALUES (1), (2);",
    )
    .unwrap();
    conn
}

#[test]
fn unit_structs_produce_one_value_per_row() {
    let conn = unit_connection();
    let plan = plan(&unit_record());
    assert_eq!(plan.query, "SELECT 1 FROM unit_records;");
    assert_eq!(run(&conn, &plan, &[], None, []).unwrap(), vec![Vec::<V>::new(), Vec::new()]);
}

#[test]
fn configured_sql_braces_are_not_treated_as_format_placeholders() {
    let conn = Connection::open_in_memory().unwrap();
    conn.execute_batch(
        "CREATE TABLE brace_records (id INTEGER NOT NULL);
         INSERT INTO brace_records VALUES (1), (2);",
    )
    .unwrap();
    let m = model("BraceRecord", StructShape::Named, Some("brace_records"), vec![field(Some("value"), select("'{}'"))]);
    let plan = plan(&m);
    assert_eq!(
        run(&conn, &plan, &[Kind::Text], None, []).unwrap(),
        vec![vec![V::T("{}".into())], vec![V::T("{}".into())]]
    );
    let params: [&dyn rusqlite::ToSql; 1] = [&2_i64];
    assert_eq!(
        run(&conn, &plan, &[Kind::Text], Some("id = ?1"), &params[..]).unwrap(),
        vec![vec![V::T("{}".into())]]
    );
}

fn sql_type(value: &Value) -> SqlType {
    match value {
        Value::Null => SqlType::Null,
        Value::Integer(_) => SqlType::Integer,
        Value::Real(_) => SqlType::Real,
        Value::Text(_) => SqlType::Text,
        Value::Blob(_) => SqlType::Blob,
    }
}

// Item conversions standing in for the item types of the records below.
fn as_text(value: &Value, column: usize) -> Result<V, (ItemError, ())> {
    match value {
        Value::Text(text) => Ok(V::T(text.clone())),
        Value::Integer(number) => Ok(V::T(number.to_string())),
        other => Err((item_error(ConversionFailure::InvalidType, column, sql_type(other)), ())),
    }
}

fn as_optional_text(value: &Value, column: usize) -> Result<V, (ItemError, ())> {
    match value {
        Value::Null => Ok(V::Null),
        other => as_text(other, column),
    }
}

fn as_strict_text(value: &Value, column: usize) -> Result<V, (ItemError, ())> {
    match value {
        Value::Null => Err((item_error(ConversionFailure::Other, column, SqlType::Null), ())),
        other => as_text(other, column),
    }
}

// Groups rows whose identity columns are equal, in order of first
// appearance, collecting the aggregated columns of each group.
fn group(
    conn: &Connection,
    query: &str,
    plan: &FetchPlan,
) -> Vec<(Vec<Value>, Vec<Vec<Value>>)> {
    let mut statement = conn.prepare(query).unwrap();
    let mut rows = statement.query([]).unwrap();
    let mut groups: Vec<(Vec<Value>, Vec<Vec<Value>>)> = Vec::new();
    while let Some(row) = rows.next().unwrap() {
        let mut identity = Vec::new();
        let mut collected = Vec::new();
        for read in plan.reads.iter() {
            match *read {
                FieldRead::Selected { column } => identity.push(row.get::<_, Value>(column).unwrap()),
                FieldRead::Aggregated { column, .. } => collected.push(row.get::<_, Value>(column).unwrap()),
                FieldRead::Default => {}
            }
        }
        if let Some(existing) = groups.iter_mut().find(|g| g.0 == identity) {
            for (values, value) in existing.1.iter_mut().zip(collected) {
                values.push(value);
            }
        } else {
            groups.push((identity, collected.into_iter().map(|v| vec![v]).collect()));
        }
    }
    groups
}

fn aggregated(select: &str) -> FieldAttributes {
    FieldAttributes { select: Some(select.to_string()), aggregate: true, ..plain() }
}

#[test]
fn aggregate_fields_combine_rows_by_non_aggregated_values() {
    let conn = Connection::open_in_memory().unwrap();
    conn.execute_batch(
        "CREATE TABLE parents (id INTEGER PRIMARY KEY, name TEXT NOT NULL);
         CREATE TABLE children (parent_id INTEGER NOT NULL, value TEXT NOT NULL);
         INSERT INTO parents VALUES (1, 'first'), (2, 'second');
         INSERT INTO children VALUES
             (1, 'beta'), (2, 'only'), (1, 'alpha'), (1, 'alpha');",
    )
    .unwrap();
    let m = model(
        "ParentWithChildren",
        StructShape::Named,
        Some("parents AS p JOIN children AS c ON c.parent_id = p.id"),
        vec![
            field(Some("id"), select("p.id")),
            field(Some("name"), select("p.name")),
            field(Some("children"), aggregated("c.value")),
            field(Some("child_id_sum"), aggregated("c.parent_id")),
        ],
    );
    let plan = plan(&m);
    assert!(plan.aggregate);
    let groups = group(&conn, &plan.filter_query("p.id >= 1 ORDER BY p.id, c.rowid"), &plan);
    assert_eq!(groups.len(), 2);
    assert_eq!(groups[0].0, vec![Value::Integer(1), Value::Text("first".into())]);
    let children: Vec<Result<V, (ItemError, ())>> = groups[0].1[0].iter().map(|v| as_text(v, 2)).collect();
    assert_eq!(
        collect_items(children).ok().unwrap(),
        vec![V::T("beta".into()), V::T("alpha".into()), V::T("alpha".into())]
    );
    let sum: i64 = groups[0].1[1].iter().map(|v| if let Value::Integer(n) = v { *n } else { 0 }).sum();
    assert_eq!(sum, 3);
    assert_eq!(groups[1].0, vec![Value::Integer(2), Value::Text("second".into())]);
    let children: Vec<Result<V, (ItemError, ())>> = groups[1].1[0].iter().map(|v| as_text(v, 2)).collect();
    assert_eq!(collect_items(children).ok().unwrap(), vec![V::T("only".into())]);
}

#[test]
fn aggregate_fields_handle_nulls_from_left_joins() {
    let conn = Connection::open_in_memory().unwrap();
    conn.execute_batch(
        "CREATE TABLE parents (id INTEGER PRIMARY KEY);
         CREATE TABLE children (parent_id INTEGER NOT NULL, value TEXT);
         INSERT INTO parents VALUES (1), (2);
         INSERT INTO children VALUES (1, 'first'), (1, NULL), (1, 'second');",
    )
    .unwrap();
    let m = model(
        "ParentWithOptionalChildren",
        StructShape::Named,
        Some("parents AS p LEFT JOIN children AS c ON c.parent_id = p.id"),
        vec![
            field(Some("id"), select("p.id")),
            field(Some("children"), aggregated("c.value")),
            field(Some("optional_children"), FieldAttributes { optional: true, ..aggregated("c.value") }),
        ],
    );
    let plan = plan(&m);
    assert_eq!(plan.reads[2], FieldRead::Aggregated { column: 2, optional: true });
    let groups = group(&conn, &plan.filter_query("1 ORDER BY p.id, c.rowid"), &plan);
    assert_eq!(groups.len(), 2);

    let first = &groups[0].1[0];
    let strings: Vec<Result<V, (ItemError, ())>> = first.iter().map(|v| as_text(v, 1)).collect();
    assert_eq!(collect_items(strings).ok().unwrap(), vec![V::T("first".into()), V::T("second".into())]);
    let nullable: Vec<Result<V, (ItemError, ())>> = first.iter().map(|v| as_optional_text(v, 1)).collect();
    assert_eq!(
        collect_items(nullable).ok().unwrap(),
        vec![V::T("first".into()), V::Null, V::T("second".into())]
    );
    let types: Vec<SqlType> = first.iter().map(sql_type).collect();
    let optional: Vec<Result<V, (ItemError, ())>> = first.iter().map(|v| as_text(v, 2)).collect();
    assert_eq!(
        collect_optional_items(&types, optional).ok().unwrap(),
        Some(vec![V::T("first".into()), V::T("second".into())])
    );

    let second = &groups[1].1[0];
    let strings: Vec<Result<V, (ItemError, ())>> = second.iter().map(|v| as_text(v, 1)).collect();
    assert_eq!(collect_items(strings).ok().unwrap(), Vec::<V>::new());
    let nullable: Vec<Result<V, (ItemError, ())>> = second.iter().map(|v| as_optional_text(v, 1)).collect();
    assert_eq!(collect_items(nullable).ok().unwrap(), vec![V::Null]);
    let types: Vec<SqlType> = second.iter().map(sql_type).collect();
    let optional: Vec<Result<V, (ItemError, ())>> = second.iter().map(|v| as_text(v, 2)).collect();
    assert_eq!(collect_optional_items(&types, optional).ok().unwrap(), None);
    let _ = V::Many(Vec::new());
    let _ = V::Absent;
}

#[test]
fn aggregate_fields_return_custom_null_conversion_errors() {
    let conn = Connection::open_in_memory().unwrap();
    conn.execute_batch(
        "CREATE TABLE parents (id INTEGER PRIMARY KEY);
         CREATE TABLE children (parent_id INTEGER NOT NULL, value TEXT);
         INSERT INTO parents VALUES (1);",
    )
    .unwrap();
    let m = model(
        "ParentWithStrictChildren",
        StructShape::Named,
        Some("parents AS p LEFT JOIN children AS c ON c.parent_id = p.id"),
        vec![field(Some("id"), select("p.id")), field(Some("children"), aggregated("c.value"))],
    );
    let plan = plan(&m);
    let groups = group(&conn, &plan.query, &plan);
    let strict: Vec<Result<V, (ItemError, ())>> = groups[0].1[0].iter().map(|v| as_strict_text(v, 1)).collect();
    let error = collect_items(strict).err().unwrap();
    assert!(matches!(
        error.0,
        ItemError::ConversionFailure { column: 1, ty: SqlType::Null, .. }
    ));
}

#[test]
fn fetch_returns_an_empty_vector_for_an_empty_table() {
    let conn = records_connection();
    conn.execute("DELETE FROM DefaultRecord", []).unwrap();
    let plan = plan(&default_record());
    assert!(run(&conn, &plan, &RECORD_KINDS, None, []).unwrap().is_empty());
}

#[test]
fn fetch_with_filter_returns_an_empty_vector_when_no_rows_match() {
    let conn = records_connection();
    let plan = plan(&default_record());
    let params: [&dyn rusqlite::ToSql; 1] = [&100_i64];
    assert!(run(&conn, &plan, &RECORD_KINDS, Some("id > ?1"), &params[..]).unwrap().is_empty());
}

#[test]
fn row_decode_errors_are_returned() {
    let conn = Connection::open_in_memory().unwrap();
    conn.execute_batch(
        "CREATE TABLE bad_values (value TEXT NOT NULL);
         INSERT INTO bad_values VALUES ('not an integer');",
    )
    .unwrap();
    let m = model("ExpectedInteger", StructShape::Named, Some("bad_values"), vec![field(Some("value"), plain())]);
    let plan = plan(&m);
    let error = run(&conn, &plan, &[Kind::Int], None, []).unwrap_err();
    assert!(matches!(error, rusqlite::Error::InvalidColumnType(..)));
    let params: [&dyn rusqlite::ToSql; 1] = [&"not an integer"];
    let error = run(&conn, &plan, &[Kind::Int], Some("value = ?1"), &params[..]).unwrap_err();
    assert!(matches!(error, rusqlite::Error::InvalidColumnType(..)));
}

#[test]
fn parametrized_filters_reuse_the_unit_struct_mapper() {
    let conn = unit_connection();
    let plan = plan(&unit_record());
    let params: [&dyn rusqlite::ToSql; 1] = [&2_i64];
    assert_eq!(run(&conn, &plan, &[], Some("id = ?1"), &params[..]).unwrap(), vec![Vec::<V>::new()]);
}

#[test]
fn sql_errors_are_returned() {
    let conn = records_connection();
    let missing = model(
        "MissingTable",
        StructShape::Named,
        Some("table_that_does_not_exist"),
        vec![field(Some("value"), plain())],
    );
    assert!(run(&conn, &plan(&missing), &[Kind::Int], None, []).is_err());
    assert!(run(&conn, &plan(&default_record()), &RECORD_KINDS, Some("not valid SQL"), []).is_err());
}
