use rusqlite::types::Value;
use rusqlite::{Connection, Error};
use rusqlite_derive::fetch::{plan_fetch, FetchPlan, FieldRead};
use rusqlite_derive::model::{FieldAttributes, FieldModel, StructModel, StructShape, TableAttributes};
use rusqlite_derive::tokens::TypeToken;
use rusqlite_derive::write::{plan_write, WritePlan};

#[derive(Clone, Copy)]
enum Kind {
    Int,
    Text,
    Bool,
}

#[derive(Clone, Debug, PartialEq)]
enum V {
    I(i64),
    T(String),
    B(bool),
    Null,
    Default,
}

fn plain() -> FieldAttributes {
    FieldAttributes {
        select: None,
        column: None,
        read_default: false,
        default: false,
        aggregate: false,
        optional: false,
        item: false,
        key: false,
        skip_insert: false,
        skip_update: false,
        skip_write: false,
    }
}

fn key() -> FieldAttributes {
    FieldAttributes { key: true, ..plain() }
}

fn column(name: &str) -> FieldAttributes {
    FieldAttributes { column: Some(name.to_string()), ..plain() }
}

fn field(name: Option<&str>, attributes: FieldAttributes) -> FieldModel {
    FieldModel {
        name: name.map(|n| n.to_string()),
        attributes: Some(attributes),
        ty: vec![TypeToken::Ident("String".to_string())],
        item_ty: Vec::new(),
    }
}

fn model(name: &str, shape: StructShape, table: &str, from: Option<&str>, fields: Vec<FieldModel>) -> StructModel {
    StructModel {
        name: name.to_string(),
        shape,
        generic_params: Vec::new(),
        table: Some(TableAttributes {
            from: from.map(|s| s.to_string()),
            table: Some(table.to_string()),
            crate_path: None,
        }),
        fields,
    }
}

fn plans(m: &StructModel) -> (WritePlan, FetchPlan) {
    (plan_write(m).ok().expect("valid write mapping"), plan_fetch(m).ok().expect("valid read mapping"))
}

fn to_value(v: &V) -> Value {
    match v {
        V::I(n) => Value::Integer(*n),
        V::T(text) => Value::Text(text.clone()),
        V::B(b) => Value::Integer(if *b { 1 } else { 0 }),
        V::Null | V::Default => Value::Null,
    }
}

// Binds the record's fields in the planned order, as the generated impl does.
fn execute(conn: &Connection, query: &str, record: &[V], positions: &[usize]) -> rusqlite::Result<usize> {
    let values: Vec<Value> = positions.iter().map(|&i| to_value(&record[i])).collect();
    conn.execute(query, rusqlite::params_from_iter(values))
}

fn insert(conn: &Connection, plan: &WritePlan, record: &[V]) -> rusqlite::Result<usize> {
    execute(conn, &plan.insert_query, record, &plan.insert_values)
}

fn update(conn: &Connection, plan: &WritePlan, record: &[V]) -> rusqlite::Result<usize> {
    execute(conn, &plan.update_query, record, &plan.update_values)
}

fn upsert(conn: &Connection, plan: &WritePlan, record: &[V]) -> rusqlite::Result<usize> {
    execute(conn, &plan.upsert_query, record, &plan.upsert_values)
}

fn fetch(conn: &Connection, plan: &FetchPlan, kinds: &[Kind], filter: Option<&str>) -> Vec<Vec<V>> {
    let query = match filter {
        Some(filter) => plan.filter_query(filter),
        None => plan.query.clone(),
    };
    let mut statement = conn.prepare(&query).unwrap();
    let mut rows = statement.query([]).unwrap();
    let mut records = Vec::new();
    while let Some(row) = rows.next().unwrap() {
        let mut record = Vec::new();
        for (index, read) in plan.reads.iter().enumerate() {
            record.push(match *read {
                FieldRead::Default => V::Default,
                FieldRead::Selected { column } => match kinds[index] {
                    Kind::Int => V::I(row.get(column).unwrap()),
                    Kind::Text => V::T(row.get(column).unwrap()),
                    Kind::Bool => V::B(row.get(column).unwrap()),
                },
                FieldRead::Aggregated { .. } => unreachable!("no aggregates here"),
            });
        }
        records.push(record);
    }
    records
}

fn user() -> StructModel {
    model(
        "User",
        StructShape::Named,
        "users",
        None,
        vec![field(Some("id"), key()), field(Some("name"), column("display_name")), field(Some("active"), plain())],
    )
}

const USER_KINDS: [Kind; 3] = [Kind::Int, Kind::Text, Kind::Bool];

fn user_record(id: i64, name: &str, active: bool) -> Vec<V> {
    vec![V::I(id), V::T(name.to_string()), V::B(active)]
}

fn users_connection() -> Connection {
    let conn = Connection::open_in_memory().unwrap();
    conn.execute_batch(
        "CREATE TABLE users (
             id INTEGER PRIMARY KEY,
             display_name TEXT NOT NULL,
             active INTEGER NOT NULL
         );",
    )
    .unwrap();
    conn
}

#[test]
fn insert_uses_default_and_custom_columns() {
    let conn = users_connection();
    let (write, read) = plans(&user());
    let user = user_record(1, "Ada", true);
    assert_eq!(insert(&conn, &write, &user).unwrap(), 1);
    assert_eq!(fetch(&conn, &read, &USER_KINDS, None), vec![user]);
}

#[test]
fn update_uses_the_key_and_returns_the_affected_count() {
    let conn = users_connection();
    conn.execute("INSERT INTO users VALUES (1, 'old', 0)", []).unwrap();
    let (write, read) = plans(&user());
    let user = user_record(1, "new", true);
    assert_eq!(update(&conn, &write, &user).unwrap(), 1);
    assert_eq!(fetch(&conn, &read, &USER_KINDS, None), vec![user]);
    let absent = user_record(99, "new", true);
    assert_eq!(update(&conn, &write, &absent).unwrap(), 0);
}

#[test]
fn upsert_handles_both_insert_and_update_paths() {
    let conn = users_connection();
    let (write, read) = plans(&user());
    assert_eq!(upsert(&conn, &write, &user_record(1, "first", false)).unwrap(), 1);
    let updated = user_record(1, "updated", true);
    assert_eq!(upsert(&conn, &write, &updated).unwrap(), 1);
    assert_eq!(fetch(&conn, &read, &USER_KINDS, None), vec![updated]);
}

#[test]
fn composite_keys_are_used_for_updates_and_upserts() {
    let conn = Connection::open_in_memory().unwrap();
    conn.execute_batch(
        "CREATE TABLE memberships (
             user_id INTEGER NOT NULL,
             group_id INTEGER NOT NULL,
             role TEXT NOT NULL,
             PRIMARY KEY (user_id, group_id)
         );
         INSERT INTO memberships VALUES (1, 1, 'member'), (1, 2, 'owner');",
    )
    .unwrap();
    let m = model(
        "Membership",
        StructShape::Named,
        "memberships",
        None,
        vec![field(Some("user_id"), key()), field(Some("group_id"), key()), field(Some("role"), plain())],
    );
    let (write, read) = plans(&m);
    assert_eq!(write.update_query, "UPDATE memberships SET role = ?1 WHERE user_id = ?2 AND group_id = ?3;");
    let kinds = [Kind::Int, Kind::Int, Kind::Text];
    let admin = vec![V::I(1), V::I(1), V::T("admin".into())];
    assert_eq!(update(&conn, &write, &admin).unwrap(), 1);
    let maintainer = vec![V::I(1), V::I(1), V::T("maintainer".into())];
    assert_eq!(upsert(&conn, &write, &maintainer).unwrap(), 1);
    assert_eq!(
        fetch(&conn, &read, &kinds, Some("user_id = 1 ORDER BY group_id")),
        vec![maintainer, vec![V::I(1), V::I(2), V::T("owner".into())]]
    );
}

#[test]
fn skip_insert_allows_a_database_generated_key() {
    let conn = Connection::open_in_memory().unwrap();
    conn.execute_batch(
        "CREATE TABLE generated_records (
             id INTEGER PRIMARY KEY AUTOINCREMENT,
             value TEXT NOT NULL
         );",
    )
    .unwrap();
    let m = model(
        "GeneratedRecord",
        StructShape::Named,
        "generated_records",
        None,
        vec![field(Some("id"), FieldAttributes { skip_insert: true, ..key() }), field(Some("value"), plain())],
    );
    let (write, _) = plans(&m);
    let record = vec![V::I(0), V::T("generated".into())];
    assert_eq!(insert(&conn, &write, &record).unwrap(), 1);
    let id: i64 = conn.query_row("SELECT id FROM generated_records", [], |row| row.get(0)).unwrap();
    assert_eq!(id, 1);
    // The skipped key is generated again, so this does not conflict with id 1.
    assert_eq!(upsert(&conn, &write, &record).unwrap(), 1);
    let count: i64 = conn.query_row("SELECT count(*) FROM generated_records", [], |row| row.get(0)).unwrap();
    assert_eq!(count, 2);
}

#[test]
fn read_expressions_and_skip_attributes_are_independent_from_columns() {
    let conn = Connection::open_in_memory().unwrap();
    conn.execute_batch(
        "CREATE TABLE audit_records (
             id INTEGER PRIMARY KEY,
             value TEXT NOT NULL,
             created_by TEXT NOT NULL
         );",
    )
    .unwrap();
    let m = model(
        "AuditRecord",
        StructShape::Named,
        "audit_records",
        Some("audit_records AS a"),
        vec![
            field(Some("id"), FieldAttributes { column: Some("id".into()), select: Some("a.id".into()), ..key() }),
            field(Some("value"), FieldAttributes { select: Some("upper(a.value)".into()), ..column("value") }),
            field(Some("created_by"), FieldAttributes { skip_update: true, ..plain() }),
            field(Some("display"), FieldAttributes { select: Some("a.value || '!'".into()), skip_write: true, ..plain() }),
            field(Some("marker"), FieldAttributes { read_default: true, skip_write: true, ..plain() }),
        ],
    );
    let (write, read) = plans(&m);
    let mut record = vec![V::I(1), V::T("first".into()), V::T("creator".into()), V::T(String::new()), V::Default];
    insert(&conn, &write, &record).unwrap();
    record[1] = V::T("second".into());
    record[2] = V::T("replacement".into());
    update(&conn, &write, &record).unwrap();
    record[1] = V::T("third".into());
    upsert(&conn, &write, &record).unwrap();
    let stored: (String, String) = conn
        .query_row("SELECT value, created_by FROM audit_records WHERE id = 1", [], |row| {
            Ok((row.get(0)?, row.get(1)?))
        })
        .unwrap();
    assert_eq!(stored, ("third".to_string(), "creator".to_string()));
    assert_eq!(
        fetch(&conn, &read, &[Kind::Int, Kind::Text, Kind::Text, Kind::Text, Kind::Int], None),
        vec![vec![V::I(1), V::T("THIRD".into()), V::T("creator".into()), V::T("third!".into()), V::Default]]
    );
}

#[test]
fn tuple_fields_and_null_values_are_written() {
    let conn = Connection::open_in_memory().unwrap();
    conn.execute_batch("CREATE TABLE tuple_records (id INTEGER PRIMARY KEY, value TEXT);").unwrap();
    let m = model(
        "TupleRecord",
        StructShape::Unnamed,
        "tuple_records",
        None,
        vec![field(None, FieldAttributes { column: Some("id".into()), ..key() }), field(None, column("value"))],
    );
    let write = plan_write(&m).ok().unwrap();
    let mut record = vec![V::I(1), V::Null];
    insert(&conn, &write, &record).unwrap();
    let is_null: bool = conn.query_row("SELECT value IS NULL FROM tuple_records", [], |row| row.get(0)).unwrap();
    assert!(is_null);
    record[1] = V::T("updated".into());
    assert_eq!(update(&conn, &write, &record).unwrap(), 1);
    let value: String = conn.query_row("SELECT value FROM tuple_records", [], |row| row.get(0)).unwrap();
    assert_eq!(value, "updated");
    record[1] = V::T("upserted".into());
    assert_eq!(upsert(&conn, &write, &record).unwrap(), 1);
    let value: String = conn.query_row("SELECT value FROM tuple_records", [], |row| row.get(0)).unwrap();
    assert_eq!(value, "upserted");
}

#[test]
fn write_methods_work_inside_a_transaction() {
    let mut conn = users_connection();
    let (write, read) = plans(&user());
    {
        let transaction = conn.transaction().unwrap();
        insert(&transaction, &write, &user_record(1, "rolled back", true)).unwrap();
        transaction.rollback().unwrap();
    }
    assert!(fetch(&conn, &read, &USER_KINDS, None).is_empty());
    {
        let transaction = conn.transaction().unwrap();
        insert(&transaction, &write, &user_record(2, "committed", true)).unwrap();
        transaction.commit().unwrap();
    }
    assert_eq!(fetch(&conn, &read, &USER_KINDS, None).len(), 1);
}

fn assert_sqlite_failure(result: rusqlite::Result<usize>, expected_extended_code: i32, expected_message: &str) {
    match result.unwrap_err() {
        Error::SqliteFailure(error, Some(message)) => {
            assert_eq!(error.extended_code, expected_extended_code);
            assert!(message.contains(expected_message), "expected `{message}` to contain `{expected_message}`");
        }
        error => panic!("expected a SQLite failure, got {error:?}"),
    }
}

#[test]
fn sqlite_write_errors_are_returned() {
    let conn = users_connection();
    let (write, _) = plans(&user());
    let user = user_record(1, "duplicate", true);
    insert(&conn, &write, &user).unwrap();
    assert_sqlite_failure(
        insert(&conn, &write, &user),
        rusqlite::ffi::SQLITE_CONSTRAINT_PRIMARYKEY,
        "UNIQUE constraint failed: users.id",
    );
    let missing_table = Connection::open_in_memory().unwrap();
    assert_sqlite_failure(insert(&missing_table, &write, &user), rusqlite::ffi::SQLITE_ERROR, "no such table: users");
    conn.execute_batch("CREATE TABLE missing_column_records (id INTEGER PRIMARY KEY, actual TEXT NOT NULL);")
        .unwrap();
    let missing = model(
        "MissingColumnRecord",
        StructShape::Named,
        "missing_column_records",
        None,
        vec![field(Some("id"), key()), field(Some("missing"), plain())],
    );
    let write = plan_write(&missing).ok().unwrap();
    assert_sqlite_failure(
        insert(&conn, &write, &[V::I(1), V::T("value".into())]),
        rusqlite::ffi::SQLITE_ERROR,
        "table missing_column_records has no column named missing",
    );
}

#[test]
fn generic_writable_fields_round_trip() {
    let conn = Connection::open_in_memory().unwrap();
    conn.execute_batch("CREATE TABLE generic_write_records (id INTEGER PRIMARY KEY, value TEXT NOT NULL);").unwrap();
    let mut m = model(
        "GenericWriteRecord",
        StructShape::Named,
        "generic_write_records",
        None,
        vec![field(Some("id"), key()), field(Some("value"), plain())],
    );
    m.generic_params = vec!["T".to_string()];
    m.fields[1].ty = vec![TypeToken::Ident("T".to_string())];
    let (write, read) = plans(&m);
    assert_eq!(write.bounds.len(), 1);
    assert_eq!(write.bounds[0].field, 1);
    let mut record = vec![V::I(1), V::T("inserted".into())];
    insert(&conn, &write, &record).unwrap();
    record[1] = V::T("updated".into());
    upsert(&conn, &write, &record).unwrap();
    assert_eq!(fetch(&conn, &read, &[Kind::Int, Kind::Text], None), vec![record]);
}

#[test]
fn raw_rust_identifiers_drop_the_raw_prefix_in_sql() {
    let conn = Connection::open_in_memory().unwrap();
    conn.execute_batch("CREATE TABLE raw_records (id INTEGER PRIMARY KEY, type TEXT NOT NULL);").unwrap();
    let m = model(
        "RawRecord",
        StructShape::Named,
        "raw_records",
        None,
        vec![field(Some("id"), key()), field(Some("r#type"), plain())],
    );
    let (write, read) = plans(&m);
    assert_eq!(write.insert_query, "INSERT INTO raw_records (id, type) VALUES (?1, ?2);");
    let record = vec![V::I(1), V::T("event".into())];
    insert(&conn, &write, &record).unwrap();
    assert_eq!(fetch(&conn, &read, &[Kind::Int, Kind::Text], None), vec![record]);
}

#[test]
fn upsert_binds_updatable_fields_that_are_skipped_on_insert() {
    let conn = Connection::open_in_memory().unwrap();
    conn.execute_batch(
        "CREATE TABLE default_records (
             id INTEGER PRIMARY KEY,
             defaulted TEXT NOT NULL DEFAULT 'database default',
             value TEXT NOT NULL
         );",
    )
    .unwrap();
    let m = model(
        "DatabaseDefaultRecord",
        StructShape::Named,
        "default_records",
        None,
        vec![
            field(Some("id"), key()),
            field(Some("defaulted"), FieldAttributes { skip_insert: true, ..plain() }),
            field(Some("value"), plain()),
        ],
    );
    let (write, read) = plans(&m);
    assert_eq!(
        write.upsert_query,
        "INSERT INTO default_records (id, value) VALUES (?1, ?2) ON CONFLICT (id) DO UPDATE SET defaulted = ?3, value = excluded.value;"
    );
    assert_eq!(write.upsert_values, vec![0, 2, 1]);
    let kinds = [Kind::Int, Kind::Text, Kind::Text];
    let mut record = vec![V::I(1), V::T("ignored during insert".into()), V::T("first".into())];
    insert(&conn, &write, &record).unwrap();
    assert_eq!(fetch(&conn, &read, &kinds, None)[0][1], V::T("database default".into()));
    record[1] = V::T("from self".into());
    record[2] = V::T("second".into());
    upsert(&conn, &write, &record).unwrap();
    assert_eq!(fetch(&conn, &read, &kinds, None), vec![record]);
}

#[test]
fn read_default_fields_can_still_be_written() {
    let conn = Connection::open_in_memory().unwrap();
    conn.execute_batch(
        "CREATE TABLE read_default_records (
             id INTEGER PRIMARY KEY,
             hidden TEXT NOT NULL,
             visible TEXT NOT NULL
         );",
    )
    .unwrap();
    let m = model(
        "WritableReadDefault",
        StructShape::Named,
        "read_default_records",
        None,
        vec![
            field(Some("id"), key()),
            field(Some("hidden"), FieldAttributes { read_default: true, ..plain() }),
            field(Some("visible"), plain()),
        ],
    );
    let (write, read) = plans(&m);
    insert(&conn, &write, &[V::I(1), V::T("stored".into()), V::T("shown".into())]).unwrap();
    let hidden: String = conn.query_row("SELECT hidden FROM read_default_records", [], |row| row.get(0)).unwrap();
    assert_eq!(hidden, "stored");
    assert_eq!(fetch(&conn, &read, &[Kind::Int, Kind::Text, Kind::Text], None)[0][1], V::Default);
}
