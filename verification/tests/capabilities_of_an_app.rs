//! Registered capabilities, those that every app has, and databases.
use remo::builtins::{
    answer, begin, builtins, finish_deletion, finish_get_default, finish_info,
    finish_list_defaults, finish_list_directory, finish_put_default, finish_read_file, Builtin,
    BuiltinStep,
};
use remo::dispatcher::{CdpReply, CdpRequest, EventSink};
use remo::domain_remo::CapabilityInvoker;
use remo::filesystem::FileEntry;
use remo::json::Json;
use remo::json_text::parse_json;
use remo::registry::{
    carried, remo_domain, CapabilityHandler, CapabilityRegistry, HandlerError, HandlerOutput,
    RegistryInvoker,
};
use remo::sqlite_query::{is_executed, query, value_ref_to_json, QueryOutcome, SqlValue};
use remo::user_defaults::Plist;
use rusqlite::types::ValueRef;
use rusqlite::Connection;

fn json(text: &str) -> Json {
    parse_json(text).expect("test JSON")
}

struct Handler(Box<dyn Fn(Json) -> Result<HandlerOutput, HandlerError>>);

impl CapabilityHandler for Handler {
    fn handle(&self, params: Json) -> Result<HandlerOutput, HandlerError> {
        (self.0)(params)
    }
}

fn register_sync(
    registry: &mut CapabilityRegistry<Handler>,
    name: &str,
    handler: impl Fn(Json) -> Result<Json, HandlerError> + 'static,
) {
    registry.register(
        name.to_string(),
        Handler(Box::new(move |params| handler(params).map(HandlerOutput::Json))),
    );
}

#[test]
fn json_output_passes_through() {
    let mut registry = CapabilityRegistry::new();
    register_sync(&mut registry, "ping", |_| Ok(json(r#"{"pong": true}"#)));
    let invoker = RegistryInvoker(registry);
    let result = invoker.invoke("ping", Json::Null);
    assert_eq!(result, Some(Ok(json(r#"{"pong": true}"#))));
}

#[test]
fn binary_output_becomes_a_clear_error_not_a_panic() {
    let mut registry = CapabilityRegistry::new();
    registry.register(
        "dump".to_string(),
        Handler(Box::new(|_| {
            Ok(HandlerOutput::Binary { metadata: Json::empty(), data: vec![1, 2, 3] })
        })),
    );
    let invoker = RegistryInvoker(registry);
    let result = invoker.invoke("dump", Json::Null).unwrap();
    assert!(result.is_err());
    assert!(result.unwrap_err().contains("Page.captureScreenshot"));
}

#[test]
fn unknown_capability_is_none() {
    let invoker = RegistryInvoker(CapabilityRegistry::<Handler>::new());
    assert!(invoker.invoke("nope", Json::Null).is_none());
}

#[test]
fn list_reflects_registered_names() {
    let mut registry = CapabilityRegistry::new();
    register_sync(&mut registry, "a", |_| Ok(Json::Null));
    register_sync(&mut registry, "b", |_| Ok(Json::Null));
    let invoker = RegistryInvoker(registry);
    let mut names = invoker.list();
    names.sort();
    assert_eq!(names, vec!["a", "b"]);
}

#[test]
fn failures_say_whose_fault_they_are() {
    assert_eq!(
        carried(Err(HandlerError::InvalidParams("x".to_string()))),
        Err("invalid params: x".to_string())
    );
    assert_eq!(
        carried(Err(HandlerError::Internal("y".to_string()))),
        Err("internal error: y".to_string())
    );
}

#[test]
fn a_domain_over_a_registry_answers() {
    let mut registry = CapabilityRegistry::new();
    register_sync(&mut registry, "add", |params| {
        let a = params.field_or_null("a").as_i64().unwrap_or(0);
        let b = params.field_or_null("b").as_i64().unwrap_or(0);
        Ok(Json::empty().with("sum", Json::signed(a + b)))
    });
    let domain = remo_domain(registry);
    assert_eq!(domain.methods().len(), 5);
    let ask = |method: &str, params: &str| {
        let request = CdpRequest { id: 1, method: method.to_string(), params: json(params) };
        domain.respond(&request, &mut EventSink::new())
    };
    match ask("Remo.listCapabilities", "{}") {
        CdpReply::Result(value) => assert_eq!(value, json(r#"{"names": ["add"]}"#)),
        other => panic!("expected a result, got: {other:?}"),
    }
    match ask("Remo.invoke", r#"{"name": "add", "args": {"a": 2, "b": 3}}"#) {
        CdpReply::Result(value) => assert_eq!(value, json(r#"{"result": {"sum": 5}}"#)),
        other => panic!("expected a result, got: {other:?}"),
    }
    match ask("Remo.invoke", r#"{"name": "other"}"#) {
        CdpReply::Error { message, .. } => assert_eq!(message, "no such capability: other"),
        other => panic!("expected an error, got: {other:?}"),
    }
}

fn step(builtin: Builtin, params: &str) -> Result<BuiltinStep, HandlerError> {
    begin(builtin, &json(params), &vec!["a".to_string()])
}

#[test]
fn every_builtin_has_a_name_of_its_own() {
    let mut names: Vec<String> = builtins().iter().map(|b| b.name()).collect();
    names.sort();
    names.dedup();
    assert_eq!(names.len(), 12);
    for name in ["__ping", "userDefaults.set", "filesystem.list", "sqlite.query"] {
        assert!(names.iter().any(|n| n == name), "{name}");
    }
}

#[test]
fn ping_and_the_list_answer_at_once() {
    match step(Builtin::Ping, "{}") {
        Ok(BuiltinStep::Done(value)) => assert_eq!(value, json(r#"{"pong": true}"#)),
        other => panic!("unexpected: {other:?}"),
    }
    match step(Builtin::ListCapabilities, "{}") {
        Ok(BuiltinStep::Done(value)) => assert_eq!(value, json(r#"["a"]"#)),
        other => panic!("unexpected: {other:?}"),
    }
    assert!(matches!(step(Builtin::DeviceInfo, "{}"), Ok(BuiltinStep::DeviceInfo)));
    assert!(matches!(step(Builtin::AppInfo, "{}"), Ok(BuiltinStep::AppInfo)));
    assert_eq!(finish_info(None), Json::Null);
    assert_eq!(finish_info(Some(Json::unsigned(1))), Json::unsigned(1));
}

#[test]
fn builtins_name_the_parameter_that_is_missing() {
    for (builtin, field) in [
        (Builtin::GetDefault, "key"),
        (Builtin::PutDefault, "key"),
        (Builtin::DeleteDefault, "key"),
        (Builtin::ReadFile, "path"),
        (Builtin::DeletePath, "path"),
        (Builtin::RunQuery, "path"),
    ] {
        match step(builtin, "{}") {
            Err(HandlerError::InvalidParams(message)) => {
                assert_eq!(message, format!("missing string param \"{field}\""))
            }
            other => panic!("unexpected: {other:?}"),
        }
    }
    match step(Builtin::RunQuery, r#"{"path": "a.db"}"#) {
        Err(HandlerError::InvalidParams(message)) => {
            assert_eq!(message, "missing string param \"sql\"")
        }
        other => panic!("unexpected: {other:?}"),
    }
    match step(Builtin::ListDirectory, "{}") {
        Ok(BuiltinStep::ListDirectory { path }) => assert_eq!(path, ""),
        other => panic!("unexpected: {other:?}"),
    }
}

#[test]
fn user_defaults_are_read_and_written() {
    match step(Builtin::PutDefault, r#"{"key": "k", "value": "hello"}"#) {
        Ok(BuiltinStep::PutDefault { key, value }) => {
            assert_eq!(key, "k");
            let result = finish_put_default(value, Ok(()));
            assert_eq!(result, Ok(json(r#"{"value": "hello"}"#)));
        }
        other => panic!("unexpected: {other:?}"),
    }
    assert!(matches!(step(Builtin::ListDefaults, "{}"), Ok(BuiltinStep::ListDefaults)));
    assert!(
        matches!(step(Builtin::GetDefault, r#"{"key": "k"}"#), Ok(BuiltinStep::GetDefault { .. }))
    );
    let held = Plist::Text("hello".to_string());
    assert_eq!(finish_get_default(&held), json(r#"{"value": "hello"}"#));
    assert_eq!(finish_get_default(&Plist::Nothing), json(r#"{"value": null}"#));
    let all = vec![("k".to_string(), held), ("a".to_string(), Plist::Text("1".to_string()))];
    assert_eq!(finish_list_defaults(&all), json(r#"{"k": "hello", "a": "1"}"#));
    assert_eq!(finish_deletion(Ok(())), Ok(json(r#"{"deleted": true}"#)));
    assert_eq!(finish_deletion(Err("no".to_string())), Err("no".to_string()));
    assert_eq!(
        finish_put_default(Json::Null, Err("no".to_string())),
        Err("no".to_string())
    );
}

#[test]
fn files_are_listed_and_read() {
    let entry = FileEntry {
        name: "hello.txt".to_string(),
        is_directory: false,
        size: 11,
        modified_unix_secs: None,
    };
    let listing = finish_list_directory(Ok(vec![entry])).unwrap();
    let entries = listing.as_array().unwrap();
    assert_eq!(entries.len(), 1);
    assert_eq!(entries[0].str_field("name"), Some("hello.txt"));
    assert_eq!(
        finish_read_file(Ok(b"hello world".to_vec())),
        Ok(json(r#"{"size": 11, "data_base64": "aGVsbG8gd29ybGQ="}"#))
    );
    assert_eq!(finish_read_file(Err("gone".to_string())), Err("gone".to_string()));
    assert_eq!(finish_list_directory(Err("gone".to_string())), Err("gone".to_string()));
}

#[test]
fn results_become_what_a_capability_gives() {
    match answer(Ok(Json::unsigned(1))) {
        Ok(HandlerOutput::Json(value)) => assert_eq!(value, Json::unsigned(1)),
        other => panic!("unexpected: {other:?}"),
    }
    match answer(Err("broken".to_string())) {
        Err(HandlerError::Internal(message)) => assert_eq!(message, "broken"),
        other => panic!("unexpected: {other:?}"),
    }
}

fn sql_value(value: ValueRef<'_>) -> SqlValue {
    match value {
        ValueRef::Null => SqlValue::Null,
        ValueRef::Integer(i) => SqlValue::Integer(i),
        ValueRef::Real(f) => SqlValue::Real(serde_json::Number::from_f64(f)),
        ValueRef::Text(t) => SqlValue::Text(t.to_vec()),
        ValueRef::Blob(b) => SqlValue::Blob(b.to_vec()),
    }
}

fn run(connection: &Connection, sql: &str) -> QueryOutcome {
    let mut statement = match connection.prepare(sql) {
        Ok(statement) => statement,
        Err(error) => return QueryOutcome::PrepareFailed(error.to_string()),
    };
    let count = statement.column_count();
    if is_executed(count) {
        return match statement.execute([]) {
            Ok(changed) => QueryOutcome::Executed(changed as u64),
            Err(error) => QueryOutcome::ExecuteFailed(error.to_string()),
        };
    }
    let columns = statement.column_names().into_iter().map(str::to_string).collect();
    let read = statement.query_map([], |row| {
        let mut values = Vec::new();
        for i in 0..count {
            values.push(sql_value(row.get_ref(i)?));
        }
        Ok(values)
    });
    match read {
        Err(error) => QueryOutcome::RunFailed(error.to_string()),
        Ok(rows) => match rows.collect::<Result<Vec<_>, _>>() {
            Err(error) => QueryOutcome::RowFailed(error.to_string()),
            Ok(rows) => QueryOutcome::Rows { columns, rows },
        },
    }
}

fn ask(connection: &Connection, sql: &str) -> Result<Json, String> {
    query("test.sqlite", "/home", &run(connection, sql))
}

#[test]
fn create_insert_and_select_round_trip() {
    let connection = Connection::open_in_memory().unwrap();
    assert_eq!(
        ask(&connection, "CREATE TABLE items (id INTEGER PRIMARY KEY, name TEXT)").unwrap(),
        json(r#"{"rows_affected": 0}"#)
    );
    assert_eq!(
        ask(&connection, "INSERT INTO items (name) VALUES ('widget')").unwrap(),
        json(r#"{"rows_affected": 1}"#)
    );
    assert_eq!(
        ask(&connection, "SELECT id, name FROM items").unwrap(),
        json(r#"{"columns": ["id", "name"], "rows": [[1, "widget"]]}"#)
    );
}

#[test]
fn null_and_real_and_blob_values_convert_correctly() {
    let connection = Connection::open_in_memory().unwrap();
    ask(&connection, "CREATE TABLE t (n TEXT, r REAL, b BLOB)").unwrap();
    ask(&connection, "INSERT INTO t VALUES (NULL, 3.5, X'0102')").unwrap();
    let select = ask(&connection, "SELECT n, r, b FROM t").unwrap();
    let rows = select.get("rows").unwrap().as_array().unwrap();
    let first = rows[0].as_array().unwrap();
    assert_eq!(first[0], Json::Null);
    assert_eq!(first[1], json("3.5"));
    assert_eq!(first[2], json(r#""AQI=""#));
}

#[test]
fn invalid_sql_is_a_clear_error_not_a_panic() {
    let connection = Connection::open_in_memory().unwrap();
    let result = ask(&connection, "NOT VALID SQL AT ALL");
    assert!(result.is_err());
    assert!(result.unwrap_err().starts_with("failed to prepare SQL: "));
}

#[test]
fn each_failure_of_a_statement_is_told_apart() {
    let told = |outcome: QueryOutcome| query("a.db", "/home", &outcome).unwrap_err();
    assert_eq!(told(QueryOutcome::OpenFailed("e".to_string())), "failed to open /home/a.db: e");
    assert_eq!(told(QueryOutcome::PrepareFailed("e".to_string())), "failed to prepare SQL: e");
    assert_eq!(told(QueryOutcome::ExecuteFailed("e".to_string())), "failed to execute SQL: e");
    assert_eq!(told(QueryOutcome::RunFailed("e".to_string())), "failed to run query: e");
    assert_eq!(told(QueryOutcome::RowFailed("e".to_string())), "failed to read a row: e");
}

#[test]
fn text_that_is_no_utf8_is_read_with_replacements() {
    assert_eq!(value_ref_to_json(&SqlValue::Text(vec![0x61, 0xff])), Json::text("a\u{fffd}"));
    assert_eq!(value_ref_to_json(&SqlValue::Real(None)), Json::Null);
    assert_eq!(value_ref_to_json(&SqlValue::Integer(-3)), Json::signed(-3));
}
