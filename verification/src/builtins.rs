//! The capabilities that every app has: what each asks for, and what it answers.
//!
//! A capability that needs something from outside is answered in two steps: `begin` says what has to
//! be done, and a `finish_` function makes the result from what came of it.
use crate::base64_text::{base64_of, encode_base64};
use crate::domain_remo::{array_of_texts, text_array};
use crate::filesystem::{entries_json, entry_view, FileEntry};
use crate::json::{
    entry_trees, no_entries, no_fields, object_tree, put_entry, whole, with_fields, Json, JsonView,
};
use crate::order::{
    last_given, of_name, sorted_by_name, sorting_keeps_turns, table_of, table_of_entries,
};
use crate::registry::{HandlerError, HandlerOutput};
use crate::text::{joined3, texts};
use crate::user_defaults::{get_user_default, list_user_defaults, reads, store_reads, Plist};
use vstd::prelude::*;

verus! {

/// A capability that every app has.
#[derive(Clone, Copy, Debug, PartialEq, Eq, Structural)]
pub enum Builtin {
    Ping,
    ListCapabilities,
    DeviceInfo,
    AppInfo,
    ListDefaults,
    GetDefault,
    PutDefault,
    DeleteDefault,
    ListDirectory,
    ReadFile,
    DeletePath,
    RunQuery,
}

impl Builtin {
    /// The name that it is registered under.
    pub open spec fn called(self) -> Seq<char> {
        match self {
            Builtin::Ping => "__ping"@,
            Builtin::ListCapabilities => "__list_capabilities"@,
            Builtin::DeviceInfo => "__device_info"@,
            Builtin::AppInfo => "__app_info"@,
            Builtin::ListDefaults => "userDefaults.list"@,
            Builtin::GetDefault => "userDefaults.get"@,
            Builtin::PutDefault => "userDefaults.set"@,
            Builtin::DeleteDefault => "userDefaults.delete"@,
            Builtin::ListDirectory => "filesystem.list"@,
            Builtin::ReadFile => "filesystem.read"@,
            Builtin::DeletePath => "filesystem.delete"@,
            Builtin::RunQuery => "sqlite.query"@,
        }
    }

    /// The name that it is registered under.
    pub fn name(&self) -> (name: String)
        ensures
            name@ == self.called(),
    {
        match self {
            Builtin::Ping => "__ping".to_owned(),
            Builtin::ListCapabilities => "__list_capabilities".to_owned(),
            Builtin::DeviceInfo => "__device_info".to_owned(),
            Builtin::AppInfo => "__app_info".to_owned(),
            Builtin::ListDefaults => "userDefaults.list".to_owned(),
            Builtin::GetDefault => "userDefaults.get".to_owned(),
            Builtin::PutDefault => "userDefaults.set".to_owned(),
            Builtin::DeleteDefault => "userDefaults.delete".to_owned(),
            Builtin::ListDirectory => "filesystem.list".to_owned(),
            Builtin::ReadFile => "filesystem.read".to_owned(),
            Builtin::DeletePath => "filesystem.delete".to_owned(),
            Builtin::RunQuery => "sqlite.query".to_owned(),
        }
    }
}

/// Every capability that every app has.
pub fn builtins() -> (list: Vec<Builtin>)
    ensures
        list@.no_duplicates(),
        forall|builtin: Builtin| #[trigger] list@.contains(builtin),
{
    let list = vec![
        Builtin::Ping,
        Builtin::ListCapabilities,
        Builtin::DeviceInfo,
        Builtin::AppInfo,
        Builtin::ListDefaults,
        Builtin::GetDefault,
        Builtin::PutDefault,
        Builtin::DeleteDefault,
        Builtin::ListDirectory,
        Builtin::ReadFile,
        Builtin::DeletePath,
        Builtin::RunQuery,
    ];
    assert forall|builtin: Builtin| #[trigger] list@.contains(builtin) by {
        let at = match builtin {
            Builtin::Ping => 0int,
            Builtin::ListCapabilities => 1,
            Builtin::DeviceInfo => 2,
            Builtin::AppInfo => 3,
            Builtin::ListDefaults => 4,
            Builtin::GetDefault => 5,
            Builtin::PutDefault => 6,
            Builtin::DeleteDefault => 7,
            Builtin::ListDirectory => 8,
            Builtin::ReadFile => 9,
            Builtin::DeletePath => 10,
            Builtin::RunQuery => 11,
        };
        assert(list@[at] == builtin);
    }
    list
}

/// No two of the capabilities share a name.
pub proof fn names_are_distinct(a: Builtin, b: Builtin)
    requires
        a != b,
    ensures
        a.called() != b.called(),
{
    reveal_strlit("__ping");
    reveal_strlit("__list_capabilities");
    reveal_strlit("__device_info");
    reveal_strlit("__app_info");
    reveal_strlit("userDefaults.list");
    reveal_strlit("userDefaults.get");
    reveal_strlit("userDefaults.set");
    reveal_strlit("userDefaults.delete");
    reveal_strlit("filesystem.list");
    reveal_strlit("filesystem.read");
    reveal_strlit("filesystem.delete");
    reveal_strlit("sqlite.query");
    assert("__ping"@.len() == 6);
    assert("__list_capabilities"@.len() == 19);
    assert("__device_info"@.len() == 13);
    assert("__app_info"@.len() == 10);
    assert("userDefaults.list"@.len() == 17);
    assert("userDefaults.get"@.len() == 16);
    assert("userDefaults.set"@.len() == 16);
    assert("userDefaults.delete"@.len() == 19);
    assert("filesystem.list"@.len() == 15);
    assert("filesystem.read"@.len() == 15);
    assert("filesystem.delete"@.len() == 17);
    assert("sqlite.query"@.len() == 12);
    assert("userDefaults.get"@[13] == 'g');
    assert("userDefaults.set"@[13] == 's');
    assert("userDefaults.delete"@[0] == 'u');
    assert("__list_capabilities"@[0] == '_');
    assert("filesystem.list"@[11] == 'l');
    assert("filesystem.read"@[11] == 'r');
    assert("filesystem.delete"@[0] == 'f');
    assert("userDefaults.list"@[0] == 'u');
}

/// What has to be done before a capability can answer.
#[derive(Debug)]
pub enum BuiltinStep {
    /// Nothing: this is the result.
    Done(Json),
    /// Ask the device, then `finish_info`.
    DeviceInfo,
    /// Ask the app, then `finish_info`.
    AppInfo,
    /// List the user defaults, then `finish_list_defaults`.
    ListDefaults,
    /// Read a key of the user defaults, then `finish_get_default`.
    GetDefault { key: String },
    /// Put a value under a key of the user defaults, then `finish_put_default`.
    PutDefault { key: String, value: Json },
    /// Remove a key of the user defaults, then `finish_deletion`.
    DeleteDefault { key: String },
    /// List a directory, then `finish_list_directory`.
    ListDirectory { path: String },
    /// Read a file, then `finish_read_file`.
    ReadFile { path: String },
    /// Delete a path, then `finish_deletion`.
    DeletePath { path: String },
    /// Run a statement on a database; what that gives is the result.
    RunQuery { path: String, sql: String },
}

/// What has to be done before a capability can answer.
#[verifier::ext_equal]
pub enum BuiltinStepView {
    Done(JsonView),
    DeviceInfo,
    AppInfo,
    ListDefaults,
    GetDefault { key: Seq<char> },
    PutDefault { key: Seq<char>, value: JsonView },
    DeleteDefault { key: Seq<char> },
    ListDirectory { path: Seq<char> },
    ReadFile { path: Seq<char> },
    DeletePath { path: Seq<char> },
    RunQuery { path: Seq<char>, sql: Seq<char> },
}

impl View for BuiltinStep {
    type V = BuiltinStepView;

    open spec fn view(&self) -> BuiltinStepView {
        match self {
            BuiltinStep::Done(value) => BuiltinStepView::Done(value@),
            BuiltinStep::DeviceInfo => BuiltinStepView::DeviceInfo,
            BuiltinStep::AppInfo => BuiltinStepView::AppInfo,
            BuiltinStep::ListDefaults => BuiltinStepView::ListDefaults,
            BuiltinStep::GetDefault { key } => BuiltinStepView::GetDefault { key: key@ },
            BuiltinStep::PutDefault { key, value } => BuiltinStepView::PutDefault {
                key: key@,
                value: value@,
            },
            BuiltinStep::DeleteDefault { key } => BuiltinStepView::DeleteDefault { key: key@ },
            BuiltinStep::ListDirectory { path } => BuiltinStepView::ListDirectory { path: path@ },
            BuiltinStep::ReadFile { path } => BuiltinStepView::ReadFile { path: path@ },
            BuiltinStep::DeletePath { path } => BuiltinStepView::DeletePath { path: path@ },
            BuiltinStep::RunQuery { path, sql } => BuiltinStepView::RunQuery {
                path: path@,
                sql: sql@,
            },
        }
    }
}

/// What is wrong with parameters that lack a text.
pub open spec fn missing(field: Seq<char>) -> Seq<char> {
    "missing string param \""@ + field + "\""@
}

/// What a capability asks for first, or what is wrong with its parameters.
pub open spec fn asked(
    builtin: Builtin,
    params: JsonView,
    names: Seq<Seq<char>>,
) -> Result<BuiltinStepView, Seq<char>> {
    match builtin {
        Builtin::Ping => Ok(
            BuiltinStepView::Done(no_entries().with("pong"@, JsonView::Bool(true))),
        ),
        Builtin::ListCapabilities => Ok(BuiltinStepView::Done(text_array(names))),
        Builtin::DeviceInfo => Ok(BuiltinStepView::DeviceInfo),
        Builtin::AppInfo => Ok(BuiltinStepView::AppInfo),
        Builtin::ListDefaults => Ok(BuiltinStepView::ListDefaults),
        Builtin::GetDefault => match params.string_field("key"@) {
            Some(key) => Ok(BuiltinStepView::GetDefault { key }),
            None => Err(missing("key"@)),
        },
        Builtin::PutDefault => match params.string_field("key"@) {
            Some(key) => Ok(
                BuiltinStepView::PutDefault { key, value: params.field_or_null("value"@) },
            ),
            None => Err(missing("key"@)),
        },
        Builtin::DeleteDefault => match params.string_field("key"@) {
            Some(key) => Ok(BuiltinStepView::DeleteDefault { key }),
            None => Err(missing("key"@)),
        },
        Builtin::ListDirectory => match params.string_field("path"@) {
            Some(path) => Ok(BuiltinStepView::ListDirectory { path }),
            None => Ok(BuiltinStepView::ListDirectory { path: ""@ }),
        },
        Builtin::ReadFile => match params.string_field("path"@) {
            Some(path) => Ok(BuiltinStepView::ReadFile { path }),
            None => Err(missing("path"@)),
        },
        Builtin::DeletePath => match params.string_field("path"@) {
            Some(path) => Ok(BuiltinStepView::DeletePath { path }),
            None => Err(missing("path"@)),
        },
        Builtin::RunQuery => match (params.string_field("path"@), params.string_field("sql"@)) {
            (Some(path), Some(sql)) => Ok(BuiltinStepView::RunQuery { path, sql }),
            (None, _) => Err(missing("path"@)),
            (Some(_), None) => Err(missing("sql"@)),
        },
    }
}

/// What a capability asks for first, given its parameters and the names of all capabilities.
pub fn begin(builtin: Builtin, params: &Json, names: &Vec<String>) -> (step: Result<
    BuiltinStep,
    HandlerError,
>)
    ensures
        match asked(builtin, params@, texts(names@)) {
            Ok(view) => step matches Ok(s) && s@ == view,
            Err(fault) => step matches Err(HandlerError::InvalidParams(message)) && message@
                == fault,
        },
{
    match builtin {
        Builtin::Ping => Ok(BuiltinStep::Done(Json::empty().with("pong", Json::Bool(true)))),
        Builtin::ListCapabilities => Ok(BuiltinStep::Done(array_of_texts(names))),
        Builtin::DeviceInfo => Ok(BuiltinStep::DeviceInfo),
        Builtin::AppInfo => Ok(BuiltinStep::AppInfo),
        Builtin::ListDefaults => Ok(BuiltinStep::ListDefaults),
        Builtin::GetDefault => match needed(params, "key") {
            Ok(key) => Ok(BuiltinStep::GetDefault { key }),
            Err(message) => Err(HandlerError::InvalidParams(message)),
        },
        Builtin::PutDefault => match needed(params, "key") {
            Ok(key) => Ok(
                BuiltinStep::PutDefault { key, value: params.field_or_null("value") },
            ),
            Err(message) => Err(HandlerError::InvalidParams(message)),
        },
        Builtin::DeleteDefault => match needed(params, "key") {
            Ok(key) => Ok(BuiltinStep::DeleteDefault { key }),
            Err(message) => Err(HandlerError::InvalidParams(message)),
        },
        Builtin::ListDirectory => match needed(params, "path") {
            Ok(path) => Ok(BuiltinStep::ListDirectory { path }),
            Err(_) => Ok(BuiltinStep::ListDirectory { path: "".to_owned() }),
        },
        Builtin::ReadFile => match needed(params, "path") {
            Ok(path) => Ok(BuiltinStep::ReadFile { path }),
            Err(message) => Err(HandlerError::InvalidParams(message)),
        },
        Builtin::DeletePath => match needed(params, "path") {
            Ok(path) => Ok(BuiltinStep::DeletePath { path }),
            Err(message) => Err(HandlerError::InvalidParams(message)),
        },
        Builtin::RunQuery => match needed(params, "path") {
            Ok(path) => match needed(params, "sql") {
                Ok(sql) => Ok(BuiltinStep::RunQuery { path, sql }),
                Err(message) => Err(HandlerError::InvalidParams(message)),
            },
            Err(message) => Err(HandlerError::InvalidParams(message)),
        },
    }
}

/// A text of the parameters, or what is wrong with them.
fn needed(params: &Json, field: &str) -> (text: Result<String, String>)
    ensures
        match params@.string_field(field@) {
            Some(found) => text matches Ok(t) && t@ == found,
            None => text matches Err(message) && message@ == missing(field@),
        },
{
    match params.str_field(field) {
        Some(text) => Ok(text.to_owned()),
        None => Err(joined3("missing string param \"", field, "\"")),
    }
}

/// What the device or the app said of itself; null where it said nothing.
pub fn finish_info(info: Option<Json>) -> (result: Json)
    ensures
        info matches Some(value) ==> result == value,
        info is None ==> result@ == JsonView::Null,
{
    match info {
        Some(value) => value,
        None => Json::Null,
    }
}

/// The user defaults as an object.
pub fn finish_list_defaults(entries: &Vec<(String, Plist)>) -> (result: Json)
    ensures
        result@ == JsonView::Object(table_of(sorted_by_name(store_reads(entries@)))),
{
    broadcast use object_tree;

    let list = list_user_defaults(entries);
    let ghost all = entry_trees(list@);
    let mut table: Vec<(String, Json)> = Vec::new();
    assert(entry_trees(table@) =~= table_of(all.take(0)));
    let mut rest = list;
    let ghost mut done: int = 0;
    while rest.len() > 0
        invariant
            0 <= done,
            done + rest@.len() == all.len(),
            entry_trees(rest@) == all.skip(done),
            entry_trees(table@) == table_of(all.take(done)),
        decreases rest.len(),
    {
        let ghost left = entry_trees(rest@);
        let (key, value) = rest.remove(0);
        proof {
            assert(left[0] == (key@, value@));
            assert(entry_trees(rest@) =~= left.drop_first());
            assert(left.drop_first() =~= all.skip(done + 1));
            assert(all.take(done + 1).drop_last() =~= all.take(done));
            assert(all.take(done + 1).last() == (key@, value@));
            done = done + 1;
        }
        put_entry(&mut table, key, value);
    }
    assert(all.take(done) =~= all);
    Json::Object(table)
}

/// The value under a key of the user defaults; null where there is none.
pub fn finish_get_default(held: &Plist) -> (result: Json)
    ensures
        result@ == no_entries().with("value"@, reads(held.tree())),
{
    match get_user_default(held) {
        Some(value) => Json::empty().with("value", value),
        None => Json::empty().with("value", Json::Null),
    }
}

/// The value that was put under a key of the user defaults, or why it was not.
pub fn finish_put_default(value: Json, outcome: Result<(), String>) -> (result: Result<
    Json,
    String,
>)
    ensures
        match outcome {
            Ok(_) => result matches Ok(json) && json@ == no_entries().with("value"@, value@),
            Err(error) => result == Err::<Json, String>(error),
        },
{
    match outcome {
        Ok(_) => Ok(Json::empty().with("value", value)),
        Err(message) => Err(message),
    }
}

/// That something was deleted, or why it was not.
pub fn finish_deletion(outcome: Result<(), String>) -> (result: Result<Json, String>)
    ensures
        match outcome {
            Ok(_) => result matches Ok(json) && json@ == no_entries().with(
                "deleted"@,
                JsonView::Bool(true),
            ),
            Err(error) => result == Err::<Json, String>(error),
        },
{
    match outcome {
        Ok(_) => Ok(Json::empty().with("deleted", Json::Bool(true))),
        Err(message) => Err(message),
    }
}

/// The entries of a directory, or why there are none.
pub fn finish_list_directory(outcome: Result<Vec<FileEntry>, String>) -> (result: Result<
    Json,
    String,
>)
    ensures
        match outcome {
            Ok(entries) => result matches Ok(json) && json@ == JsonView::Array(
                Seq::new(entries@.len(), |i: int| entry_view(entries@[i])),
            ),
            Err(error) => result == Err::<Json, String>(error),
        },
{
    match outcome {
        Ok(entries) => Ok(entries_json(&entries)),
        Err(message) => Err(message),
    }
}

/// The size of a file and its bytes in base64, or why there are none.
pub fn finish_read_file(outcome: Result<Vec<u8>, String>) -> (result: Result<Json, String>)
    ensures
        match outcome {
            Ok(bytes) => result matches Ok(json) && json@ == no_entries().with(
                "size"@,
                whole(bytes@.len() as int),
            ).with("data_base64"@, JsonView::Text(base64_of(bytes@))),
            Err(error) => result == Err::<Json, String>(error),
        },
{
    match outcome {
        Ok(bytes) => Ok(
            Json::empty().with("size", Json::unsigned(bytes.len() as u64)).with(
                "data_base64",
                Json::Text(encode_base64(bytes.as_slice())),
            ),
        ),
        Err(message) => Err(message),
    }
}

/// What a capability gives for a result.
pub fn answer(result: Result<Json, String>) -> (output: Result<HandlerOutput, HandlerError>)
    ensures
        match result {
            Ok(value) => output == Ok::<HandlerOutput, HandlerError>(HandlerOutput::Json(value)),
            Err(error) => output == Err::<HandlerOutput, HandlerError>(
                HandlerError::Internal(error),
            ),
        },
{
    match result {
        Ok(value) => Ok(HandlerOutput::Json(value)),
        Err(message) => Err(HandlerError::Internal(message)),
    }
}

/// The texts that a capability cannot do without, in the order in which it asks for them.
pub open spec fn needs(builtin: Builtin) -> Seq<Seq<char>> {
    match builtin {
        Builtin::GetDefault => seq!["key"@],
        Builtin::PutDefault => seq!["key"@],
        Builtin::DeleteDefault => seq!["key"@],
        Builtin::ReadFile => seq!["path"@],
        Builtin::DeletePath => seq!["path"@],
        Builtin::RunQuery => seq!["path"@, "sql"@],
        _ => seq![],
    }
}

/// A capability is refused exactly where a text that it needs is missing, and told the first that
/// is.
pub proof fn needed_texts_are_asked_for(builtin: Builtin, params: JsonView, names: Seq<Seq<char>>)
    ensures
        asked(builtin, params, names) is Ok <==> forall|i: int|
            0 <= i < needs(builtin).len() ==> params.string_field(#[trigger] needs(builtin)[i]) is Some,
        asked(builtin, params, names) matches Err(message) ==> exists|i: int|
            0 <= i < needs(builtin).len() && params.string_field(#[trigger] needs(builtin)[i]) is None
                && message == "missing string param \""@ + needs(builtin)[i] + "\""@ && forall|j: int|
                0 <= j < i ==> params.string_field(#[trigger] needs(builtin)[j]) is Some,
{
    let list = needs(builtin);
    if list.len() == 1 {
        assert(params.string_field(list[0]) is Some == (forall|i: int|
            0 <= i < list.len() ==> params.string_field(#[trigger] list[i]) is Some));
    }
    if list.len() == 2 {
        assert(list[0] == "path"@ && list[1] == "sql"@);
        if params.string_field("path"@) is Some && params.string_field("sql"@) is Some {
            assert forall|i: int| 0 <= i < list.len() implies params.string_field(
                #[trigger] list[i],
            ) is Some by {
                assert(i == 0 || i == 1);
            }
        }
    }
}

/// What a capability asks for is what its parameters say.
pub proof fn parameters_are_handed_on(params: JsonView, names: Seq<Seq<char>>)
    ensures
        params.string_field("key"@) matches Some(key) ==> {
            &&& asked(Builtin::GetDefault, params, names) == Ok::<BuiltinStepView, Seq<char>>(
                BuiltinStepView::GetDefault { key },
            )
            &&& asked(Builtin::DeleteDefault, params, names) == Ok::<BuiltinStepView, Seq<char>>(
                BuiltinStepView::DeleteDefault { key },
            )
            &&& asked(Builtin::PutDefault, params, names) matches Ok(
                BuiltinStepView::PutDefault { key: k, value },
            ) && k == key && (params.field("value"@) is Some ==> params.field("value"@) == Some(
                value,
            )) && (params.field("value"@) is None ==> value is Null)
        },
        params.string_field("path"@) matches Some(path) ==> {
            &&& asked(Builtin::ListDirectory, params, names) == Ok::<BuiltinStepView, Seq<char>>(
                BuiltinStepView::ListDirectory { path },
            )
            &&& asked(Builtin::ReadFile, params, names) == Ok::<BuiltinStepView, Seq<char>>(
                BuiltinStepView::ReadFile { path },
            )
            &&& asked(Builtin::DeletePath, params, names) == Ok::<BuiltinStepView, Seq<char>>(
                BuiltinStepView::DeletePath { path },
            )
            &&& params.string_field("sql"@) matches Some(sql) ==> asked(
                Builtin::RunQuery,
                params,
                names,
            ) == Ok::<BuiltinStepView, Seq<char>>(BuiltinStepView::RunQuery { path, sql })
        },
        params.string_field("path"@) is None ==> (asked(
            Builtin::ListDirectory,
            params,
            names,
        ) matches Ok(BuiltinStepView::ListDirectory { path }) && path.len() == 0),
        asked(Builtin::Ping, params, names) matches Ok(BuiltinStepView::Done(value))
            && value.truth_field("pong"@) == Some(true),
        asked(Builtin::ListCapabilities, params, names) matches Ok(BuiltinStepView::Done(value))
            && value == text_array(names),
{
    broadcast use {with_fields, no_fields};
    reveal_strlit("");
}

/// A capability's name is what it works on, a dot and what it does, so that the capabilities nest
/// into namespaces; those of the app itself begin with two underscores.
pub proof fn names_say_what_they_do(builtin: Builtin)
    ensures
        builtin is ListDefaults ==> builtin.called() == "userDefaults"@ + seq!['.'] + "list"@,
        builtin is GetDefault ==> builtin.called() == "userDefaults"@ + seq!['.'] + "get"@,
        builtin is PutDefault ==> builtin.called() == "userDefaults"@ + seq!['.'] + "set"@,
        builtin is DeleteDefault ==> builtin.called() == "userDefaults"@ + seq!['.'] + "delete"@,
        builtin is ListDirectory ==> builtin.called() == "filesystem"@ + seq!['.'] + "list"@,
        builtin is ReadFile ==> builtin.called() == "filesystem"@ + seq!['.'] + "read"@,
        builtin is DeletePath ==> builtin.called() == "filesystem"@ + seq!['.'] + "delete"@,
        builtin is RunQuery ==> builtin.called() == "sqlite"@ + seq!['.'] + "query"@,
        builtin is Ping ==> builtin.called() == seq!['_', '_'] + "ping"@,
        builtin is ListCapabilities ==> builtin.called() == seq!['_', '_'] + "list_capabilities"@,
        builtin is DeviceInfo ==> builtin.called() == seq!['_', '_'] + "device_info"@,
        builtin is AppInfo ==> builtin.called() == seq!['_', '_'] + "app_info"@,
{
    reveal_strlit("userDefaults");
    reveal_strlit("list");
    reveal_strlit("userDefaults.list");
    reveal_strlit("get");
    reveal_strlit("userDefaults.get");
    reveal_strlit("set");
    reveal_strlit("userDefaults.set");
    reveal_strlit("delete");
    reveal_strlit("userDefaults.delete");
    reveal_strlit("filesystem");
    reveal_strlit("filesystem.list");
    reveal_strlit("read");
    reveal_strlit("filesystem.read");
    reveal_strlit("filesystem.delete");
    reveal_strlit("sqlite");
    reveal_strlit("query");
    reveal_strlit("sqlite.query");
    reveal_strlit("ping");
    reveal_strlit("__ping");
    reveal_strlit("list_capabilities");
    reveal_strlit("__list_capabilities");
    reveal_strlit("device_info");
    reveal_strlit("__device_info");
    reveal_strlit("app_info");
    reveal_strlit("__app_info");
    assert("userDefaults.list"@ =~= "userDefaults"@ + seq!['.'] + "list"@);
    assert("userDefaults.get"@ =~= "userDefaults"@ + seq!['.'] + "get"@);
    assert("userDefaults.set"@ =~= "userDefaults"@ + seq!['.'] + "set"@);
    assert("userDefaults.delete"@ =~= "userDefaults"@ + seq!['.'] + "delete"@);
    assert("filesystem.list"@ =~= "filesystem"@ + seq!['.'] + "list"@);
    assert("filesystem.read"@ =~= "filesystem"@ + seq!['.'] + "read"@);
    assert("filesystem.delete"@ =~= "filesystem"@ + seq!['.'] + "delete"@);
    assert("sqlite.query"@ =~= "sqlite"@ + seq!['.'] + "query"@);
    assert("__ping"@ =~= seq!['_', '_'] + "ping"@);
    assert("__list_capabilities"@ =~= seq!['_', '_'] + "list_capabilities"@);
    assert("__device_info"@ =~= seq!['_', '_'] + "device_info"@);
    assert("__app_info"@ =~= seq!['_', '_'] + "app_info"@);
}

/// A file that was read is told by its size and by its bytes in base64, a default by its value, and
/// what was deleted as deleted; why one of them failed is told as it is.
pub proof fn results_tell_what_was_done(
    bytes: Vec<u8>,
    held: &Plist,
    value: Json,
    error: String,
    file: Result<Json, String>,
    default: Json,
    put: Result<Json, String>,
    deletion: Result<Json, String>,
    failed: Result<Json, String>,
)
    requires
        call_ensures(finish_read_file, (Ok(bytes),), file),
        call_ensures(finish_get_default, (held,), default),
        call_ensures(finish_put_default, (value, Ok(())), put),
        call_ensures(finish_deletion, (Ok(()),), deletion),
        call_ensures(finish_read_file, (Err(error),), failed),
    ensures
        file matches Ok(json) && json@.field("size"@) == Some(whole(bytes@.len() as int))
            && json@.string_field("data_base64"@) == Some(base64_of(bytes@)),
        default@.field("value"@) == Some(reads(held.tree())),
        put matches Ok(json) && json@.field("value"@) == Some(value@),
        deletion matches Ok(json) && json@.truth_field("deleted"@) == Some(true),
        failed matches Err(message) && message == error,
{
    broadcast use {with_fields, no_fields};
    reveal_strlit("size");
    reveal_strlit("data_base64");
    assert("size"@.len() == 4 && "data_base64"@.len() == 11);
}

/// The user defaults are told as an object that has, under each key, the value that the store lists
/// for it last.
pub proof fn defaults_are_told_by_key(
    entries: &Vec<(String, Plist)>,
    result: Json,
    key: Seq<char>,
)
    requires
        call_ensures(finish_list_defaults, (entries,), result),
    ensures
        result@.field(key) is Some <==> exists|i: int|
            0 <= i < entries@.len() && (#[trigger] entries@[i]).0@ == key,
        forall|i: int|
            0 <= i < entries@.len() && (#[trigger] entries@[i]).0@ == key && (forall|j: int|
                i < j < entries@.len() ==> (#[trigger] entries@[j]).0@ != key)
                ==> result@.field(key) == Some(reads(entries@[i].1.tree())),
{
    let all = store_reads(entries@);
    let list = sorted_by_name(all);
    table_of_entries(list, key);
    sorting_keeps_turns(all, key);
    last_is_last_of_name(list, key);
    last_is_last_of_name(all, key);
    assert forall|i: int| 0 <= i < entries@.len() implies #[trigger] all[i] == (
        entries@[i].0@,
        reads(entries@[i].1.tree()),
    ) by {}
    if last_given(all, key) is Some {
        let at = place_last_given(all, key);
        assert(entries@[at].0@ == key);
    }
    assert forall|i: int|
        0 <= i < entries@.len() && (#[trigger] entries@[i]).0@ == key && (forall|j: int|
            i < j < entries@.len() ==> (#[trigger] entries@[j]).0@ != key) implies result@.field(
        key,
    ) == Some(reads(entries@[i].1.tree())) by {
        assert(all[i].0 == key);
        let at = place_last_given(all, key);
        assert(entries@[at].0@ == key);
    }
    if exists|i: int| 0 <= i < entries@.len() && (#[trigger] entries@[i]).0@ == key {
        let i = choose|i: int| 0 <= i < entries@.len() && (#[trigger] entries@[i]).0@ == key;
        assert(all[i].0 == key);
        let at = place_last_given(all, key);
    }
}

proof fn last_is_last_of_name(list: Seq<(Seq<char>, JsonView)>, key: Seq<char>)
    ensures
        last_given(list, key) is Some == (of_name(list, key).len() > 0),
        of_name(list, key).len() > 0 ==> last_given(list, key) == Some(of_name(list, key).last()),
    decreases list.len(),
{
    if list.len() > 0 {
        last_is_last_of_name(list.drop_last(), key);
    }
}

proof fn place_last_given(list: Seq<(Seq<char>, JsonView)>, key: Seq<char>) -> (at: int)
    requires
        exists|i: int| 0 <= i < list.len() && (#[trigger] list[i]).0 == key || last_given(
            list,
            key,
        ) is Some,
    ensures
        0 <= at < list.len(),
        list[at].0 == key,
        last_given(list, key) == Some(list[at].1),
        forall|j: int| at < j < list.len() ==> (#[trigger] list[j]).0 != key,
    decreases list.len(),
{
    if list.len() == 0 {
        0
    } else if list.last().0 == key {
        list.len() - 1
    } else {
        let front = list.drop_last();
        if last_given(list, key) is None {
            let i = choose|i: int| 0 <= i < list.len() && (#[trigger] list[i]).0 == key;
            assert(front[i].0 == key);
        }
        let at = place_last_given(front, key);
        assert forall|j: int| at < j < list.len() implies (#[trigger] list[j]).0 != key by {
            if j < front.len() {
                assert(front[j].0 != key);
            }
        }
        at
    }
}

} // verus!
