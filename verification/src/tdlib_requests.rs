//! The TDLib requests that the client sends, as JSON values.

use vstd::prelude::*;

use crate::json::{entries_tree, entry, lemma_first_field_at, object, text, JsonTree, TdJson};
use crate::tdlib::TdlibBootstrapConfig;

verus! {

/// A text tree.
pub open spec fn text_tree(s: Seq<char>) -> JsonTree {
    JsonTree::Text(s)
}

/// An integer tree.
pub open spec fn int_tree(n: int) -> JsonTree {
    JsonTree::Int(n)
}

/// A local file input.
pub open spec fn local_file_tree(path: Seq<char>) -> JsonTree {
    JsonTree::Object(seq![("@type"@, text_tree("inputFileLocal"@)), ("path"@, text_tree(path))])
}

pub open spec fn text_entities_tree() -> JsonTree {
    JsonTree::Object(
        seq![
            ("@type"@, text_tree("getTextEntities"@)),
            ("text"@, text_tree("@telegram https://telegram.org"@)),
        ],
    )
}

pub open spec fn log_verbosity_tree(level: i32) -> JsonTree {
    JsonTree::Object(
        seq![
            ("@type"@, text_tree("setLogVerbosityLevel"@)),
            ("new_verbosity_level"@, int_tree(level as int)),
        ],
    )
}

pub open spec fn authorization_state_tree(extra: Seq<char>) -> JsonTree {
    JsonTree::Object(
        seq![("@type"@, text_tree("getAuthorizationState"@)), ("@extra"@, text_tree(extra))],
    )
}

pub open spec fn tdlib_parameters_tree(config: TdlibBootstrapConfig) -> JsonTree {
    JsonTree::Object(
        seq![
            ("@type"@, text_tree("setTdlibParameters"@)),
            ("use_test_dc"@, JsonTree::Bool(config.use_test_dc)),
            ("database_directory"@, text_tree(config.database_dir@)),
            ("files_directory"@, text_tree(config.files_dir@)),
            ("database_encryption_key"@, text_tree(""@)),
            ("use_file_database"@, JsonTree::Bool(true)),
            ("use_chat_info_database"@, JsonTree::Bool(true)),
            ("use_message_database"@, JsonTree::Bool(true)),
            ("use_secret_chats"@, JsonTree::Bool(true)),
            ("api_id"@, int_tree(config.api_id as int)),
            ("api_hash"@, text_tree(config.api_hash@)),
            ("system_language_code"@, text_tree("en"@)),
            ("device_model"@, text_tree(config.device_model@)),
            ("system_version"@, text_tree(config.system_version@)),
            ("application_version"@, text_tree(config.app_version@)),
        ],
    )
}

pub open spec fn download_file_tree(
    file_id: i32,
    priority: i32,
    offset: i64,
    limit: i64,
    synchronous: bool,
) -> JsonTree {
    JsonTree::Object(
        seq![
            ("@type"@, text_tree("downloadFile"@)),
            ("file_id"@, int_tree(file_id as int)),
            ("priority"@, int_tree(priority as int)),
            ("offset"@, int_tree(offset as int)),
            ("limit"@, int_tree(limit as int)),
            ("synchronous"@, JsonTree::Bool(synchronous)),
        ],
    )
}

pub open spec fn add_to_downloads_tree(file_id: i32, chat_id: i64, message_id: i64, priority: i32) -> JsonTree {
    JsonTree::Object(
        seq![
            ("@type"@, text_tree("addFileToDownloads"@)),
            ("file_id"@, int_tree(file_id as int)),
            ("chat_id"@, int_tree(chat_id as int)),
            ("message_id"@, int_tree(message_id as int)),
            ("priority"@, int_tree(priority as int)),
        ],
    )
}

pub open spec fn preliminary_upload_tree(local_path: Seq<char>, priority: i32) -> JsonTree {
    JsonTree::Object(
        seq![
            ("@type"@, text_tree("preliminaryUploadFile"@)),
            ("file"@, local_file_tree(local_path)),
            ("file_type"@, JsonTree::Null),
            ("priority"@, int_tree(priority as int)),
        ],
    )
}

pub open spec fn send_document_tree(chat_id: i64, local_path: Seq<char>) -> JsonTree {
    JsonTree::Object(
        seq![
            ("@type"@, text_tree("sendMessage"@)),
            ("chat_id"@, int_tree(chat_id as int)),
            ("message_thread_id"@, int_tree(0)),
            ("reply_to"@, JsonTree::Null),
            ("options"@, JsonTree::Null),
            ("reply_markup"@, JsonTree::Null),
            (
                "input_message_content"@,
                JsonTree::Object(
                    seq![
                        ("@type"@, text_tree("inputMessageDocument"@)),
                        ("document"@, local_file_tree(local_path)),
                        ("thumbnail"@, JsonTree::Null),
                        ("disable_content_type_detection"@, JsonTree::Bool(false)),
                        (
                            "caption"@,
                            JsonTree::Object(
                                seq![
                                    ("@type"@, text_tree("formattedText"@)),
                                    ("text"@, text_tree(""@)),
                                    ("entities"@, JsonTree::Array(Seq::empty())),
                                ],
                            ),
                        ),
                    ],
                ),
            ),
        ],
    )
}

/// What TDLib reads from this request: the verbosity level is found under `new_verbosity_level`.
pub open spec fn carries_log_verbosity(request: JsonTree, level: i32) -> bool {
    &&& request.field("@type"@) == Some(JsonTree::Text("setLogVerbosityLevel"@))
    &&& request.field("new_verbosity_level"@) == Some(JsonTree::Int(level as int))
}

/// The request built for these arguments carries each of them under its own
/// name: the verbosity level is found under `new_verbosity_level`.
pub proof fn lemma_log_verbosity_carries_arguments(level: i32)
    ensures
        carries_log_verbosity(log_verbosity_tree(level), level),
{
    let fields = log_verbosity_tree(level)->Object_0;
    reveal_strlit("@type");
    reveal_strlit("new_verbosity_level");
    let names = seq![
        "@type"@,
        "new_verbosity_level"@,
    ];
    assert forall|i: int| 0 <= i < 2 implies #[trigger] fields[i].0 == names[i] by {}
    assert forall|i: int, j: int| 0 <= j < i < 2 implies #[trigger] names[j] != #[trigger] names[i] by {
        if names[j].len() == names[i].len() {
            assert(names[j][0] != names[i][0] || names[j][1] != names[i][1] || names[j][2]
                != names[i][2] || names[j][4] != names[i][4]);
        }
    }
    lemma_first_field_at(fields, "@type"@, 0);
    lemma_first_field_at(fields, "new_verbosity_level"@, 1);
}

/// What TDLib reads from this request: the caller's tag is found under `@extra`.
pub open spec fn carries_authorization_state(request: JsonTree, extra: Seq<char>) -> bool {
    &&& request.field("@type"@) == Some(JsonTree::Text("getAuthorizationState"@))
    &&& request.field("@extra"@) == Some(JsonTree::Text(extra))
}

/// The request built for these arguments carries each of them under its own
/// name: the caller's tag is found under `@extra`.
pub proof fn lemma_authorization_state_carries_arguments(extra: Seq<char>)
    ensures
        carries_authorization_state(authorization_state_tree(extra), extra),
{
    let fields = authorization_state_tree(extra)->Object_0;
    reveal_strlit("@type");
    reveal_strlit("@extra");
    let names = seq![
        "@type"@,
        "@extra"@,
    ];
    assert forall|i: int| 0 <= i < 2 implies #[trigger] fields[i].0 == names[i] by {}
    assert forall|i: int, j: int| 0 <= j < i < 2 implies #[trigger] names[j] != #[trigger] names[i] by {
        if names[j].len() == names[i].len() {
            assert(names[j][0] != names[i][0] || names[j][1] != names[i][1] || names[j][2]
                != names[i][2] || names[j][4] != names[i][4]);
        }
    }
    lemma_first_field_at(fields, "@type"@, 0);
    lemma_first_field_at(fields, "@extra"@, 1);
}

/// What TDLib reads from this request: the file, priority, offset, limit and the synchronous switch are each found under their own name.
pub open spec fn carries_download_file(request: JsonTree, file_id: i32, priority: i32, offset: i64, limit: i64, synchronous: bool) -> bool {
    &&& request.field("@type"@) == Some(JsonTree::Text("downloadFile"@))
    &&& request.field("file_id"@) == Some(JsonTree::Int(file_id as int))
    &&& request.field("priority"@) == Some(JsonTree::Int(priority as int))
    &&& request.field("offset"@) == Some(JsonTree::Int(offset as int))
    &&& request.field("limit"@) == Some(JsonTree::Int(limit as int))
    &&& request.field("synchronous"@) == Some(JsonTree::Bool(synchronous))
}

/// The request built for these arguments carries each of them under its own
/// name: the file, priority, offset, limit and the synchronous switch are each found under their own name.
pub proof fn lemma_download_file_carries_arguments(file_id: i32, priority: i32, offset: i64, limit: i64, synchronous: bool)
    ensures
        carries_download_file(download_file_tree(file_id, priority, offset, limit, synchronous), file_id, priority, offset, limit, synchronous),
{
    let fields = download_file_tree(file_id, priority, offset, limit, synchronous)->Object_0;
    reveal_strlit("@type");
    reveal_strlit("file_id");
    reveal_strlit("priority");
    reveal_strlit("offset");
    reveal_strlit("limit");
    reveal_strlit("synchronous");
    let names = seq![
        "@type"@,
        "file_id"@,
        "priority"@,
        "offset"@,
        "limit"@,
        "synchronous"@,
    ];
    assert forall|i: int| 0 <= i < 6 implies #[trigger] fields[i].0 == names[i] by {}
    assert forall|i: int, j: int| 0 <= j < i < 6 implies #[trigger] names[j] != #[trigger] names[i] by {
        if names[j].len() == names[i].len() {
            assert(names[j][0] != names[i][0] || names[j][1] != names[i][1] || names[j][2]
                != names[i][2] || names[j][4] != names[i][4]);
        }
    }
    lemma_first_field_at(fields, "@type"@, 0);
    lemma_first_field_at(fields, "file_id"@, 1);
    lemma_first_field_at(fields, "priority"@, 2);
    lemma_first_field_at(fields, "offset"@, 3);
    lemma_first_field_at(fields, "limit"@, 4);
    lemma_first_field_at(fields, "synchronous"@, 5);
}

/// What TDLib reads from this request: the file, chat, message and priority are each found under their own name.
pub open spec fn carries_add_to_downloads(request: JsonTree, file_id: i32, chat_id: i64, message_id: i64, priority: i32) -> bool {
    &&& request.field("@type"@) == Some(JsonTree::Text("addFileToDownloads"@))
    &&& request.field("file_id"@) == Some(JsonTree::Int(file_id as int))
    &&& request.field("chat_id"@) == Some(JsonTree::Int(chat_id as int))
    &&& request.field("message_id"@) == Some(JsonTree::Int(message_id as int))
    &&& request.field("priority"@) == Some(JsonTree::Int(priority as int))
}

/// The request built for these arguments carries each of them under its own
/// name: the file, chat, message and priority are each found under their own name.
pub proof fn lemma_add_to_downloads_carries_arguments(file_id: i32, chat_id: i64, message_id: i64, priority: i32)
    ensures
        carries_add_to_downloads(add_to_downloads_tree(file_id, chat_id, message_id, priority), file_id, chat_id, message_id, priority),
{
    let fields = add_to_downloads_tree(file_id, chat_id, message_id, priority)->Object_0;
    reveal_strlit("@type");
    reveal_strlit("file_id");
    reveal_strlit("chat_id");
    reveal_strlit("message_id");
    reveal_strlit("priority");
    let names = seq![
        "@type"@,
        "file_id"@,
        "chat_id"@,
        "message_id"@,
        "priority"@,
    ];
    assert forall|i: int| 0 <= i < 5 implies #[trigger] fields[i].0 == names[i] by {}
    assert forall|i: int, j: int| 0 <= j < i < 5 implies #[trigger] names[j] != #[trigger] names[i] by {
        if names[j].len() == names[i].len() {
            assert(names[j][0] != names[i][0] || names[j][1] != names[i][1] || names[j][2]
                != names[i][2] || names[j][4] != names[i][4]);
        }
    }
    lemma_first_field_at(fields, "@type"@, 0);
    lemma_first_field_at(fields, "file_id"@, 1);
    lemma_first_field_at(fields, "chat_id"@, 2);
    lemma_first_field_at(fields, "message_id"@, 3);
    lemma_first_field_at(fields, "priority"@, 4);
}

/// What TDLib reads from this request: the local file is found under `file` and the priority under `priority`.
pub open spec fn carries_preliminary_upload(request: JsonTree, local_path: Seq<char>, priority: i32) -> bool {
    &&& request.field("@type"@) == Some(JsonTree::Text("preliminaryUploadFile"@))
    &&& request.field("file"@) == Some(local_file_tree(local_path))
    &&& request.field("priority"@) == Some(JsonTree::Int(priority as int))
}

/// The request built for these arguments carries each of them under its own
/// name: the local file is found under `file` and the priority under `priority`.
pub proof fn lemma_preliminary_upload_carries_arguments(local_path: Seq<char>, priority: i32)
    ensures
        carries_preliminary_upload(preliminary_upload_tree(local_path, priority), local_path, priority),
{
    let fields = preliminary_upload_tree(local_path, priority)->Object_0;
    reveal_strlit("@type");
    reveal_strlit("file");
    reveal_strlit("file_type");
    reveal_strlit("priority");
    let names = seq![
        "@type"@,
        "file"@,
        "file_type"@,
        "priority"@,
    ];
    assert forall|i: int| 0 <= i < 4 implies #[trigger] fields[i].0 == names[i] by {}
    assert forall|i: int, j: int| 0 <= j < i < 4 implies #[trigger] names[j] != #[trigger] names[i] by {
        if names[j].len() == names[i].len() {
            assert(names[j][0] != names[i][0] || names[j][1] != names[i][1] || names[j][2]
                != names[i][2] || names[j][4] != names[i][4]);
        }
    }
    lemma_first_field_at(fields, "@type"@, 0);
    lemma_first_field_at(fields, "file"@, 1);
    lemma_first_field_at(fields, "priority"@, 3);
}

/// What TDLib reads from a `sendMessage` request for a document: the chat
/// under `chat_id`, and inside the message content the document as the local
/// file at `local_path`.
pub open spec fn carries_send_document(request: JsonTree, chat_id: i64, local_path: Seq<char>) -> bool {
    &&& request.field("@type"@) == Some(JsonTree::Text("sendMessage"@))
    &&& request.field("chat_id"@) == Some(JsonTree::Int(chat_id as int))
    &&& request.field("input_message_content"@) matches Some(content) && content.field("document"@)
        == Some(local_file_tree(local_path))
    &&& local_file_tree(local_path).field("path"@) == Some(JsonTree::Text(local_path))
}

/// The document message names the chat it goes to under `chat_id` and the
/// file it sends, by its local path, inside the message content.
pub proof fn lemma_send_document_carries_arguments(chat_id: i64, local_path: Seq<char>)
    ensures
        carries_send_document(send_document_tree(chat_id, local_path), chat_id, local_path),
{
    let fields = send_document_tree(chat_id, local_path)->Object_0;
    reveal_strlit("@type");
    reveal_strlit("chat_id");
    reveal_strlit("message_thread_id");
    reveal_strlit("reply_to");
    reveal_strlit("options");
    reveal_strlit("reply_markup");
    reveal_strlit("input_message_content");
    reveal_strlit("document");
    reveal_strlit("path");
    assert(fields[0].0 == "@type"@);
    assert(fields[1].0 == "chat_id"@);
    assert(fields[2].0 == "message_thread_id"@);
    assert(fields[3].0 == "reply_to"@);
    assert(fields[4].0 == "options"@);
    assert(fields[5].0 == "reply_markup"@);
    assert(fields[6].0 == "input_message_content"@);
    lemma_first_field_at(fields, "@type"@, 0);
    assert("@type"@ != "chat_id"@);
    lemma_first_field_at(fields, "chat_id"@, 1);
    lemma_first_field_at(fields, "input_message_content"@, 6);
    let content = fields[6].1->Object_0;
    assert(content[0].0 == "@type"@);
    assert(content[1].0 == "document"@);
    assert("@type"@ != "document"@);
    lemma_first_field_at(content, "document"@, 1);
    let file = local_file_tree(local_path)->Object_0;
    assert(file[0].0 == "@type"@ && file[1].0 == "path"@);
    assert("@type"@ != "path"@);
    lemma_first_field_at(file, "path"@, 1);
}

fn int_value(n: i64) -> (value: TdJson)
    ensures
        value.tree() == int_tree(n as int),
{
    TdJson::Int(n)
}

fn local_file(path: &str) -> (value: TdJson)
    ensures
        value.tree() == local_file_tree(path@),
{
    let mut fields: Vec<(String, TdJson)> = Vec::new();
    fields.push(entry("@type", text("inputFileLocal")));
    fields.push(entry("path", text(path)));
    let ghost entries = fields@;
    let value = object(fields);
    assert(entries_tree(entries) =~= local_file_tree(path@)->Object_0);
    value
}

pub fn sample_text_entities() -> (request: TdJson)
    ensures
        request.tree() == text_entities_tree(),
{
    let mut fields: Vec<(String, TdJson)> = Vec::new();
    fields.push(entry("@type", text("getTextEntities")));
    fields.push(entry("text", text("@telegram https://telegram.org")));
    let ghost entries = fields@;
    let request = object(fields);
    assert(entries_tree(entries) =~= text_entities_tree()->Object_0);
    request
}

pub fn set_log_verbosity_level(level: i32) -> (request: TdJson)
    ensures
        request.tree() == log_verbosity_tree(level),
        carries_log_verbosity(request.tree(), level),
{
    proof {
        lemma_log_verbosity_carries_arguments(level);
    }
    let mut fields: Vec<(String, TdJson)> = Vec::new();
    fields.push(entry("@type", text("setLogVerbosityLevel")));
    fields.push(entry("new_verbosity_level", int_value(level as i64)));
    let ghost entries = fields@;
    let request = object(fields);
    assert(entries_tree(entries) =~= log_verbosity_tree(level)->Object_0);
    request
}

pub fn get_authorization_state(extra: &str) -> (request: TdJson)
    ensures
        request.tree() == authorization_state_tree(extra@),
        carries_authorization_state(request.tree(), extra@),
{
    proof {
        lemma_authorization_state_carries_arguments(extra@);
    }
    let mut fields: Vec<(String, TdJson)> = Vec::new();
    fields.push(entry("@type", text("getAuthorizationState")));
    fields.push(entry("@extra", text(extra)));
    let ghost entries = fields@;
    let request = object(fields);
    assert(entries_tree(entries) =~= authorization_state_tree(extra@)->Object_0);
    request
}

/// What TDLib reads from a `setTdlibParameters` request built for `config`:
/// the request type, and each setting under its own name holding the config's
/// value (the database directory under `database_directory`, the files
/// directory under `files_directory`, and so on).
pub open spec fn carries_tdlib_parameters(request: JsonTree, config: TdlibBootstrapConfig) -> bool {
    &&& request.field("@type"@) == Some(JsonTree::Text("setTdlibParameters"@))
    &&& request.field("use_test_dc"@) == Some(JsonTree::Bool(config.use_test_dc))
    &&& request.field("database_directory"@) == Some(JsonTree::Text(config.database_dir@))
    &&& request.field("files_directory"@) == Some(JsonTree::Text(config.files_dir@))
    &&& request.field("api_id"@) == Some(JsonTree::Int(config.api_id as int))
    &&& request.field("api_hash"@) == Some(JsonTree::Text(config.api_hash@))
    &&& request.field("device_model"@) == Some(JsonTree::Text(config.device_model@))
    &&& request.field("system_version"@) == Some(JsonTree::Text(config.system_version@))
    &&& request.field("application_version"@) == Some(JsonTree::Text(config.app_version@))
}

/// The `setTdlibParameters` request puts each setting of the config under its
/// own name: the database directory is found under `database_directory`, the
/// files directory under `files_directory`, the API credentials, device,
/// system and application versions under theirs.
pub proof fn lemma_tdlib_parameters_carry_config(config: TdlibBootstrapConfig)
    ensures
        carries_tdlib_parameters(tdlib_parameters_tree(config), config),
{
    let fields = tdlib_parameters_tree(config)->Object_0;
    reveal_strlit("@type");
    reveal_strlit("use_test_dc");
    reveal_strlit("database_directory");
    reveal_strlit("files_directory");
    reveal_strlit("database_encryption_key");
    reveal_strlit("use_file_database");
    reveal_strlit("use_chat_info_database");
    reveal_strlit("use_message_database");
    reveal_strlit("use_secret_chats");
    reveal_strlit("api_id");
    reveal_strlit("api_hash");
    reveal_strlit("system_language_code");
    reveal_strlit("device_model");
    reveal_strlit("system_version");
    reveal_strlit("application_version");
    let names = seq![
        "@type"@,
        "use_test_dc"@,
        "database_directory"@,
        "files_directory"@,
        "database_encryption_key"@,
        "use_file_database"@,
        "use_chat_info_database"@,
        "use_message_database"@,
        "use_secret_chats"@,
        "api_id"@,
        "api_hash"@,
        "system_language_code"@,
        "device_model"@,
        "system_version"@,
        "application_version"@,
    ];
    assert forall|i: int| 0 <= i < 15 implies #[trigger] fields[i].0 == names[i] by {}
    assert forall|i: int, j: int| 0 <= j < i < 15 implies #[trigger] names[j] != #[trigger] names[i] by {
        if names[j].len() == names[i].len() {
            assert(names[j][0] != names[i][0] || names[j][1] != names[i][1] || names[j][4]
                != names[i][4]);
        }
    }
    lemma_first_field_at(fields, "@type"@, 0);
    lemma_first_field_at(fields, "use_test_dc"@, 1);
    lemma_first_field_at(fields, "database_directory"@, 2);
    lemma_first_field_at(fields, "files_directory"@, 3);
    lemma_first_field_at(fields, "api_id"@, 9);
    lemma_first_field_at(fields, "api_hash"@, 10);
    lemma_first_field_at(fields, "device_model"@, 12);
    lemma_first_field_at(fields, "system_version"@, 13);
    lemma_first_field_at(fields, "application_version"@, 14);
}

pub fn set_tdlib_parameters(config: &TdlibBootstrapConfig) -> (request: TdJson)
    ensures
        request.tree() == tdlib_parameters_tree(*config),
        carries_tdlib_parameters(request.tree(), *config),
{
    proof {
        lemma_tdlib_parameters_carry_config(*config);
    }
    let mut fields: Vec<(String, TdJson)> = Vec::new();
    fields.push(entry("@type", text("setTdlibParameters")));
    fields.push(entry("use_test_dc", TdJson::Bool(config.use_test_dc)));
    fields.push(entry("database_directory", text(config.database_dir.as_str())));
    fields.push(entry("files_directory", text(config.files_dir.as_str())));
    fields.push(entry("database_encryption_key", text("")));
    fields.push(entry("use_file_database", TdJson::Bool(true)));
    fields.push(entry("use_chat_info_database", TdJson::Bool(true)));
    fields.push(entry("use_message_database", TdJson::Bool(true)));
    fields.push(entry("use_secret_chats", TdJson::Bool(true)));
    fields.push(entry("api_id", int_value(config.api_id as i64)));
    fields.push(entry("api_hash", text(config.api_hash.as_str())));
    fields.push(entry("system_language_code", text("en")));
    fields.push(entry("device_model", text(config.device_model.as_str())));
    fields.push(entry("system_version", text(config.system_version.as_str())));
    fields.push(entry("application_version", text(config.app_version.as_str())));
    let ghost entries = fields@;
    let request = object(fields);
    assert(entries_tree(entries) =~= tdlib_parameters_tree(*config)->Object_0);
    request
}

pub fn download_file(file_id: i32, priority: i32, offset: i64, limit: i64, synchronous: bool) -> (request: TdJson)
    ensures
        request.tree() == download_file_tree(file_id, priority, offset, limit, synchronous),
        carries_download_file(request.tree(), file_id, priority, offset, limit, synchronous),
{
    proof {
        lemma_download_file_carries_arguments(file_id, priority, offset, limit, synchronous);
    }
    let mut fields: Vec<(String, TdJson)> = Vec::new();
    fields.push(entry("@type", text("downloadFile")));
    fields.push(entry("file_id", int_value(file_id as i64)));
    fields.push(entry("priority", int_value(priority as i64)));
    fields.push(entry("offset", int_value(offset)));
    fields.push(entry("limit", int_value(limit)));
    fields.push(entry("synchronous", TdJson::Bool(synchronous)));
    let ghost entries = fields@;
    let request = object(fields);
    assert(entries_tree(entries) =~= download_file_tree(
        file_id,
        priority,
        offset,
        limit,
        synchronous,
    )->Object_0);
    request
}

pub fn add_file_to_downloads(file_id: i32, chat_id: i64, message_id: i64, priority: i32) -> (request: TdJson)
    ensures
        request.tree() == add_to_downloads_tree(file_id, chat_id, message_id, priority),
        carries_add_to_downloads(request.tree(), file_id, chat_id, message_id, priority),
{
    proof {
        lemma_add_to_downloads_carries_arguments(file_id, chat_id, message_id, priority);
    }
    let mut fields: Vec<(String, TdJson)> = Vec::new();
    fields.push(entry("@type", text("addFileToDownloads")));
    fields.push(entry("file_id", int_value(file_id as i64)));
    fields.push(entry("chat_id", int_value(chat_id)));
    fields.push(entry("message_id", int_value(message_id)));
    fields.push(entry("priority", int_value(priority as i64)));
    let ghost entries = fields@;
    let request = object(fields);
    assert(entries_tree(entries) =~= add_to_downloads_tree(
        file_id,
        chat_id,
        message_id,
        priority,
    )->Object_0);
    request
}

pub fn preliminary_upload_file(local_path: &str, priority: i32) -> (request: TdJson)
    ensures
        request.tree() == preliminary_upload_tree(local_path@, priority),
        carries_preliminary_upload(request.tree(), local_path@, priority),
{
    proof {
        lemma_preliminary_upload_carries_arguments(local_path@, priority);
    }
    let mut fields: Vec<(String, TdJson)> = Vec::new();
    fields.push(entry("@type", text("preliminaryUploadFile")));
    fields.push(entry("file", local_file(local_path)));
    fields.push(entry("file_type", TdJson::Null));
    fields.push(entry("priority", int_value(priority as i64)));
    let ghost entries = fields@;
    let request = object(fields);
    assert(entries_tree(entries) =~= preliminary_upload_tree(local_path@, priority)->Object_0);
    request
}

pub fn send_document_message(chat_id: i64, local_path: &str) -> (request: TdJson)
    ensures
        request.tree() == send_document_tree(chat_id, local_path@),
        carries_send_document(request.tree(), chat_id, local_path@),
{
    proof {
        lemma_send_document_carries_arguments(chat_id, local_path@);
    }
    let no_entities = TdJson::Array(Vec::new());
    assert(no_entities.tree() is Array);
    assert(no_entities.tree()->Array_0 =~= Seq::<JsonTree>::empty());
    let mut caption_fields: Vec<(String, TdJson)> = Vec::new();
    caption_fields.push(entry("@type", text("formattedText")));
    caption_fields.push(entry("text", text("")));
    caption_fields.push(entry("entities", no_entities));
    let ghost caption_entries = caption_fields@;
    let caption = object(caption_fields);
    let ghost content_tree = send_document_tree(chat_id, local_path@)->Object_0[6].1;
    assert(entries_tree(caption_entries) =~= content_tree->Object_0[4].1->Object_0);
    let mut content_fields: Vec<(String, TdJson)> = Vec::new();
    content_fields.push(entry("@type", text("inputMessageDocument")));
    content_fields.push(entry("document", local_file(local_path)));
    content_fields.push(entry("thumbnail", TdJson::Null));
    content_fields.push(entry("disable_content_type_detection", TdJson::Bool(false)));
    content_fields.push(entry("caption", caption));
    let ghost content_entries = content_fields@;
    let content = object(content_fields);
    assert(entries_tree(content_entries) =~= content_tree->Object_0);
    let mut fields: Vec<(String, TdJson)> = Vec::new();
    fields.push(entry("@type", text("sendMessage")));
    fields.push(entry("chat_id", int_value(chat_id)));
    fields.push(entry("message_thread_id", int_value(0)));
    fields.push(entry("reply_to", TdJson::Null));
    fields.push(entry("options", TdJson::Null));
    fields.push(entry("reply_markup", TdJson::Null));
    fields.push(entry("input_message_content", content));
    let ghost entries = fields@;
    let request = object(fields);
    assert(entries_tree(entries) =~= send_document_tree(chat_id, local_path@)->Object_0);
    request
}

} // verus!
