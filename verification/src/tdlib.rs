//! TDLib bootstrap configuration: where `tdjson` is looked for, how the
//! configuration is summarised, and the errors of loading it.

use vstd::prelude::*;

use crate::json::TdJson;
use crate::tdlib_requests::{
    add_file_to_downloads, add_to_downloads_tree, authorization_state_tree, carries_add_to_downloads,
    carries_download_file, carries_log_verbosity, carries_preliminary_upload, carries_send_document,
    carries_tdlib_parameters,
    download_file, download_file_tree, get_authorization_state, log_verbosity_tree, preliminary_upload_file,
    preliminary_upload_tree, send_document_message, send_document_tree, set_log_verbosity_level,
    set_tdlib_parameters, tdlib_parameters_tree,
};

verus! {

#[derive(Debug, Clone, Copy, PartialEq, Eq, Structural)]
pub enum TransferMode {
    TdlibManaged,
    RawMtProtoAccelerated,
}

/// The operating system family that decides the name of the `tdjson`
/// library.
#[derive(Debug, Clone, Copy, PartialEq, Eq, Structural)]
pub enum TargetOs {
    Windows,
    MacOs,
    Other,
}

/// How accelerated transfers sit next to TDLib sessions.
#[derive(Debug)]
pub struct TransferIntegration {
    pub mode: TransferMode,
    pub enable_accelerated_uploads: bool,
    pub enable_accelerated_downloads: bool,
    pub notes: Vec<String>,
}

/// The views of a list of strings.
pub open spec fn texts(strings: Seq<String>) -> Seq<Seq<char>> {
    strings.map_values(|s: String| s@)
}

/// The notes of the default integration.
pub open spec fn integration_notes() -> Seq<Seq<char>> {
    seq![
        "Keep the Rust rewrite independent from official client code."@,
        "Treat accelerated transfer as a dedicated subsystem that can coexist with TDLib sessions."@,
    ]
}

impl Default for TransferIntegration {
    fn default() -> (integration: Self)
        ensures
            integration.mode == TransferMode::RawMtProtoAccelerated,
            integration.enable_accelerated_uploads,
            integration.enable_accelerated_downloads,
            texts(integration.notes@) == integration_notes(),
    {
        let mut notes: Vec<String> = Vec::new();
        notes.push("Keep the Rust rewrite independent from official client code.".to_owned());
        notes.push(
            "Treat accelerated transfer as a dedicated subsystem that can coexist with TDLib sessions.".to_owned(),
        );
        assert(texts(notes@) =~= integration_notes());
        TransferIntegration {
            mode: TransferMode::RawMtProtoAccelerated,
            enable_accelerated_uploads: true,
            enable_accelerated_downloads: true,
            notes,
        }
    }
}

/// What TDLib is started with. Paths are held as text.
#[derive(Debug)]
pub struct TdlibBootstrapConfig {
    pub api_id: i32,
    pub api_hash: String,
    pub database_dir: String,
    pub files_dir: String,
    pub device_model: String,
    pub system_version: String,
    pub app_version: String,
    pub use_test_dc: bool,
    pub custom_tdjson_path: Option<String>,
}

#[derive(Debug, Clone)]
pub enum TdlibRuntimeError {
    NotFound,
    Load { path: String, message: String },
    MissingSymbol { symbol: String },
    InvalidCString,
    InvalidUtf8,
    InvalidJson(String),
}

/// The file names under which `tdjson` is looked for on `os`.
pub open spec fn tdjson_names(os: TargetOs) -> Seq<Seq<char>> {
    match os {
        TargetOs::Windows => seq!["tdjson.dll"@, "bin/tdjson.dll"@, "vendor/tdlib/tdjson.dll"@],
        TargetOs::MacOs => seq![
            "libtdjson.dylib"@,
            "bin/libtdjson.dylib"@,
            "vendor/tdlib/libtdjson.dylib"@,
        ],
        TargetOs::Other => seq![
            "libtdjson.so"@,
            "bin/libtdjson.so"@,
            "vendor/tdlib/libtdjson.so"@,
        ],
    }
}

/// The file names under which `tdjson` is looked for on `os`.
pub fn default_tdjson_names(os: TargetOs) -> (names: Vec<String>)
    ensures
        texts(names@) == tdjson_names(os),
{
    let mut names: Vec<String> = Vec::new();
    match os {
        TargetOs::Windows => {
            names.push("tdjson.dll".to_owned());
            names.push("bin/tdjson.dll".to_owned());
            names.push("vendor/tdlib/tdjson.dll".to_owned());
        },
        TargetOs::MacOs => {
            names.push("libtdjson.dylib".to_owned());
            names.push("bin/libtdjson.dylib".to_owned());
            names.push("vendor/tdlib/libtdjson.dylib".to_owned());
        },
        TargetOs::Other => {
            names.push("libtdjson.so".to_owned());
            names.push("bin/libtdjson.so".to_owned());
            names.push("vendor/tdlib/libtdjson.so".to_owned());
        },
    }
    assert(texts(names@) =~= tdjson_names(os));
    names
}

/// The word that a summary uses for the data centre kind.
pub open spec fn dc_mode(use_test_dc: bool) -> Seq<char> {
    if use_test_dc {
        "test"@
    } else {
        "production"@
    }
}

impl TdlibBootstrapConfig {
    /// The default configuration on a system called `system_version`.
    pub fn for_system(system_version: &str) -> (config: Self)
        ensures
            config.api_id == 0,
            config.api_hash@ == Seq::<char>::empty(),
            config.database_dir@ == "var/tdlib/db"@,
            config.files_dir@ == "var/tdlib/files"@,
            config.device_model@ == "Unofficial TG RS"@,
            config.system_version@ == system_version@,
            config.app_version@ == "0.1.0"@,
            !config.use_test_dc,
            config.custom_tdjson_path is None,
    {
        TdlibBootstrapConfig {
            api_id: 0,
            api_hash: String::new(),
            database_dir: "var/tdlib/db".to_owned(),
            files_dir: "var/tdlib/files".to_owned(),
            device_model: "Unofficial TG RS".to_owned(),
            system_version: system_version.to_owned(),
            app_version: "0.1.0".to_owned(),
            use_test_dc: false,
            custom_tdjson_path: None,
        }
    }

    /// The configured path views, custom path first.
    pub open spec fn candidate_texts(self, os: TargetOs) -> Seq<Seq<char>> {
        match self.custom_tdjson_path {
            Some(path) => seq![path@] + tdjson_names(os),
            None => tdjson_names(os),
        }
    }

    /// The paths to try for `tdjson`: the custom path first, if any, then the
    /// default names of `os`.
    pub fn library_candidates(&self, os: TargetOs) -> (candidates: Vec<String>)
        ensures
            texts(candidates@) == self.candidate_texts(os),
    {
        let mut candidates: Vec<String> = Vec::new();
        match &self.custom_tdjson_path {
            Some(path) => candidates.push(path.clone()),
            None => {},
        }
        let names = default_tdjson_names(os);
        let ghost start = candidates@;
        proof {
            match &self.custom_tdjson_path {
                Some(path) => assert(start.len() == 1 && start[0]@ == path@),
                None => assert(start.len() == 0),
            }
            assert(forall|k: int| 0 <= k < names@.len() ==> #[trigger] texts(names@)[k] == names@[k]@);
        }
        let mut i: usize = 0;
        while i < names.len()
            invariant
                i <= names@.len(),
                candidates@.len() == start.len() + i,
                forall|k: int| 0 <= k < start.len() ==> #[trigger] candidates@[k] == start[k],
                forall|k: int| 0 <= k < i ==> #[trigger] candidates@[start.len() + k]@ == names@[k]@,
            decreases names@.len() - i,
        {
            candidates.push(names[i].clone());
            i = i + 1;
        }
        assert forall|k: int| 0 <= k < candidates@.len() implies #[trigger] texts(candidates@)[k]
            == self.candidate_texts(os)[k] by {
            if k >= start.len() {
                let j = k - start.len();
                assert(candidates@[start.len() + j]@ == names@[j]@);
                assert(tdjson_names(os)[j] == names@[j]@);
            } else {
                assert(candidates@[k] == start[k]);
            }
        }
        assert(texts(candidates@) =~= self.candidate_texts(os));
        candidates
    }

    /// The summary text of this configuration.
    pub open spec fn summary_text(self) -> Seq<char> {
        "tdlib db="@ + self.database_dir@ + " files="@ + self.files_dir@ + " mode="@ + dc_mode(
            self.use_test_dc,
        )
    }

    pub fn summary(&self) -> (text: String)
        ensures
            text@ == self.summary_text(),
    {
        let mut text = "tdlib db=".to_owned();
        text.append(self.database_dir.as_str());
        text.append(" files=");
        text.append(self.files_dir.as_str());
        text.append(" mode=");
        if self.use_test_dc {
            text.append("test");
        } else {
            text.append("production");
        }
        text
    }
}

/// The longest single wait of a batch receive, in microseconds.
pub const RECEIVE_SLICE_MICROS: u64 = 200_000;

/// How long the next receive of a batch waits, given the time left before
/// the deadline and the messages received so far: at most one slice, and no
/// receive at all once the deadline passed or enough messages came.
pub fn next_receive_wait(remaining_micros: u64, received: usize, max_messages: usize) -> (wait: Option<u64>)
    ensures
        (remaining_micros == 0 || received >= max_messages) ==> wait is None,
        (remaining_micros > 0 && received < max_messages) ==> wait == Some(
            if remaining_micros < RECEIVE_SLICE_MICROS {
                remaining_micros
            } else {
                RECEIVE_SLICE_MICROS
            },
        ),
{
    if remaining_micros == 0 || received >= max_messages {
        None
    } else if remaining_micros < RECEIVE_SLICE_MICROS {
        Some(remaining_micros)
    } else {
        Some(RECEIVE_SLICE_MICROS)
    }
}

/// The first of `candidates` that `present` marks as an existing file.
pub open spec fn first_present(candidates: Seq<Seq<char>>, present: Seq<bool>) -> Option<Seq<char>>
    decreases candidates.len(),
{
    if candidates.len() == 0 || present.len() == 0 {
        None
    } else if present[0] {
        Some(candidates[0])
    } else {
        first_present(candidates.drop_first(), present.drop_first())
    }
}

/// The first candidate path of `config` that is a file; `present[i]` tells
/// whether candidate `i` is one.
pub fn discover_tdjson(config: &TdlibBootstrapConfig, os: TargetOs, present: &[bool]) -> (found: Result<
    String,
    TdlibRuntimeError,
>)
    requires
        present@.len() == config.candidate_texts(os).len(),
    ensures
        match first_present(config.candidate_texts(os), present@) {
            Some(path) => found matches Ok(p) && p@ == path,
            None => found matches Err(TdlibRuntimeError::NotFound),
        },
{
    let candidates = config.library_candidates(os);
    let ghost all = texts(candidates@);
    assert(all.subrange(0, all.len() as int) =~= all);
    assert(present@.subrange(0, present@.len() as int) =~= present@);
    let mut i: usize = 0;
    while i < candidates.len()
        invariant
            all == texts(candidates@),
            all == config.candidate_texts(os),
            present@.len() == candidates@.len(),
            i <= candidates@.len(),
            first_present(all, present@) == first_present(
                all.subrange(i as int, all.len() as int),
                present@.subrange(i as int, present@.len() as int),
            ),
        decreases candidates@.len() - i,
    {
        let ghost rest = all.subrange(i as int, all.len() as int);
        let ghost flags = present@.subrange(i as int, present@.len() as int);
        assert(rest.drop_first() =~= all.subrange(i + 1, all.len() as int));
        assert(flags.drop_first() =~= present@.subrange(i + 1, present@.len() as int));
        if present[i] {
            assert(rest[0] == candidates@[i as int]@);
            assert(flags[0] == present@[i as int]);
            assert(first_present(rest, flags) == Some(rest[0]));
            return Ok(candidates[i].clone());
        }
        i = i + 1;
    }
    Err(TdlibRuntimeError::NotFound)
}

/// Calls `std::str::from_utf8`, which accepts exactly the well-formed UTF-8
/// byte strings and then yields the text they encode.
#[verifier::external_body]
fn utf8_text(bytes: &[u8]) -> (text: Option<String>)
    ensures
        text is Some <==> vstd::utf8::valid_utf8(bytes@),
        text matches Some(t) ==> t@ == vstd::utf8::decode_utf8(bytes@),
{
    std::str::from_utf8(bytes).ok().map(|s| s.to_owned())
}

/// The name of a NUL-terminated symbol: its bytes without the last one, read
/// as UTF-8, or `unknown` where they are not UTF-8.
pub open spec fn symbol_text(symbol: Seq<u8>) -> Seq<char> {
    let name = symbol.subrange(0, if symbol.len() > 0 { symbol.len() - 1 } else { 0 });
    if vstd::utf8::valid_utf8(name) {
        vstd::utf8::decode_utf8(name)
    } else {
        "unknown"@
    }
}

pub fn symbol_name(symbol: &[u8]) -> (name: String)
    ensures
        name@ == symbol_text(symbol@),
{
    let len = symbol.len();
    let end = if len > 0 {
        len - 1
    } else {
        0
    };
    let trimmed = vstd::slice::slice_subrange(symbol, 0, end);
    match utf8_text(trimmed) {
        Some(text) => text,
        None => "unknown".to_owned(),
    }
}

/// The requests that start a TDLib session.
#[derive(Debug)]
pub struct TdlibBootstrapPreview {
    pub requests: Vec<TdJson>,
}

/// The requests of one download and one document upload through TDLib.
#[derive(Debug)]
pub struct TdlibTransferPreview {
    pub download_file: TdJson,
    pub add_to_downloads: TdJson,
    pub preliminary_upload_file: TdJson,
    pub send_document_message: TdJson,
}

/// The bootstrap requests for `config`: log level 1, the TDLib parameters,
/// then an authorization state query.
pub fn bootstrap_preview(config: &TdlibBootstrapConfig) -> (preview: TdlibBootstrapPreview)
    ensures
        preview.requests@.len() == 3,
        preview.requests@[0].tree() == log_verbosity_tree(1),
        carries_log_verbosity(preview.requests@[0].tree(), 1),
        preview.requests@[1].tree() == tdlib_parameters_tree(*config),
        carries_tdlib_parameters(preview.requests@[1].tree(), *config),
        preview.requests@[2].tree() == authorization_state_tree("bootstrap-state"@),
{
    let mut requests: Vec<TdJson> = Vec::new();
    requests.push(set_log_verbosity_level(1));
    requests.push(set_tdlib_parameters(config));
    requests.push(get_authorization_state("bootstrap-state"));
    TdlibBootstrapPreview { requests }
}

/// The transfer requests for file `file_id` and the local file `local_path`
/// in chat `chat_id`, at priority 16.
pub fn transfer_preview(local_path: &str, chat_id: i64, file_id: i32) -> (preview: TdlibTransferPreview)
    ensures
        preview.download_file.tree() == download_file_tree(file_id, 16, 0, 0, false),
        preview.add_to_downloads.tree() == add_to_downloads_tree(file_id, chat_id, 0, 16),
        preview.preliminary_upload_file.tree() == preliminary_upload_tree(local_path@, 16),
        preview.send_document_message.tree() == send_document_tree(chat_id, local_path@),
        carries_download_file(preview.download_file.tree(), file_id, 16, 0, 0, false),
        carries_add_to_downloads(preview.add_to_downloads.tree(), file_id, chat_id, 0, 16),
        carries_preliminary_upload(preview.preliminary_upload_file.tree(), local_path@, 16),
        carries_send_document(preview.send_document_message.tree(), chat_id, local_path@),
{
    TdlibTransferPreview {
        download_file: download_file(file_id, 16, 0, 0, false),
        add_to_downloads: add_file_to_downloads(file_id, chat_id, 0, 16),
        preliminary_upload_file: preliminary_upload_file(local_path, 16),
        send_document_message: send_document_message(chat_id, local_path),
    }
}

} // verus!
