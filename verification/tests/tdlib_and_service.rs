use tg_rs::json::TdJson;
use tg_rs::service::{RewriteService, SourceKind};
use tg_rs::tdlib::{
    bootstrap_preview, default_tdjson_names, discover_tdjson, next_receive_wait, symbol_name,
    transfer_preview, TargetOs, TdlibBootstrapConfig, TdlibRuntimeError, TransferIntegration,
    TransferMode,
};
use tg_rs::tdlib_requests::{
    get_authorization_state, preliminary_upload_file, sample_text_entities, send_document_message,
    set_tdlib_parameters,
};
use tg_rs::telegram::AppConfigHints;
use tg_rs::transfer::TransferFeatureConfig;

fn text(s: &str) -> TdJson {
    TdJson::Text(s.to_string())
}

fn field(name: &str, value: TdJson) -> (String, TdJson) {
    (name.to_string(), value)
}

#[test]
fn candidates_put_the_custom_path_first() {
    let mut config = TdlibBootstrapConfig::for_system("linux");
    assert_eq!(
        config.library_candidates(TargetOs::Other),
        vec!["libtdjson.so", "bin/libtdjson.so", "vendor/tdlib/libtdjson.so"]
    );
    config.custom_tdjson_path = Some("custom/tdjson.dll".to_string());
    assert_eq!(
        config.library_candidates(TargetOs::Windows),
        vec!["custom/tdjson.dll", "tdjson.dll", "bin/tdjson.dll", "vendor/tdlib/tdjson.dll"]
    );
    assert_eq!(default_tdjson_names(TargetOs::MacOs)[2], "vendor/tdlib/libtdjson.dylib");
}

#[test]
fn discovery_takes_the_first_present_candidate() {
    let config = TdlibBootstrapConfig::for_system("linux");
    assert_eq!(
        discover_tdjson(&config, TargetOs::Other, &[false, true, true]).expect("found"),
        "bin/libtdjson.so"
    );
    assert!(matches!(
        discover_tdjson(&config, TargetOs::Other, &[false, false, false]),
        Err(TdlibRuntimeError::NotFound)
    ));
}

#[test]
fn summary_names_directories_and_mode() {
    let mut config = TdlibBootstrapConfig::for_system("linux");
    assert_eq!(config.summary(), "tdlib db=var/tdlib/db files=var/tdlib/files mode=production");
    config.use_test_dc = true;
    assert_eq!(config.summary(), "tdlib db=var/tdlib/db files=var/tdlib/files mode=test");
    assert_eq!(config.system_version, "linux");
    assert_eq!(config.app_version, "0.1.0");
    assert_eq!(config.device_model, "Unofficial TG RS");
}

#[test]
fn symbol_names_drop_the_terminator() {
    assert_eq!(symbol_name(b"td_json_client_create\0"), "td_json_client_create");
    assert_eq!(symbol_name(b"\xff\xfe\0"), "unknown");
    assert_eq!(symbol_name(b""), "");
    assert_eq!(symbol_name("héllo\0".as_bytes()), "héllo");
}

#[test]
fn batch_receives_wait_at_most_one_slice() {
    assert_eq!(next_receive_wait(1_000_000, 0, 6), Some(200_000));
    assert_eq!(next_receive_wait(50_000, 5, 6), Some(50_000));
    assert_eq!(next_receive_wait(0, 0, 6), None);
    assert_eq!(next_receive_wait(1_000_000, 6, 6), None);
}

#[test]
fn requests_have_the_tdlib_shape() {
    assert_eq!(
        sample_text_entities(),
        TdJson::Object(vec![
            field("@type", text("getTextEntities")),
            field("text", text("@telegram https://telegram.org")),
        ])
    );
    assert_eq!(
        get_authorization_state("x"),
        TdJson::Object(vec![field("@type", text("getAuthorizationState")), field("@extra", text("x"))])
    );
    assert_eq!(
        preliminary_upload_file("a.bin", 16),
        TdJson::Object(vec![
            field("@type", text("preliminaryUploadFile")),
            field(
                "file",
                TdJson::Object(vec![field("@type", text("inputFileLocal")), field("path", text("a.bin"))])
            ),
            field("file_type", TdJson::Null),
            field("priority", TdJson::Int(16)),
        ])
    );
    let message = send_document_message(42, "a.bin");
    match message {
        TdJson::Object(fields) => {
            assert_eq!(fields.len(), 7);
            assert_eq!(fields[1], field("chat_id", TdJson::Int(42)));
            match &fields[6].1 {
                TdJson::Object(content) => {
                    assert_eq!(content[3], field("disable_content_type_detection", TdJson::Bool(false)));
                }
                other => panic!("unexpected {:?}", other),
            }
        }
        other => panic!("unexpected {:?}", other),
    }
}

#[test]
fn previews_hold_the_bootstrap_and_transfer_requests() {
    let config = TdlibBootstrapConfig::for_system("linux");
    let preview = bootstrap_preview(&config);
    assert_eq!(preview.requests.len(), 3);
    assert_eq!(preview.requests[1], set_tdlib_parameters(&config));
    assert_eq!(preview.requests[2], get_authorization_state("bootstrap-state"));
    let transfer = transfer_preview("b.bin", 7, 9);
    match transfer.download_file {
        TdJson::Object(fields) => {
            assert_eq!(fields[1], field("file_id", TdJson::Int(9)));
            assert_eq!(fields[2], field("priority", TdJson::Int(16)));
        }
        other => panic!("unexpected {:?}", other),
    }
    assert_eq!(transfer.send_document_message, send_document_message(7, "b.bin"));
}

#[test]
fn manifest_lists_platforms_sources_and_notes() {
    let service = RewriteService::default_for_system("linux");
    let manifest = service.manifest();
    assert_eq!(manifest.project_name, "Unofficial TG RS");
    assert_eq!(manifest.platforms, vec!["Windows", "macOS", "Linux", "Android", "iOS"]);
    assert_eq!(manifest.sources.len(), 8);
    assert_eq!(manifest.sources[0].kind, SourceKind::Official);
    assert_eq!(manifest.sources[5].name, "grammers");
    assert_eq!(manifest.sources[7].kind, SourceKind::Inspiration);
    assert_eq!(manifest.tdlib_summary, service.tdlib_config().summary());
    assert_eq!(manifest.transfer_notes.len(), 2);
    let integration = TransferIntegration::default();
    assert_eq!(integration.mode, TransferMode::RawMtProtoAccelerated);
    assert_eq!(manifest.transfer_notes, integration.notes);
}

#[test]
fn service_plans_with_its_configuration() {
    let service = RewriteService::new(
        TransferFeatureConfig::default(),
        AppConfigHints::default(),
        TdlibBootstrapConfig::for_system("linux"),
        TransferIntegration::default(),
    );
    let job = tg_rs::transfer::TransferJob::new(
        "x.bin",
        1024,
        tg_rs::transfer::TransferDirection::Download,
        tg_rs::telegram::AccountTier::Free,
    );
    let plan = service.plan_transfer(&job).expect("plan");
    assert_eq!(plan.total_parts, 1);
    assert_eq!(service.tdlib_bootstrap_preview().requests.len(), 3);
}
