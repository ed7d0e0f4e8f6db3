use openasr_cli::commands::{
    apikey_command, card_header, card_line, command_reads_the_model_store, config_command,
    exit_with_error, migrate_model_store_once, registry_line, reject_legacy_default_model_mutation,
    run, search_matches, search_models, setting_line, setting_value, show_model,
    sign_catalog_manifest_command, sign_qualification_manifest_command, signature_roots,
    ApiKeyOutcome, ApiKeyRow, AuditQuantTier, CommandKind, ConfigCommand, ConfigKey, ConfigStep,
    MigrationReport, ModelCard, PackQuant, ShowTarget, SignEnd, SignStep, TrustRoots,
};
use openasr_cli::doctor::{
    backend_rating, binary_status, bytes_to_mib, device_kind_label, device_line,
    executable_candidate_names, ffmpeg_line, find_in_path, format_cpu_features,
    format_weight_types, is_executable, is_executable_file, model_rating, on_off,
    optional_tool_line, quant_preference_line, CpuFeatures, DeviceKind, FileFacts, Platform,
};
use openasr_cli::json::{Json, JsonNumber};
use openasr_cli::plugin::{
    backend_plugin_command, failure_record, install_target, installed_record, listed_record,
    plain_record, progress_record, provider_vendor, sum_bytes, terminal_record, uninstalled_record,
    BackendPluginCommand, BackendVendor, InstalledBackend, PullProgress,
};

#[test]
fn terminal_records_always_carry_the_machine_protocol_envelope() {
    let record = terminal_record(
        "prepared",
        Json::Object(vec![
            ("backend_id".to_string(), Json::Text("cuda-windows-sm_86".to_string())),
            ("schema_version".to_string(), Json::Number(JsonNumber::Unsigned(999))),
        ]),
    );
    assert_eq!(record.natural_field("schema_version"), Some(1));
    assert_eq!(record.text_field("event"), Some("prepared"));
    assert_eq!(record.text_field("backend_id"), Some("cuda-windows-sm_86"));
}

#[test]
fn a_record_that_is_no_object_keeps_its_value() {
    assert_eq!(plain_record("deactivated").text_field("event"), Some("deactivated"));
    let failed = failure_record("usage", "bad_target", "no such target");
    assert_eq!(failed.natural_field("schema_version"), Some(1));
    assert!(failed.field("event").is_some());
    let removed = uninstalled_record("cuda", 2, 30);
    assert_eq!(removed.text_field("event"), Some("uninstalled"));
    let progress = progress_record(PullProgress::Downloading { bytes_done: 5, bytes_total: None });
    assert_eq!(progress.natural_field("bytes_done"), Some(5));
}

fn backend() -> InstalledBackend {
    InstalledBackend {
        backend_id: "cuda-windows-sm_86".to_string(),
        vendor: BackendVendor::Cuda,
        version: "1".to_string(),
        artifact_fingerprint: "aa".to_string(),
        host_abi_fingerprint: "bb".to_string(),
        file_sizes: vec![4, 5],
    }
}

#[test]
fn installed_backends_are_listed_with_their_size() {
    assert_eq!(sum_bytes(&vec![4, 5]), 9);
    assert!(listed_record(&vec![backend()]).field("event").is_some());
    let record = installed_record(&backend(), Some("sm_86"), 3);
    assert_eq!(record.text_field("backend_id"), Some("cuda-windows-sm_86"));
    assert_eq!(provider_vendor("hip"), BackendVendor::Hip);
    let plan = backend_plugin_command(BackendPluginCommand::Install);
    assert!(plan.reads_catalog);
    assert!(!backend_plugin_command(BackendPluginCommand::List).reads_catalog);
}

#[test]
fn a_vendor_with_several_targets_is_asked_for_one() {
    assert!(install_target(BackendVendor::Cuda, &vec!["sm_86".to_string()]).is_ok());
}

#[test]
fn windows_candidate_names_include_pathext_extensions() {
    let names = executable_candidate_names("ffmpeg", Platform::Windows, None);
    assert!(names.contains(&"ffmpeg".to_string()));
    assert!(
        names.iter().any(|n| n.eq_ignore_ascii_case("ffmpeg.exe")),
        "PATHEXT candidates must include ffmpeg.exe, got {names:?}"
    );
}

#[test]
fn windows_regular_file_is_executable_so_find_in_path_resolves_ffmpeg() {
    let exe = Some(FileFacts { is_file: true, mode: 0 });
    assert!(
        is_executable_file(exe, Platform::Windows),
        "a regular .exe file must count as executable on Windows"
    );
    let directory = Some(FileFacts { is_file: false, mode: 0o755 });
    assert!(!is_executable_file(directory, Platform::Windows));
    assert!(!is_executable_file(None, Platform::Windows));
}

#[test]
fn other_systems_look_for_the_name_alone() {
    assert_eq!(
        executable_candidate_names("ffmpeg", Platform::Unix, Some(".EXE")),
        vec!["ffmpeg".to_string()]
    );
    let plain = FileFacts { is_file: true, mode: 0o644 };
    let runnable = FileFacts { is_file: true, mode: 0o100 };
    assert!(!is_executable(plain, Platform::Unix));
    assert!(is_executable(runnable, Platform::Unix));
    assert!(!is_executable(runnable, Platform::Other));
    let places = vec![vec![None, Some(plain)], vec![Some(runnable), None]];
    assert_eq!(find_in_path(&places, Platform::Unix), Some((1, 0)));
    assert_eq!(find_in_path(&vec![], Platform::Unix), None);
    assert_eq!(binary_status(Some(runnable), Platform::Unix), "ok");
    assert_ne!(binary_status(Some(plain), Platform::Unix), "ok");
    assert_ne!(binary_status(None, Platform::Unix), "ok");
}

fn no_features() -> CpuFeatures {
    CpuFeatures {
        sse3: false,
        ssse3: false,
        avx: false,
        avx_vnni: false,
        avx2: false,
        fma: false,
        f16c: false,
        bmi2: false,
        avx512: false,
        avx512_vbmi: false,
        avx512_vnni: false,
        avx512_bf16: false,
        amx_int8: false,
        neon: false,
        arm_fma: false,
        fp16_va: false,
        dotprod: false,
        matmul_int8: false,
        sve: false,
        sme: false,
        riscv_v: false,
        vsx: false,
        vxe: false,
        wasm_simd: false,
        llamafile: false,
    }
}

#[test]
fn features_are_named_in_order() {
    let features = CpuFeatures { avx2: true, sse3: true, ..no_features() };
    let shown = format_cpu_features(&features);
    let lowered = shown.to_lowercase();
    assert!(lowered.find("sse3").unwrap() < lowered.find("avx2").unwrap());
    assert_ne!(format_cpu_features(&no_features()), shown);
    let types = vec![("f16".to_string(), true), ("q4".to_string(), false)];
    assert!(format_weight_types(&types).contains("f16"));
    assert_eq!(on_off(true), "on");
    assert_eq!(on_off(false), "off");
    assert_eq!(bytes_to_mib(5 * 1024 * 1024 + 1), 5);
}

#[test]
fn the_doctor_writes_lines() {
    let line = device_line("GPU0", DeviceKind::Gpu, Some((1024 * 1024, 2 * 1024 * 1024)));
    assert!(line.contains("GPU0"));
    assert!(line.contains(device_kind_label(DeviceKind::Gpu)));
    assert!(optional_tool_line("ffmpeg", Some("/usr/bin/ffmpeg")).contains("/usr/bin/ffmpeg"));
    assert!(ffmpeg_line(Some(("/opt/ffmpeg", "ok")), None).contains("/opt/ffmpeg"));
    assert_ne!(backend_rating("native"), backend_rating("nothing"));
    assert_ne!(model_rating(true), model_rating(false));
    assert!(quant_preference_line(Some("q8_0"), None).contains("q8_0"));
}

fn card(id: &str, family: &str) -> ModelCard {
    ModelCard {
        id: id.to_string(),
        family: family.to_string(),
        tag: None,
        is_default: false,
        backend: "native".to_string(),
        format: None,
        quantization: None,
        size: "0.6B".to_string(),
        quality_profile: "balanced".to_string(),
        display_name: "Under".to_string(),
    }
}

#[test]
fn cards_are_found_by_their_texts() {
    let cards = vec![card("qwen3-asr-0.6b", "qwen"), card("whisper-small", "whisper")];
    assert!(search_matches(None, &cards[0]));
    assert!(search_matches(Some("QWEN"), &cards[0]));
    assert!(search_matches(Some("under"), &cards[0]));
    assert!(!search_matches(Some("moonshine"), &cards[0]));
    let lines = search_models(Some("whisper"), &cards);
    assert!(lines.contains(&card_line(&cards[1])));
    assert!(!lines.contains(&card_line(&cards[0])));
    assert_eq!(search_models(None, &cards).len(), 2);
    assert_eq!(
        card_header(),
        format!(
            "{:<30} {:<24} {:<10} {:<7} {:<14} {:<10} {:<10} {:<14} {:<28} DISPLAY NAME",
            "ID", "FAMILY", "TAG", "DEFAULT", "BACKEND", "FORMAT", "QUANT", "SIZE", "QUALITY"
        )
    );
    assert_eq!(
        card_line(&cards[0]),
        format!(
            "{:<30} {:<24} {:<10} {:<7} {:<14} {:<10} {:<10} {:<14} {:<28} {}",
            "qwen3-asr-0.6b", "qwen", "-", "-", "native", "-", "-", "0.6B", "balanced", "Under"
        )
    );
}

#[test]
fn commands_are_planned() {
    assert!(command_reads_the_model_store(CommandKind::Transcribe));
    assert!(!command_reads_the_model_store(CommandKind::MemoryPressureHelper));
    assert!(run(CommandKind::Transcribe).needs_engine);
    assert!(!run(CommandKind::MemoryPressureHelper).converts_store);
}

#[test]
fn failed_migrations_are_told() {
    let lines = migrate_model_store_once(&MigrationReport {
        migrated: 0,
        reclaimed_bytes: 0,
        failures: vec![("pack".to_string(), "why".to_string())],
    });
    assert!(lines.iter().any(|line| line.contains("pack") && line.contains("why")));
    assert!(migrate_model_store_once(&MigrationReport {
        migrated: 0,
        reclaimed_bytes: 0,
        failures: vec![],
    })
    .is_empty());
    let lines = exit_with_error(&vec!["outer".to_string(), "inner".to_string()]);
    assert!(lines[0].contains("outer"));
    assert!(lines.iter().any(|line| line.contains("inner")));
}

#[test]
fn settings_are_read_and_changed() {
    assert_eq!(
        config_command(ConfigCommand::Change(ConfigKey::DefaultBackend)).unwrap(),
        ConfigStep::Change(ConfigKey::DefaultBackend)
    );
    assert!(config_command(ConfigCommand::Change(ConfigKey::DefaultModel)).is_err());
    assert!(reject_legacy_default_model_mutation(ConfigKey::DefaultModel).is_err());
    assert!(reject_legacy_default_model_mutation(ConfigKey::DownloadSource).is_ok());
    assert_eq!(config_command(ConfigCommand::List).unwrap(), ConfigStep::ShowAll);
    assert_eq!(
        config_command(ConfigCommand::Get(ConfigKey::DefaultModel)).unwrap(),
        ConfigStep::ShowDefaultModel
    );
    assert_eq!(config_command(ConfigCommand::RecoverDefault).unwrap(), ConfigStep::Recover);
    assert!(setting_line("default_backend", Some("mock")).contains("mock"));
    assert_eq!(setting_value(Some("x")), "x");
    assert_ne!(setting_value(None), "x");
}

#[test]
fn keys_are_listed_and_revoked() {
    let listed = apikey_command(&ApiKeyOutcome::Listed(vec![ApiKeyRow {
        id: "k1".to_string(),
        name: Some("laptop".to_string()),
        created_at: "now".to_string(),
        token_preview: "oasr_…".to_string(),
    }]))
    .unwrap();
    assert!(listed.iter().any(|line| line.contains("k1") && line.contains("laptop")));
    assert!(apikey_command(&ApiKeyOutcome::Revoked {
        id: "k2".to_string(),
        found: false,
        remaining: 1,
    })
    .is_err());
    let created = apikey_command(&ApiKeyOutcome::Created {
        id: "k3".to_string(),
        name: None,
        token: "tok".to_string(),
    })
    .unwrap();
    assert!(created.iter().any(|line| line.contains("tok")));
}

#[test]
fn packs_and_catalogs_are_told_apart() {
    assert_eq!(show_model(true, Some("oasr")), ShowTarget::Pack);
    assert_eq!(show_model(false, None), ShowTarget::Catalog);
    assert_eq!(signature_roots("prod", "prod"), TrustRoots::Production);
    assert_eq!(signature_roots("dev", "prod"), TrustRoots::Local);
    assert_eq!(AuditQuantTier::Q4_K.to_pack_quant(), PackQuant::Q4_K);
    assert_eq!(AuditQuantTier::Fp16.to_pack_quant(), PackQuant::Fp16);
    assert!(registry_line(3, None).contains('3'));
}

fn catalog_signing_after(outcomes: &[bool], print_public_key: bool, has_address: bool) -> SignStep {
    outcomes.iter().fold(SignStep::ReadSeed, |step, ok| {
        sign_catalog_manifest_command(step, *ok, print_public_key, has_address, "dev", "prod")
    })
}

#[test]
fn a_catalog_signature_is_checked_before_it_is_written() {
    assert_eq!(catalog_signing_after(&[true], false, true), SignStep::ReadContents);
    assert_eq!(catalog_signing_after(&[true; 2], false, true), SignStep::Sign);
    assert_eq!(catalog_signing_after(&[true; 2], false, false), SignStep::FindAddress);
    assert_eq!(catalog_signing_after(&[true; 3], false, false), SignStep::Sign);
    assert_eq!(catalog_signing_after(&[true; 3], false, true), SignStep::Verify(TrustRoots::Local));
    assert_eq!(
        sign_catalog_manifest_command(SignStep::Sign, true, false, true, "prod", "prod"),
        SignStep::Verify(TrustRoots::Production)
    );
    assert_eq!(catalog_signing_after(&[true; 4], false, true), SignStep::MakeDirectory);
    assert_eq!(catalog_signing_after(&[true; 5], false, true), SignStep::Write);
    assert_eq!(catalog_signing_after(&[true; 6], false, true), SignStep::End(SignEnd::Written));
    assert_eq!(
        catalog_signing_after(&[true, true, true, false, true], false, true),
        SignStep::End(SignEnd::Failed)
    );
}

#[test]
fn asking_for_the_public_key_signs_nothing() {
    assert_eq!(catalog_signing_after(&[true], true, true), SignStep::ShowPublicKey);
    assert_eq!(catalog_signing_after(&[true; 2], true, true), SignStep::End(SignEnd::KeyShown));
    assert_eq!(catalog_signing_after(&[false], true, true), SignStep::End(SignEnd::Failed));
    assert_eq!(
        sign_qualification_manifest_command(SignStep::ReadSeed, true, true),
        SignStep::ShowPublicKey
    );
}

#[test]
fn a_qualification_manifest_is_validated_by_its_signer() {
    let after = |count: usize| {
        (0..count).fold(SignStep::ReadSeed, |step, _| {
            sign_qualification_manifest_command(step, true, false)
        })
    };
    assert_eq!(after(1), SignStep::ReadContents);
    assert_eq!(after(2), SignStep::Sign);
    assert_eq!(after(3), SignStep::MakeDirectory);
    assert_eq!(after(4), SignStep::Write);
    assert_eq!(after(5), SignStep::End(SignEnd::Written));
    assert_eq!(
        sign_qualification_manifest_command(SignStep::Sign, false, false),
        SignStep::End(SignEnd::Failed)
    );
}
