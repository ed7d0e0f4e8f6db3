use openasr_cli::backend::{
    backend_name, is_retired_backend_id, parse_backend_kind, resolve_backend, BackendKind,
};
use openasr_cli::serve::{
    check_served_model, default_tls_subject_alt_names, pairing_variable,
    require_installed_durable_pack_for_serve, serve, serve_launch_options,
    supervised_daemon_launch, ListenAddress, SavedSelection, ServeError, ServeModelStep,
    ServerAuth, StoredPack,
};
use openasr_cli::source::{
    audio_preparation_options, default_model_id, find_runtime_model_id, native_thread_count,
    prepare_backend_run, print_audio_input_notes, print_audio_preparation_notes,
    resolve_explicit_ffmpeg_bin, resolve_ffmpeg_bin, resolve_installed_native_pack,
    resolve_installed_native_pack_opt, resolve_model_source_for_backend,
    resolve_serve_model_source, selected_model_ref, DefaultModelResolution, PackLookup, RunRequest,
    RuntimeResolution, SourceError, SourceFacts, ToolPlaces,
};

const AUTO: &str = "auto";

fn facts() -> SourceFacts {
    SourceFacts {
        registry_id: Ok("qwen3-asr-0.6b".to_string()),
        given_pack: Err("not a file".to_string()),
        installed_pack: Ok(None),
        selected: Ok("qwen3-asr-0.6b".to_string()),
        name_error: None,
        resolution: RuntimeResolution::Unknown,
        auto_model_id: AUTO.to_string(),
    }
}

#[test]
fn parses_supported_backend_values() {
    assert_eq!(parse_backend_kind("mock"), Ok(BackendKind::Mock));
    assert_eq!(parse_backend_kind("native"), Ok(BackendKind::Native));
    assert!(parse_backend_kind("sensevoice-onnx").is_err());
    assert!(parse_backend_kind("whisper.cpp").is_err());
}

#[test]
fn rejects_unknown_backend_value() {
    let error = parse_backend_kind("not-a-backend").unwrap_err();
    assert!(error.contains("Unsupported backend 'not-a-backend'"));
}

#[test]
fn accepts_native_default_backend_from_saved_config() {
    assert_eq!(resolve_backend(None, Some("native"), "mock").unwrap(), BackendKind::Native);
}

#[test]
fn legacy_default_backend_from_saved_config_fails_closed() {
    let error = resolve_backend(None, Some("whisper.cpp"), "native").unwrap_err();
    assert!(error.contains("retired and no longer executable"));
}

#[test]
fn unknown_default_backend_from_saved_config_still_fails_fast() {
    let error = resolve_backend(None, Some("mokk"), "native").unwrap_err();
    assert!(error.contains("Unsupported backend 'mokk'"));
}

#[test]
fn cli_backend_overrides_config_default_backend() {
    assert_eq!(
        resolve_backend(Some(BackendKind::Mock), Some("native"), "native").unwrap(),
        BackendKind::Mock
    );
}

#[test]
fn without_a_saved_backend_the_default_is_used() {
    assert_eq!(resolve_backend(None, None, "native").unwrap(), BackendKind::Native);
    assert!(is_retired_backend_id("whisper.cpp"));
    assert!(!is_retired_backend_id("native"));
    assert_eq!(backend_name(BackendKind::Native), "native");
}

#[test]
fn model_pack_requires_native_backend_for_shared_cli_resolution() {
    let error =
        resolve_model_source_for_backend("benchmark", None, BackendKind::Mock, true, &facts())
            .err()
            .unwrap()
            .message();
    assert!(error.contains("--model-pack is only supported with --backend native"));
}

#[test]
fn native_model_source_resolution_without_model_uses_auto_sentinel() {
    let pack_root = "/tmp/invalid model id!!.oasr".to_string();
    let given = SourceFacts { given_pack: Ok(pack_root.clone()), ..facts() };
    let source =
        resolve_model_source_for_backend("transcription", None, BackendKind::Native, true, &given)
            .ok()
            .expect("native local source should resolve without eager model-id probing");
    assert_eq!(source.model_id, AUTO);
    assert_eq!(source.model_pack_path, Some(pack_root));
}

#[test]
fn mock_model_source_resolution_uses_local_catalog_aliases() {
    let source = resolve_model_source_for_backend(
        "transcription",
        Some("qwen:q8"),
        BackendKind::Mock,
        false,
        &facts(),
    )
    .ok()
    .expect("local catalog should resolve qwen alias for mock backend");
    assert_eq!(source.model_id, "qwen3-asr-0.6b");
    assert_eq!(source.model_pack_path, None);
}

#[test]
fn native_model_source_resolution_uses_local_catalog_aliases_when_available() {
    let pack_root = "/tmp/qwen3-asr-0.6b-q8_0.oasr".to_string();
    let given = SourceFacts {
        given_pack: Ok(pack_root.clone()),
        resolution: RuntimeResolution::Known("qwen3-asr-0.6b:q8_0".to_string()),
        ..facts()
    };
    let source = resolve_model_source_for_backend(
        "transcription",
        Some("qwen:q8"),
        BackendKind::Native,
        true,
        &given,
    )
    .ok()
    .expect("local catalog should resolve qwen alias for native backend");
    assert_eq!(source.model_id, "qwen3-asr-0.6b:q8_0");
    assert_eq!(source.model_pack_path, Some(pack_root));
}

#[test]
fn resolve_serve_model_source_degrades_to_no_model_when_none_installed() {
    let source = resolve_serve_model_source(
        Some("qwen3-asr-0.6b"),
        BackendKind::Native,
        false,
        false,
        &facts(),
    )
    .ok()
    .expect("serve must resolve a model source even with zero packs installed");
    assert_eq!(source.model_pack_path, None);
    assert_eq!(source.model_id, "qwen3-asr-0.6b");
}

#[test]
fn resolve_serve_model_source_still_validates_explicit_model_pack_path() {
    let error = resolve_serve_model_source(None, BackendKind::Native, true, false, &facts())
        .err()
        .unwrap()
        .message();
    assert!(error.contains("Native model-pack path rejected"));
}

#[test]
fn serve_auto_binds_default_from_content_addressed_ref_unless_no_model_is_explicit() {
    let object = "/home/models/objects/sha256/00/content".to_string();
    let installed = SourceFacts {
        installed_pack: Ok(Some(object.clone())),
        selected: Ok("moonshine-tiny".to_string()),
        ..facts()
    };
    let resolved =
        resolve_serve_model_source(None, BackendKind::Native, false, false, &installed).ok().unwrap();
    assert_eq!(resolved.model_pack_path, Some(object));

    let unbound =
        resolve_serve_model_source(None, BackendKind::Native, false, true, &installed).ok().unwrap();
    assert_eq!(unbound.model_pack_path, None);
    assert_eq!(unbound.model_id, AUTO);
}

#[test]
fn serving_without_a_model_excludes_a_model() {
    assert!(matches!(
        resolve_serve_model_source(Some("m"), BackendKind::Native, false, true, &facts()),
        Err(SourceError::NoModelConflict)
    ));
    assert!(matches!(
        resolve_serve_model_source(None, BackendKind::Mock, false, true, &facts()),
        Err(SourceError::NoModelNeedsNative)
    ));
}

#[test]
fn default_model_ref_matches_documented_constant() {
    assert_eq!(selected_model_ref(None, Ok(None)).unwrap(), "qwen3-asr-0.6b");
    assert_eq!(default_model_id(), "qwen3-asr-0.6b");
}

#[test]
fn selected_model_ref_explicit_wins_over_persisted_default() {
    assert_eq!(
        selected_model_ref(Some("whisper-large-v3-turbo"), Ok(Some("x".to_string()))).unwrap(),
        "whisper-large-v3-turbo"
    );
}

#[test]
fn selected_model_ref_falls_back_to_default_model_id_when_unset() {
    assert_eq!(selected_model_ref(None, Ok(None)).unwrap(), default_model_id());
}

#[test]
fn a_saved_selection_is_used_and_an_unreadable_one_is_told() {
    assert_eq!(selected_model_ref(None, Ok(Some("x".to_string()))).unwrap(), "x");
    assert_eq!(selected_model_ref(None, Err("bad".to_string())).unwrap_err(), "bad");
}

#[test]
fn a_native_run_needs_an_installed_pack() {
    let error = resolve_installed_native_pack(&facts()).err().unwrap();
    assert!(matches!(&error, SourceError::NotInstalled(model) if model == "qwen3-asr-0.6b"));
    assert!(error.message().contains("qwen3-asr-0.6b"));
    let installed = SourceFacts { installed_pack: Ok(Some("/p".to_string())), ..facts() };
    assert_eq!(resolve_installed_native_pack(&installed).ok().unwrap(), "/p");
}

#[test]
fn converters_are_taken_in_order_of_preference() {
    let one = |name: &str| Some(name.to_string());
    assert_eq!(resolve_explicit_ffmpeg_bin(one("a"), one("b"), one("c")), one("a"));
    assert_eq!(resolve_explicit_ffmpeg_bin(None, one("b"), one("c")), one("b"));
    assert_eq!(resolve_explicit_ffmpeg_bin(None, None, one("c")), one("c"));
    assert_eq!(resolve_ffmpeg_bin(None, None, None, one("d")), one("d"));
    assert_eq!(resolve_ffmpeg_bin(None, one("b"), None, one("d")), one("b"));
    let prepared = audio_preparation_options(BackendKind::Native, one("a"), true);
    assert!(prepared.ffmpeg_bin_explicit);
    assert_eq!(prepared.ffmpeg_bin, one("a"));
}

#[test]
fn a_run_is_prepared_from_its_request() {
    let request = RunRequest {
        command_label: "transcription",
        model: Some("qwen:q8"),
        backend: Some(BackendKind::Mock),
        configured_backend: Some("mokk"),
        default_backend: "native",
        has_pack: false,
    };
    let places = ToolPlaces {
        asked: None,
        environment: Some("/usr/bin/ffmpeg".to_string()),
        configured: None,
        found: None,
    };
    let run = prepare_backend_run(&request, &facts(), places).ok().unwrap();
    assert_eq!(run.backend_kind, BackendKind::Mock);
    assert_eq!(run.model_source.model_id, "qwen3-asr-0.6b");
    assert!(run.ffmpeg_bin_explicit);
    assert_eq!(native_thread_count(true, Some(8)), None);
    assert_eq!(native_thread_count(false, Some(8)), Some(5));
    assert_eq!(native_thread_count(false, Some(3)), Some(3));
}

#[test]
fn remote_serve_tls_sans_include_bound_ip_and_localhost() {
    let address = ListenAddress {
        ip: "127.0.0.1".to_string(),
        is_unspecified: false,
        is_loopback: true,
    };
    let names = default_tls_subject_alt_names(
        &address,
        &vec!["OpenASR.local".to_string(), " ".to_string()],
    );
    assert_eq!(
        names,
        vec!["OpenASR.local".to_string(), "127.0.0.1".to_string(), "localhost".to_string()]
    );
}

#[test]
fn remote_serve_tls_sans_do_not_add_unspecified_address() {
    let address =
        ListenAddress { ip: "0.0.0.0".to_string(), is_unspecified: true, is_loopback: false };
    assert!(default_tls_subject_alt_names(&address, &vec![]).is_empty());
}

#[test]
fn remote_serve_pairing_token_env_must_exist_and_be_nonempty() {
    let variable = Some("OPENASR_TEST_PAIRING_TOKEN");
    let error = serve_launch_options(true, variable, None).err().unwrap().message();
    assert!(error.contains("OPENASR_TEST_PAIRING_TOKEN"));
    let error = serve_launch_options(true, variable, Some("  ")).err().unwrap().message();
    assert!(error.contains("must not be empty"));
}

#[test]
fn local_keys_count_only_on_the_own_machine() {
    assert!(matches!(
        serve_launch_options(true, Some("V"), Some("secret")),
        Ok(ServerAuth::Pairing(token)) if token == "secret"
    ));
    assert!(matches!(serve_launch_options(true, None, None), Ok(ServerAuth::Keys)));
    assert!(matches!(serve_launch_options(false, None, None), Ok(ServerAuth::Disabled)));
    assert_eq!(pairing_variable(Some("V")), Some("V".to_string()));
    assert_eq!(pairing_variable(None), None);
}

#[test]
fn supervised_daemon_launch_detects_instance_token_env() {
    assert!(!supervised_daemon_launch(None));
    assert!(!supervised_daemon_launch(Some("  ")));
    assert!(supervised_daemon_launch(Some("desktop-token")));
}

#[test]
fn a_server_checks_the_pack_it_serves() {
    assert_eq!(
        serve(BackendKind::Native, true, true, false),
        ServeModelStep::CheckPack { check_selection: true }
    );
    assert_eq!(
        serve(BackendKind::Native, true, false, false),
        ServeModelStep::CheckPack { check_selection: false }
    );
    assert_eq!(serve(BackendKind::Native, false, false, true), ServeModelStep::NoModelWanted);
    assert_eq!(serve(BackendKind::Native, false, false, false), ServeModelStep::NoneInstalled);
    assert_eq!(serve(BackendKind::Mock, false, false, false), ServeModelStep::Nothing);
    assert!(check_served_model(None, false, "a", "b").is_ok());
    assert!(check_served_model(Some("m"), true, "a", "b").is_ok());
    assert!(matches!(
        check_served_model(Some("m"), false, "a", "b"),
        Err(ServeError::ModelMismatch { .. })
    ));
}

#[test]
fn only_an_installed_selection_is_served() {
    let packs = vec![StoredPack {
        path: "/p".to_string(),
        resolved_path: Some("/real/p".to_string()),
        sha256: "aa".to_string(),
    }];
    let selection = |sha256: Option<&str>| {
        Ok(Some(SavedSelection {
            is_installed: true,
            expected_sha256: sha256.map(str::to_string),
        }))
    };
    assert_eq!(
        require_installed_durable_pack_for_serve("/real/p", &packs, &selection(Some("aa")))
            .ok(),
        Some(0)
    );
    assert!(matches!(
        require_installed_durable_pack_for_serve("/other", &packs, &selection(Some("aa"))),
        Err(ServeError::PackNotInstalled)
    ));
    assert!(matches!(
        require_installed_durable_pack_for_serve("/real/p", &packs, &selection(Some("bb"))),
        Err(ServeError::SelectionElsewhere)
    ));
    assert!(matches!(
        require_installed_durable_pack_for_serve("/real/p", &packs, &Ok(None)),
        Err(ServeError::SelectionMissing)
    ));
    let error =
        require_installed_durable_pack_for_serve("/real/p", &packs, &Err("bad".to_string()))
            .err()
            .unwrap();
    assert_eq!(error.message(), "Could not read durable V2 default-selection");
    assert!(matches!(error, ServeError::SelectionUnreadable(cause) if cause == "bad"));
}

#[test]
fn the_catalog_names_a_model_before_the_registry_does() {
    let registered = || Ok("from-registry".to_string());
    assert_eq!(find_runtime_model_id(None, registered()), Ok("from-registry".to_string()));
    assert_eq!(
        find_runtime_model_id(Some(RuntimeResolution::Unknown), registered()),
        Ok("from-registry".to_string())
    );
    assert_eq!(
        find_runtime_model_id(
            Some(RuntimeResolution::Known("from-catalog".to_string())),
            Err("no such card".to_string())
        ),
        Ok("from-catalog".to_string())
    );
    assert_eq!(
        find_runtime_model_id(
            Some(RuntimeResolution::Failed("ambiguous".to_string())),
            registered()
        ),
        Err("ambiguous".to_string())
    );
    assert_eq!(
        find_runtime_model_id(None, Err("no such card".to_string())),
        Err("no such card".to_string())
    );
}

#[test]
fn the_saved_default_says_where_its_pack_is() {
    let found = |asked, saved| match resolve_installed_native_pack_opt(asked, saved) {
        Ok(PackLookup::Found(path)) => format!("found {path}"),
        Ok(PackLookup::Missing) => "missing".to_string(),
        Ok(PackLookup::Named(name)) => format!("named {name}"),
        Err(error) => format!("error {error}"),
    };
    let installed = || Ok(DefaultModelResolution::Installed("/packs/a".to_string()));
    assert_eq!(found(None, installed()), "found /packs/a");
    assert_eq!(found(None, Ok(DefaultModelResolution::NotInstalled)), "missing");
    assert_eq!(
        found(None, Ok(DefaultModelResolution::Unset)),
        format!("named {}", default_model_id())
    );
    assert_eq!(found(None, Err("corrupt".to_string())), "error corrupt");
    assert_eq!(found(Some("qwen:q8"), installed()), "named qwen:q8");
    assert_eq!(found(Some("qwen:q8"), Err("corrupt".to_string())), "named qwen:q8");
}

#[test]
fn notes_tell_how_audio_was_read() {
    assert!(print_audio_input_notes(&vec![]).is_empty());
    assert_eq!(
        print_audio_input_notes(&vec!["xyz".to_string()]),
        vec![
            "Note: unrecognized audio extension \".xyz\"; OpenASR will pass the file to the selected backend."
                .to_string()
        ]
    );
    assert_eq!(
        print_audio_preparation_notes("a.mp3", true, true).as_deref(),
        Some("Note: decoded a.mp3 to 16 kHz mono in memory for the selected backend.")
    );
    assert_eq!(
        print_audio_preparation_notes("a.mp3", false, true).as_deref(),
        Some("Note: prepared a.mp3 as temporary 16 kHz mono PCM WAV for the selected backend.")
    );
    assert_eq!(print_audio_preparation_notes("a.wav", false, false), None);
}
