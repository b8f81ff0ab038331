use mc_launcher_core::launch::{
    check_modloader, launch_step, resolve_version_url, LaunchAction, LaunchError, LaunchEvent,
    LaunchHandle,
};
use mc_launcher_core::version::{
    checked_response_body, ClientDownload, Downloads, VersionJson, deserialize_value_vec, find_version_url, JsonArgValue,
    VersionManifestV2, VersionRef,
};
use mc_launcher_core::{LaunchOptions, ModLoader};

fn manifest() -> VersionManifestV2 {
    VersionManifestV2 {
        versions: vec![
            VersionRef { id: "1.21".to_string(), url: "https://example.org/1.21.json".to_string() },
            VersionRef { id: "1.20.1".to_string(), url: "https://example.org/first.json".to_string() },
            VersionRef { id: "1.20.1".to_string(), url: "https://example.org/second.json".to_string() },
        ],
    }
}

#[test]
fn finds_first_matching_version() {
    assert_eq!(
        find_version_url(&manifest(), "1.20.1"),
        Some("https://example.org/first.json".to_string())
    );
    assert_eq!(find_version_url(&manifest(), "1.21"), Some("https://example.org/1.21.json".to_string()));
}

#[test]
fn missing_version_is_none() {
    assert_eq!(find_version_url(&manifest(), "1.8.9"), None);
    assert_eq!(find_version_url(&VersionManifestV2 { versions: vec![] }, "1.20.1"), None);
}

#[test]
fn resolve_names_missing_version() {
    let err = resolve_version_url(&manifest(), "b1.7.3").unwrap_err();
    assert_eq!(err.message(), "Game version 'b1.7.3' not found in manifest");
    assert_eq!(
        resolve_version_url(&manifest(), "1.20.1").unwrap(),
        "https://example.org/first.json"
    );
}

#[test]
fn only_vanilla_is_accepted() {
    assert!(check_modloader(&ModLoader::Vanilla).is_ok());
    let expected = "Only Vanilla Minecraft is supported currently. Use ModLoader::Vanilla. \
                    Fabric, Forge, and Quilt support coming soon.";
    for m in [
        ModLoader::Fabric("0.15.0".to_string()),
        ModLoader::Forge("47.2.0".to_string()),
        ModLoader::Quilt("0.20.0".to_string()),
    ] {
        assert_eq!(check_modloader(&m).unwrap_err().message(), expected);
    }
}

#[test]
fn launch_error_keeps_message() {
    let e = LaunchError::new("boom".to_string());
    assert_eq!(e.message(), "boom");
    let _handle = LaunchHandle::finished();
}

#[test]
fn value_string_gives_single_element() {
    let v = JsonArgValue::Str("-XstartOnFirstThread".to_string());
    assert_eq!(deserialize_value_vec(&v).unwrap(), vec!["-XstartOnFirstThread".to_string()]);
}

#[test]
fn value_array_of_strings_gives_all() {
    let v = JsonArgValue::Array(vec![
        JsonArgValue::Str("--width".to_string()),
        JsonArgValue::Str("${resolution_width}".to_string()),
    ]);
    assert_eq!(
        deserialize_value_vec(&v).unwrap(),
        vec!["--width".to_string(), "${resolution_width}".to_string()]
    );
    assert_eq!(deserialize_value_vec(&JsonArgValue::Array(vec![])).unwrap(), Vec::<String>::new());
}

#[test]
fn value_array_with_non_string_is_refused() {
    let v = JsonArgValue::Array(vec![JsonArgValue::Str("a".to_string()), JsonArgValue::Other]);
    assert_eq!(deserialize_value_vec(&v).unwrap_err(), "expected string in argument value array");
}

#[test]
fn value_of_other_kind_is_refused() {
    assert_eq!(
        deserialize_value_vec(&JsonArgValue::Other).unwrap_err(),
        "argument value must be string or array of strings"
    );
}

#[test]
fn response_body_or_status_error() {
    assert_eq!(checked_response_body("manifest", true, "200 OK", "{}".to_string()), Ok("{}".to_string()));
    assert_eq!(
        checked_response_body("version", false, "404 Not Found", "missing".to_string()),
        Err("version request failed 404 Not Found: missing".to_string())
    );
}

fn options(modloader: ModLoader, version: &str) -> LaunchOptions {
    LaunchOptions {
        game_version: version.to_string(),
        modloader,
        instance_dir: None,
        java_path: None,
        memory_mb: Some(2048),
    }
}

#[test]
fn launch_refuses_other_modloaders_before_any_work() {
    let o = options(ModLoader::Fabric("0.15".to_string()), "1.20.1");
    match launch_step(&o, LaunchEvent::Begin) {
        LaunchAction::Finish(Err(e)) => assert!(e.message().starts_with("Only Vanilla")),
        other => panic!("unexpected {:?}", other),
    }
}

#[test]
fn launch_walks_through_its_steps() {
    let o = options(ModLoader::Vanilla, "1.20.1");
    assert!(matches!(launch_step(&o, LaunchEvent::Begin), LaunchAction::FetchManifest));
    match launch_step(&o, LaunchEvent::ManifestFetched(Ok(manifest()))) {
        LaunchAction::FetchVersion(url) => assert_eq!(url, "https://example.org/first.json"),
        other => panic!("unexpected {:?}", other),
    }
    let missing = options(ModLoader::Vanilla, "0.0");
    match launch_step(&missing, LaunchEvent::ManifestFetched(Ok(manifest()))) {
        LaunchAction::Finish(Err(e)) => {
            assert_eq!(e.message(), "Game version '0.0' not found in manifest")
        }
        other => panic!("unexpected {:?}", other),
    }
    assert!(matches!(launch_step(&o, LaunchEvent::GameExited(Ok(()))), LaunchAction::Finish(Ok(_))));
}

#[test]
fn launch_reports_outside_errors_unchanged() {
    let o = options(ModLoader::Vanilla, "1.20.1");
    for event in [
        LaunchEvent::ManifestFetched(Err("manifest request failed 500: x".to_string())),
        LaunchEvent::VersionFetched(Err("manifest request failed 500: x".to_string())),
        LaunchEvent::GameExited(Err("manifest request failed 500: x".to_string())),
    ] {
        match launch_step(&o, event) {
            LaunchAction::Finish(Err(e)) => assert_eq!(e.message(), "manifest request failed 500: x"),
            other => panic!("unexpected {:?}", other),
        }
    }
}

fn sample_version() -> VersionJson {
    VersionJson {
        id: "1.20.1".to_string(),
        main_class: "net.minecraft.client.main.Main".to_string(),
        arguments: None,
        minecraft_arguments_legacy: None,
        libraries: vec![],
        downloads: Downloads {
            client: ClientDownload { url: "https://c/c.jar".to_string(), sha1: "0".to_string(), size: 1 },
        },
    }
}

#[test]
fn launch_runs_in_instance_dir_when_given() {
    let mut o = options(ModLoader::Vanilla, "1.20.1");
    o.instance_dir = Some("/srv/instance".to_string());
    match launch_step(&o, LaunchEvent::VersionFetched(Ok(sample_version()))) {
        LaunchAction::RunGame { version, game_dir } => {
            assert_eq!(version, sample_version());
            assert_eq!(game_dir, "/srv/instance");
        }
        other => panic!("unexpected {:?}", other),
    }
}

#[test]
fn launch_falls_back_to_game_under_data_dir() {
    let o = options(ModLoader::Vanilla, "1.20.1");
    assert!(matches!(
        launch_step(&o, LaunchEvent::VersionFetched(Ok(sample_version()))),
        LaunchAction::LocateDataDir(_)
    ));
    for (data_dir, expected) in [("/home/u/.local/share/mc-launcher", "/home/u/.local/share/mc-launcher/game"), ("/data/", "/data/game")] {
        match launch_step(&o, LaunchEvent::DataDirLocated(sample_version(), data_dir.to_string())) {
            LaunchAction::RunGame { version, game_dir } => {
                assert_eq!(version, sample_version());
                assert_eq!(game_dir, expected);
            }
            other => panic!("unexpected {:?}", other),
        }
    }
}
