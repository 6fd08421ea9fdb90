use falcon_launcher::descriptor::{
    load_descriptor_text, locate_artifact, ClassifierInfo, LibraryEntry, LibraryInfo,
};
use falcon_launcher::errors::LauncherError;
use falcon_launcher::disk::DiskState;
use falcon_launcher::installer::descriptor_write_path;
use falcon_launcher::rules::{Rule, RuleAction};
use falcon_launcher::version::{
    get_downloaded_versions, get_library_paths, merge_version_lists, path_identity,
    MinecraftVersion, VersionBase,
};

fn plain_entry(name: &str, path: &str, url: &str, size: u64) -> LibraryEntry {
    LibraryEntry {
        name: name.to_string(),
        downloads_present: true,
        artifact: Some(LibraryInfo {
            name: name.to_string(),
            size,
            path: path.to_string(),
            url: url.to_string(),
        }),
        classifiers: None,
        rules: None,
    }
}

#[test]
fn base_classification_follows_folder_name() {
    let vd = "/mc/versions";
    assert_eq!(MinecraftVersion::from_id("1.20.1".to_string(), vd).base, VersionBase::VANILLA);
    assert_eq!(
        MinecraftVersion::from_id("1.20.1-forge-47.2.0".to_string(), vd).base,
        VersionBase::FORGE
    );
    assert_eq!(
        MinecraftVersion::from_id("fabric-loader-0.15.0-1.20.1".to_string(), vd).base,
        VersionBase::FABRIC
    );
    assert_eq!(
        MinecraftVersion::from_id("1.7.10-LiteLoader".to_string(), vd).base,
        VersionBase::LITELOADER
    );
    // "neoforge" contains "forge", and the forge check runs first
    assert_eq!(
        MinecraftVersion::from_id("neoforge-20.4".to_string(), vd).base,
        VersionBase::FORGE
    );
}

#[test]
fn json_path_is_dir_slash_id() {
    let v = MinecraftVersion::from_id("1.20.1".to_string(), "/mc/versions");
    assert_eq!(v.version_path, "/mc/versions/1.20.1");
    assert_eq!(v.get_json(), "/mc/versions/1.20.1/1.20.1.json");
}

#[test]
fn client_jar_sits_beside_the_descriptor() {
    let v = MinecraftVersion::from_id("1.20.1-forge-47.2.0".to_string(), "/mc/versions");
    assert_eq!(
        v.client_jar_path(),
        "/mc/versions/1.20.1-forge-47.2.0/1.20.1-forge-47.2.0.jar"
    );
}

#[test]
fn installed_is_derived_from_disk() {
    let v = MinecraftVersion::from_id("1.20.1".to_string(), "/mc/versions");
    let mut disk = DiskState::new();
    assert!(!v.is_installed(&disk));
    disk.record("/mc/versions/1.20.1/1.20.1.json".to_string(), 42);
    assert!(v.is_installed(&disk));
}

#[test]
fn inherited_resolves_to_base_or_self() {
    let v = MinecraftVersion::from_id("1.20.1-forge-47.2.0".to_string(), "/mc/versions");
    let same = v.get_inherited(&None, "/mc/versions");
    assert_eq!(same.id, v.id);
    assert_eq!(same.version_path, v.version_path);
    let base = v.get_inherited(&Some("1.20.1".to_string()), "/mc/versions");
    assert_eq!(base.id, "1.20.1");
    assert_eq!(base.version_path, "/mc/versions/1.20.1");
    assert_eq!(base.base, VersionBase::VANILLA);
}

#[test]
fn descriptor_round_trip_reports_installed() {
    // the installer writes into a folder whose name differs from the id
    let folder = "1.12.2-forge-installed".to_string();
    let internal_id = "1.12.2-forge1.12.2-14.23.5.2860".to_string();
    let path = descriptor_write_path("/mc/versions", &folder, &internal_id);
    let mut disk = DiskState::new();
    disk.record(path, 1000);
    let v = MinecraftVersion::new(internal_id.clone(), folder, "/mc/versions");
    assert!(v.is_installed(&disk));
    assert_eq!(v.id, internal_id);
}

#[test]
fn absent_descriptor_is_a_sentinel_not_an_error() {
    assert_eq!(load_descriptor_text(None), Ok(None));
    assert_eq!(
        load_descriptor_text(Some("{ not json")),
        Err(LauncherError::ManifestCorrupt)
    );
    assert_eq!(
        load_descriptor_text(Some("{}")),
        Err(LauncherError::MissingRequiredField("id".to_string()))
    );
    let d = load_descriptor_text(Some(r#"{"id": "1.20.1", "inheritsFrom": "1.20"}"#))
        .unwrap()
        .unwrap();
    assert_eq!(d.id, "1.20.1");
    assert_eq!(d.inherits_from, Some("1.20".to_string()));
}

#[test]
fn library_paths_resolve_dedup_and_respect_rules() {
    let disk = DiskState::new();
    let entries = vec![
        plain_entry("g:a:1.0", "g/a/1.0/a-1.0.jar", "https://repo/g/a/1.0/a-1.0.jar", 10),
        // same resolved path again: first occurrence wins, no duplicate
        plain_entry("g:a:1.0", "g/a/1.0/a-1.0.jar", "https://repo/g/a/1.0/a-1.0.jar", 10),
        // denied on linux
        LibraryEntry {
            rules: Some(vec![Rule { action: RuleAction::Allow, os: Some("osx".to_string()) }]),
            ..plain_entry("g:b:1.0", "g/b/1.0/b-1.0.jar", "https://repo/g/b/1.0/b-1.0.jar", 10)
        },
    ];
    let paths = get_library_paths(&entries, "linux", "/mc/libraries", &disk);
    assert_eq!(paths, vec!["/mc/libraries/g/a/1.0/a-1.0.jar"]);
}

#[test]
fn boundary_entry_contributes_nothing() {
    // no rules, no downloads.artifact, no classifier for this platform:
    // nothing lands on the classpath and nothing fails
    let entry = LibraryEntry {
        name: "g:src:1.0".to_string(),
        downloads_present: true,
        artifact: None,
        classifiers: Some(vec![ClassifierInfo {
            key: "natives-windows".to_string(),
            path: Some("g/src/1.0/src-natives.jar".to_string()),
            url: "https://repo/src-natives.jar".to_string(),
            size: 5,
        }]),
        rules: None,
    };
    assert!(locate_artifact(&entry, "linux").is_none());
    let disk = DiskState::new();
    let paths = get_library_paths(&vec![entry], "linux", "/mc/libraries", &disk);
    assert!(paths.is_empty());
}

#[test]
fn classifier_path_derived_from_url_when_absent() {
    let entry = LibraryEntry {
        name: "g:n:1.0".to_string(),
        downloads_present: true,
        artifact: None,
        classifiers: Some(vec![ClassifierInfo {
            key: "natives-linux".to_string(),
            path: None,
            url: "https://libraries.example.net/g/n/1.0/n-natives-linux.jar".to_string(),
            size: 5,
        }]),
        rules: None,
    };
    let located = locate_artifact(&entry, "linux").unwrap();
    assert_eq!(located.rel_path, "g/n/1.0/n-natives-linux.jar");
}

#[test]
fn windows_falls_back_to_natives_64() {
    let entry = LibraryEntry {
        name: "g:n:1.0".to_string(),
        downloads_present: true,
        artifact: None,
        classifiers: Some(vec![ClassifierInfo {
            key: "natives-windows-64".to_string(),
            path: Some("g/n/1.0/n-win64.jar".to_string()),
            url: "https://repo/n-win64.jar".to_string(),
            size: 5,
        }]),
        rules: None,
    };
    assert!(locate_artifact(&entry, "linux").is_none());
    let located = locate_artifact(&entry, "windows").unwrap();
    assert_eq!(located.rel_path, "g/n/1.0/n-win64.jar");
}

#[test]
fn path_identity_drops_version_and_file() {
    assert_eq!(
        path_identity("/mc/libraries/com/example/artifact/2.0/artifact-2.0.jar"),
        "/mc/libraries/com/example/artifact"
    );
    assert_eq!(path_identity("short"), "short");
}

#[test]
fn merge_prefers_base_copy_for_shared_identity() {
    let v = MinecraftVersion::from_id("1.20.1-forge-47.2.0".to_string(), "/mc/versions");
    let own = vec![
        "/mc/libraries/g/a/1.0/a-1.0.jar".to_string(),
        "/mc/libraries/g/only/1.0/only-1.0.jar".to_string(),
    ];
    let inherited = vec!["/mc/libraries/g/a/2.0/a-2.0.jar".to_string()];
    let merged = v.get_libraries(own, inherited);
    // the overlay's copy of g:a is overridden by the base's
    assert_eq!(
        merged,
        vec![
            "/mc/libraries/g/only/1.0/only-1.0.jar".to_string(),
            "/mc/libraries/g/a/2.0/a-2.0.jar".to_string(),
        ]
    );
}

#[test]
fn merge_appends_base_without_exact_duplicates() {
    let v = MinecraftVersion::from_id("1.20.1-forge-47.2.0".to_string(), "/mc/versions");
    let shared = "/mc/libraries/g/c/1.0/c-1.0.jar".to_string();
    let own = vec![shared.clone()];
    let inherited = vec![shared.clone(), "/mc/libraries/g/d/1.0/d-1.0.jar".to_string()];
    let merged = v.get_libraries(own, inherited);
    assert_eq!(
        merged,
        vec![shared, "/mc/libraries/g/d/1.0/d-1.0.jar".to_string()]
    );
}

#[test]
fn downloaded_versions_map_discovered_folders() {
    let discovered = vec![
        ("/mc/versions/1.20.1".to_string(), "1.20.1".to_string()),
        ("/mc/versions/forge-thing".to_string(), "1.20.1-forge-47.2.0".to_string()),
    ];
    let vs = get_downloaded_versions(&discovered);
    assert_eq!(vs.len(), 2);
    assert_eq!(vs[0].id, "1.20.1");
    assert_eq!(vs[0].base, VersionBase::VANILLA);
    assert_eq!(vs[1].version_path, "/mc/versions/forge-thing");
    assert_eq!(vs[1].base, VersionBase::FORGE);
}

#[test]
fn merge_version_lists_skips_known_builds() {
    let a = MinecraftVersion::from_id("1.20.1".to_string(), "/mc/versions");
    let b = MinecraftVersion::from_id("1.19.4".to_string(), "/mc/versions");
    let merged = merge_version_lists(
        vec![a.clone()],
        vec![a.clone(), b.clone()],
    );
    assert_eq!(merged.len(), 2);
    assert_eq!(merged[0].id, "1.20.1");
    assert_eq!(merged[1].id, "1.19.4");
}
