use falcon_launcher::config::default_config;
use falcon_launcher::directory_manager::{
    get_assets_directory, get_config_directory, get_falcon_launcher_directory,
    get_launcher_java_directory, get_libraries_directory, get_mods_folder, get_natives_folder,
    get_profiles_file, get_temp_directory, get_version_directory, get_versions_directory,
};
use falcon_launcher::errors::LauncherError;
use falcon_launcher::jsonval::json_parse;
use falcon_launcher::manifest::{
    get_available_fabric_versions, get_available_forge_versions, get_categorized_versions,
    lookup_version, manifest_from_value, load_versions_through_json, Global, VersionLoader,
    VersionType,
};
use falcon_launcher::fabric::{FabricLoader, FabricMinecraftVersion};
use falcon_launcher::version::VersionBase;

const MANIFEST_TEXT: &str = r#"{
    "latest": {"release": "1.20.1", "snapshot": "23w31a"},
    "versions": [
        {"id": "23w31a", "type": "snapshot", "url": "https://example/23w31a.json", "time": "t0", "releaseTime": "r0"},
        {"id": "1.20.1", "type": "release", "url": "https://example/1.20.1.json", "time": "t1", "releaseTime": "r1"},
        {"id": "1.20", "type": "release", "url": "https://example/1.20.json", "time": "t2", "releaseTime": "r2"},
        {"id": "1.19.4", "type": "release", "url": "https://example/1.19.4.json", "time": "t3", "releaseTime": "r3"},
        {"id": "b1.8.1", "type": "old_beta", "url": "https://example/b1.8.1.json", "time": "t4", "releaseTime": "r4"},
        {"id": "a1.2.6", "type": "old_alpha", "url": "https://example/a1.2.6.json", "time": "t5", "releaseTime": "r5"}
    ]
}"#;

fn empty_cache() -> Global {
    Global { forge: None, fabric_loaders: None, fabric_installers: None, fabric_mc_versions: None }
}

#[test]
fn manifest_parses_and_looks_up() {
    let value = json_parse(MANIFEST_TEXT).unwrap();
    let m = manifest_from_value(&value).unwrap();
    assert_eq!(m.latest.release, "1.20.1");
    assert_eq!(m.versions.len(), 6);
    let v = lookup_version(&m, "1.20.1").unwrap();
    assert_eq!(v.url, "https://example/1.20.1.json");
    assert_eq!(v.version_type, VersionType::Release);
    assert!(lookup_version(&m, "2.0").is_none());
}

#[test]
fn corrupt_manifest_is_refused() {
    let value = json_parse(r#"{"versions": []}"#).unwrap();
    assert_eq!(manifest_from_value(&value), Err(LauncherError::ManifestCorrupt));
    let value = json_parse(
        r#"{"latest": {"release": "x", "snapshot": "y"}, "versions": [{"id": "1.0", "type": "weird", "url": "u", "time": "t", "releaseTime": "r"}]}"#,
    )
    .unwrap();
    assert_eq!(manifest_from_value(&value), Err(LauncherError::ManifestCorrupt));
}

#[test]
fn filtering_keeps_wanted_kinds_in_order() {
    let value = json_parse(MANIFEST_TEXT).unwrap();
    let m = manifest_from_value(&value).unwrap();
    let vs = load_versions_through_json(&m, &vec![VersionType::Release], "/mc/versions");
    let ids: Vec<&str> = vs.iter().map(|v| v.id.as_str()).collect();
    assert_eq!(ids, vec!["1.20.1", "1.20", "1.19.4"]);
    let vs = load_versions_through_json(
        &m,
        &vec![VersionType::Release, VersionType::Snapshot],
        "/mc/versions",
    );
    assert_eq!(vs.len(), 4);
    assert_eq!(vs[0].id, "23w31a");
}

#[test]
fn forge_cache_lookup_by_game_version() {
    let mut cache = empty_cache();
    assert!(get_available_forge_versions(&cache, &"1.20.1".to_string()).is_empty());
    cache.forge = Some(vec![
        ("1.20.1".to_string(), vec!["1.20.1-47.2.0".to_string(), "1.20.1-47.1.0".to_string()]),
        ("1.19.4".to_string(), vec!["1.19.4-45.1.0".to_string()]),
    ]);
    assert_eq!(
        get_available_forge_versions(&cache, &"1.20.1".to_string()),
        vec!["1.20.1-47.2.0", "1.20.1-47.1.0"]
    );
    assert!(get_available_forge_versions(&cache, &"1.18".to_string()).is_empty());
}

fn loader(version: &str, stable: bool) -> FabricLoader {
    FabricLoader {
        separator: ".".to_string(),
        build: 1,
        maven: "net.fabricmc:fabric-loader".to_string(),
        version: version.to_string(),
        stable,
    }
}

#[test]
fn fabric_offerings_need_known_game_version_and_loaders() {
    let mut cache = empty_cache();
    assert!(get_available_fabric_versions(&cache, &"1.20.1".to_string()).is_empty());
    cache.fabric_mc_versions = Some(vec![FabricMinecraftVersion {
        version: "1.20.1".to_string(),
        stable: true,
    }]);
    assert!(get_available_fabric_versions(&cache, &"1.20.1".to_string()).is_empty());
    cache.fabric_loaders = Some(vec![loader("0.15.0", true), loader("0.14.24", true)]);
    assert_eq!(
        get_available_fabric_versions(&cache, &"1.20.1".to_string()),
        vec!["1.20.1-0.15.0", "1.20.1-0.14.24"]
    );
    assert!(get_available_fabric_versions(&cache, &"1.7.10".to_string()).is_empty());
}

#[test]
fn categorization_groups_by_core_version() {
    let value = json_parse(MANIFEST_TEXT).unwrap();
    let m = manifest_from_value(&value).unwrap();
    let mut cache = empty_cache();
    cache.forge = Some(vec![(
        "1.20.1".to_string(),
        vec!["1.20.1-47.2.0".to_string()],
    )]);
    let cats = get_categorized_versions(&m, false, true, &cache);
    // Snapshot, 1.20, 1.19, Beta, Alpha
    assert_eq!(cats.len(), 5);
    assert_eq!(cats[0].name, "Snapshot");
    assert_eq!(cats[0].versions.len(), 1);
    assert_eq!(cats[0].versions[0].id, "23w31a");
    assert_eq!(cats[1].name, "1.20");
    let ids: Vec<&str> = cats[1].versions.iter().map(|v| v.id.as_str()).collect();
    assert_eq!(ids, vec!["1.20.1", "1.20.1-47.2.0", "1.20"]);
    assert_eq!(cats[1].versions[1].base, VersionBase::FORGE);
    assert_eq!(cats[1].versions[1].date, "FORGE");
    assert_eq!(cats[2].name, "1.19");
    assert_eq!(cats[2].versions.len(), 1);
    assert_eq!(cats[3].name, "Beta");
    assert_eq!(cats[3].versions[0].id, "b1.8.1");
    assert_eq!(cats[4].name, "Alpha");
    assert_eq!(cats[4].versions[0].id, "a1.2.6");
}

#[test]
fn installed_ids_per_loader_family() {
    let v = VersionLoader {
        id: "1.20.1".to_string(),
        base: VersionBase::VANILLA,
        date: "d".to_string(),
    };
    assert_eq!(v.get_installed_id(), "1.20.1");
    let f = VersionLoader {
        id: "1.20.1-47.2.0".to_string(),
        base: VersionBase::FORGE,
        date: "d".to_string(),
    };
    assert_eq!(f.get_installed_id(), "1.20.1-forge-47.2.0");
    let fb = VersionLoader {
        id: "1.20.1-0.15.0".to_string(),
        base: VersionBase::FABRIC,
        date: "d".to_string(),
    };
    assert_eq!(fb.get_installed_id(), "fabric-loader-0.15.0-1.20.1");
    assert_eq!(fb.get_fabric_version_id(), "1.20.1");
    assert_eq!(fb.get_fabric_loader_id(), "0.15.0");
}

#[test]
fn directory_layout_under_root() {
    let root = "/home/user/.minecraft";
    assert_eq!(get_libraries_directory(root), "/home/user/.minecraft/libraries");
    assert_eq!(get_versions_directory(root), "/home/user/.minecraft/versions");
    assert_eq!(
        get_version_directory(root, &"1.20.1".to_string()),
        "/home/user/.minecraft/versions/1.20.1"
    );
    assert_eq!(
        get_natives_folder(root, &"1.20.1".to_string()),
        "/home/user/.minecraft/versions/1.20.1/natives"
    );
    assert_eq!(get_assets_directory(root), "/home/user/.minecraft/assets");
    assert_eq!(get_falcon_launcher_directory(root), "/home/user/.minecraft/falconlauncher");
    assert_eq!(
        get_launcher_java_directory(root),
        "/home/user/.minecraft/falconlauncher/java"
    );
    assert_eq!(get_mods_folder(root), "/home/user/.minecraft/mods");
    assert_eq!(
        get_profiles_file(root),
        "/home/user/.minecraft/falconlauncher/profiles.json"
    );
    assert_eq!(get_temp_directory(root), "/home/user/.minecraft/falconlauncher/temp");
    assert_eq!(
        get_config_directory(root),
        "/home/user/.minecraft/falconlauncher/launcher-settings.ini"
    );
}

#[test]
fn default_config_values() {
    let c = default_config(Vec::new());
    assert_eq!(c.launch_options.username, "Steve");
    assert_eq!(c.launch_options.ram_usage, 2048);
    assert_eq!(c.launcher_settings.language, "en");
    assert!(c.versions.is_empty());
}
