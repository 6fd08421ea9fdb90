use falcon_launcher::acquire::{
    asset_objects_from_value, check_sized_download, descriptor_fetch_action, plan_asset_index,
    plan_asset_objects, plan_client, plan_libraries, process_download_results, AcquireStep,
};
use falcon_launcher::descriptor::version_descriptor_from_value;
use falcon_launcher::disk::{verify_file_existence, DiskState};
use falcon_launcher::errors::LauncherError;
use falcon_launcher::jsonval::json_parse;
use falcon_launcher::manifest::VersionInfo;
use falcon_launcher::manifest::VersionType;
use falcon_launcher::version::MinecraftVersion;

const DESCRIPTOR_TEXT: &str = r#"{
    "id": "1.20.1",
    "mainClass": "net.minecraft.client.main.Main",
    "downloads": {"client": {"url": "https://example/client.jar", "size": 100}},
    "libraries": [
        {
            "name": "g:a:1.0",
            "downloads": {"artifact": {"path": "g/a/1.0/a-1.0.jar", "url": "https://example/a.jar", "size": 10}}
        },
        {
            "name": "g:n:1.0",
            "downloads": {"classifiers": {"natives-linux": {"path": "g/n/1.0/n-linux.jar", "url": "https://example/n.jar", "size": 20}}}
        }
    ],
    "arguments": {"game": ["--username", "${auth_player_name}"]}
}"#;

fn urls_of(step: &AcquireStep) -> Vec<String> {
    match step {
        AcquireStep::Download { urls, .. } => urls.clone(),
        _ => panic!("expected a download step"),
    }
}

fn dest_of(step: &AcquireStep) -> String {
    match step {
        AcquireStep::Download { dest, .. } => dest.clone(),
        AcquireStep::ExtractNatives { archive, .. } => archive.clone(),
    }
}

#[test]
fn fresh_install_downloads_descriptor_then_artifacts() {
    // manifest entry known, nothing on disk, network reachable
    let version = MinecraftVersion::from_id("1.20.1".to_string(), "/mc/versions");
    let entry = VersionInfo {
        id: "1.20.1".to_string(),
        version_type: VersionType::Release,
        url: "https://example/1.20.1.json".to_string(),
        time: "t".to_string(),
        release_time: "rt".to_string(),
    };
    let mut disk = DiskState::new();
    let action = descriptor_fetch_action(&version, "/mc/versions", false, Some(&entry), true)
        .unwrap()
        .unwrap();
    assert_eq!(urls_of(&action), vec!["https://example/1.20.1.json"]);
    assert_eq!(dest_of(&action), "/mc/versions/1.20.1/1.20.1.json");

    // the descriptor arrives and parses
    disk.record(dest_of(&action), 1);
    let value = json_parse(DESCRIPTOR_TEXT).unwrap();
    let descriptor = version_descriptor_from_value(&value).unwrap();
    assert_eq!(descriptor.id, "1.20.1");
    assert!(descriptor.inherits_from.is_none());

    // everything is missing: client jar and both library artifacts owed
    let client_steps = plan_client(&descriptor, "/mc/versions", &disk);
    assert_eq!(client_steps.len(), 1);
    assert_eq!(dest_of(&client_steps[0]), "/mc/versions/1.20.1/1.20.1.jar");
    let natives_dir = "/mc/versions/1.20.1/natives".to_string();
    let lib_steps = plan_libraries(
        &descriptor.libraries,
        "linux",
        "/mc/libraries",
        &natives_dir,
        &disk,
    );
    // artifact download, then natives download and natives extraction
    assert_eq!(lib_steps.len(), 3);
    assert_eq!(dest_of(&lib_steps[0]), "/mc/libraries/g/a/1.0/a-1.0.jar");
    assert_eq!(dest_of(&lib_steps[1]), "/mc/libraries/g/n/1.0/n-linux.jar");
    assert!(matches!(lib_steps[2], AcquireStep::ExtractNatives { .. }));

    // apply every download at its declared size
    disk.record("/mc/versions/1.20.1/1.20.1.jar".to_string(), 100);
    disk.record("/mc/libraries/g/a/1.0/a-1.0.jar".to_string(), 10);
    disk.record("/mc/libraries/g/n/1.0/n-linux.jar".to_string(), 20);

    // the build is installed, and a second acquisition owes no download
    assert!(version.is_installed(&disk));
    assert!(plan_client(&descriptor, "/mc/versions", &disk).is_empty());
    let second = plan_libraries(
        &descriptor.libraries,
        "linux",
        "/mc/libraries",
        &natives_dir,
        &disk,
    );
    // only the unconditional natives re-extraction remains
    assert_eq!(second.len(), 1);
    assert!(matches!(second[0], AcquireStep::ExtractNatives { .. }));
}

#[test]
fn not_installed_and_unreachable_is_not_acquirable() {
    let version = MinecraftVersion::from_id("1.20.1".to_string(), "/mc/versions");
    let r = descriptor_fetch_action(&version, "/mc/versions", false, None, true);
    assert_eq!(r, Err(LauncherError::NotAcquirable("1.20.1".to_string())));
    let entry = VersionInfo {
        id: "1.20.1".to_string(),
        version_type: VersionType::Release,
        url: "https://example/1.20.1.json".to_string(),
        time: "t".to_string(),
        release_time: "rt".to_string(),
    };
    let r = descriptor_fetch_action(&version, "/mc/versions", false, Some(&entry), false);
    assert_eq!(r, Err(LauncherError::NotAcquirable("1.20.1".to_string())));
    // already installed: nothing to do, never an error
    let r = descriptor_fetch_action(&version, "/mc/versions", true, None, false);
    assert_eq!(r, Ok(None));
}

#[test]
fn size_mismatch_retries_once_then_fails_naming_the_library() {
    let label = "g:a:1.0".to_string();
    assert_eq!(check_sized_download(10, 10, false, &label), Ok(true));
    assert_eq!(check_sized_download(0, 999, false, &label), Ok(true));
    assert_eq!(check_sized_download(10, 9, false, &label), Ok(false));
    assert_eq!(
        check_sized_download(10, 9, true, &label),
        Err(LauncherError::SizeMismatch(label.clone()))
    );
}

#[test]
fn first_persistent_mismatch_stops_the_run() {
    let plan = vec![
        AcquireStep::Download {
            urls: vec!["u1".to_string()],
            dest: "d1".to_string(),
            size: 10,
            label: "g:a:1.0".to_string(),
        },
        AcquireStep::Download {
            urls: vec!["u2".to_string()],
            dest: "d2".to_string(),
            size: 20,
            label: "g:b:1.0".to_string(),
        },
        AcquireStep::Download {
            urls: vec!["u3".to_string()],
            dest: "d3".to_string(),
            size: 30,
            label: "g:c:1.0".to_string(),
        },
    ];
    // first artifact recovers on retry; second stays wrong; third is never judged
    let first = vec![9, 19, 29];
    let retry = vec![10, 19, 30];
    assert_eq!(
        process_download_results(&plan, &first, &retry),
        Err(LauncherError::SizeMismatch("g:b:1.0".to_string()))
    );
    let all_good = vec![10, 20, 30];
    assert_eq!(process_download_results(&plan, &all_good, &all_good), Ok(3));
}

#[test]
fn asset_objects_use_content_addressed_layout() {
    let text = r#"{"objects": {"icons/icon_16x16.png": {"hash": "bdf48ef6b5d0d23bbb02e17d04865216179f510a", "size": 3665}}}"#;
    let value = json_parse(text).unwrap();
    let objects = asset_objects_from_value(&value).unwrap();
    assert_eq!(objects.len(), 1);
    let disk = DiskState::new();
    let steps = plan_asset_objects(&objects, "/mc/assets", &disk);
    assert_eq!(steps.len(), 1);
    match &steps[0] {
        AcquireStep::Download { urls, dest, size, .. } => {
            assert_eq!(
                urls,
                &vec![
                    "https://resources.download.minecraft.net/bd/bdf48ef6b5d0d23bbb02e17d04865216179f510a"
                        .to_string()
                ]
            );
            assert_eq!(
                dest,
                "/mc/assets/objects/bd/bdf48ef6b5d0d23bbb02e17d04865216179f510a"
            );
            assert_eq!(*size, 3665);
        },
        _ => panic!("expected a download step"),
    }
    // present at the right size: nothing owed
    let mut disk = DiskState::new();
    disk.record(
        "/mc/assets/objects/bd/bdf48ef6b5d0d23bbb02e17d04865216179f510a".to_string(),
        3665,
    );
    assert!(plan_asset_objects(&objects, "/mc/assets", &disk).is_empty());
}

#[test]
fn asset_index_downloaded_only_when_missing() {
    let ai = falcon_launcher::descriptor::AssetIndex {
        id: "5".to_string(),
        sha1: String::new(),
        size: 10,
        total_size: 1000,
        url: "https://example/5.json".to_string(),
    };
    let mut disk = DiskState::new();
    let steps = plan_asset_index(&ai, "/mc/assets", &disk);
    assert_eq!(steps.len(), 1);
    assert_eq!(dest_of(&steps[0]), "/mc/assets/indexes/5.json");
    disk.record("/mc/assets/indexes/5.json".to_string(), 7);
    assert!(plan_asset_index(&ai, "/mc/assets", &disk).is_empty());
}

#[test]
fn verify_file_existence_checks_size_unless_zero() {
    let mut disk = DiskState::new();
    let p = "/mc/file".to_string();
    assert!(!verify_file_existence(&p, 0, &disk));
    disk.record(p.clone(), 5);
    assert!(verify_file_existence(&p, 0, &disk));
    assert!(verify_file_existence(&p, 5, &disk));
    assert!(!verify_file_existence(&p, 6, &disk));
}

#[test]
fn plain_coordinate_uses_mirror_urls() {
    let entries = vec![falcon_launcher::descriptor::LibraryEntry {
        name: "lzma:lzma:0.0.1".to_string(),
        downloads_present: false,
        artifact: None,
        classifiers: None,
        rules: None,
    }];
    let disk = DiskState::new();
    let natives = "/mc/versions/x/natives".to_string();
    let steps = plan_libraries(&entries, "linux", "/mc/libraries", &natives, &disk);
    assert_eq!(steps.len(), 1);
    assert_eq!(
        urls_of(&steps[0]),
        vec![
            "https://maven.minecraftforge.net/lzma/lzma/0.0.1/lzma-0.0.1.jar".to_string(),
            "https://repo.spongepowered.org/maven/lzma/lzma/0.0.1/lzma-0.0.1.jar".to_string(),
        ]
    );
    let entries = vec![falcon_launcher::descriptor::LibraryEntry {
        name: "net.minecraft:launchwrapper:1.12".to_string(),
        downloads_present: false,
        artifact: None,
        classifiers: None,
        rules: None,
    }];
    let steps = plan_libraries(&entries, "linux", "/mc/libraries", &natives, &disk);
    assert_eq!(steps.len(), 1);
    assert_eq!(
        urls_of(&steps[0]),
        vec![
            "https://libraries.minecraft.net/net/minecraft/launchwrapper/1.12/launchwrapper-1.12.jar"
                .to_string()
        ]
    );
}
