use falcon_launcher::errors::LauncherError;
use falcon_launcher::fabric::{FabricInstaller, FabricLoader};
use falcon_launcher::installer::{
    descriptor_write_path, fabric_find_loader, fabric_find_stable_installer, fabric_install_args,
    forge_install_args, forge_installer_url, forge_uses_modern_installer, plan_profile_library,
    profile_version_source, ProfileLibStep, ProfileLibrary, ProfileVersionSource,
};
use falcon_launcher::jdk_manager::{java_download_url, java_executable_path};
use falcon_launcher::platform::parse_os;
use falcon_launcher::utils::{
    convert_to_full_path, convert_to_full_url, extend_once, get_core_version,
    parse_library_name_to_path,
};

#[test]
fn parse_os_lowercases_and_renames_darwin() {
    assert_eq!(parse_os("Darwin".to_string()), "osx");
    assert_eq!(parse_os("Windows".to_string()), "windows");
    assert_eq!(parse_os("LINUX".to_string()), "linux");
}

#[test]
fn forge_installer_url_shape() {
    assert_eq!(
        forge_installer_url(&"1.12.2-14.23.5.2860".to_string()),
        "https://maven.minecraftforge.net/net/minecraftforge/forge/1.12.2-14.23.5.2860/forge-1.12.2-14.23.5.2860-installer.jar"
    );
}

#[test]
fn forge_branch_by_minor_version() {
    // minor 12 is on the legacy side of the cutoff; minor 20 is modern
    assert_eq!(forge_uses_modern_installer(&"1.12.2-14.23.5.2860".to_string()), Ok(false));
    assert_eq!(forge_uses_modern_installer(&"1.20.1-47.2.0".to_string()), Ok(true));
    assert_eq!(forge_uses_modern_installer(&"1.13-25.0.9".to_string()), Ok(true));
    assert_eq!(
        forge_uses_modern_installer(&"garbage".to_string()),
        Err(LauncherError::ManifestCorrupt)
    );
    assert_eq!(
        forge_uses_modern_installer(&"1.x-47".to_string()),
        Err(LauncherError::ManifestCorrupt)
    );
}

#[test]
fn profile_version_source_prefers_embedded_info() {
    assert_eq!(profile_version_source(true, false), Ok(ProfileVersionSource::EmbeddedVersionInfo));
    assert_eq!(profile_version_source(true, true), Ok(ProfileVersionSource::EmbeddedVersionInfo));
    assert_eq!(profile_version_source(false, true), Ok(ProfileVersionSource::BundledVersionJson));
    assert_eq!(
        profile_version_source(false, false),
        Err(LauncherError::UnsupportedSchemaShape("versionInfo".to_string()))
    );
}

#[test]
fn profile_library_bundled_when_url_empty() {
    let lib = ProfileLibrary {
        name: "net.minecraftforge:forge:1.12.2".to_string(),
        url: "".to_string(),
        path: Some("net/minecraftforge/forge/1.12.2/forge-1.12.2.jar".to_string()),
    };
    assert_eq!(
        plan_profile_library(&lib, "/mc/libraries"),
        Ok(ProfileLibStep::CopyFromArchive {
            archive_path: "maven/net/minecraftforge/forge/1.12.2/forge-1.12.2.jar".to_string(),
            dest: "/mc/libraries/net/minecraftforge/forge/1.12.2/forge-1.12.2.jar".to_string(),
        })
    );
}

#[test]
fn profile_library_repository_base_completed() {
    let lib = ProfileLibrary {
        name: "lzma:lzma:0.0.1".to_string(),
        url: "https://repo.example/maven/".to_string(),
        path: None,
    };
    assert_eq!(
        plan_profile_library(&lib, "/mc/libraries"),
        Ok(ProfileLibStep::Download {
            url: "https://repo.example/maven/lzma/lzma/0.0.1/lzma-0.0.1.jar".to_string(),
            dest: "/mc/libraries/lzma/lzma/0.0.1/lzma-0.0.1.jar".to_string(),
        })
    );
}

#[test]
fn profile_library_full_url_and_declared_path() {
    let lib = ProfileLibrary {
        name: "g:a:1.0".to_string(),
        url: "https://direct.example/a-1.0.jar".to_string(),
        path: Some("custom/place/a-1.0.jar".to_string()),
    };
    assert_eq!(
        plan_profile_library(&lib, "/mc/libraries"),
        Ok(ProfileLibStep::Download {
            url: "https://direct.example/a-1.0.jar".to_string(),
            dest: "custom/place/a-1.0.jar".to_string(),
        })
    );
    let bad = ProfileLibrary { name: "g:a:1.0".to_string(), url: "".to_string(), path: None };
    assert_eq!(plan_profile_library(&bad, "/mc/libraries"), Err(LauncherError::ManifestCorrupt));
}

#[test]
fn descriptor_write_path_uses_internal_id() {
    assert_eq!(
        descriptor_write_path("/mc/versions", &"some-folder".to_string(), &"real-id".to_string()),
        "/mc/versions/some-folder/real-id.json"
    );
}

fn loader(version: &str, stable: bool) -> FabricLoader {
    FabricLoader {
        separator: ".".to_string(),
        build: 1,
        maven: "net.fabricmc:fabric-loader".to_string(),
        version: version.to_string(),
        stable,
    }
}

fn installer(version: &str, stable: bool) -> FabricInstaller {
    FabricInstaller {
        url: format!("https://example/installer-{version}.jar"),
        maven: format!("net.fabricmc:fabric-installer:{version}"),
        version: version.to_string(),
        stable,
    }
}

#[test]
fn fabric_loader_and_installer_selection() {
    let loaders = vec![loader("0.15.0", true), loader("0.14.24", true)];
    assert_eq!(fabric_find_loader(&loaders, "0.14.24").unwrap().version, "0.14.24");
    assert!(fabric_find_loader(&loaders, "9.9.9").is_none());
    let installers = vec![installer("1.0.1", false), installer("1.0.0", true)];
    assert_eq!(fabric_find_stable_installer(&installers).unwrap().version, "1.0.0");
    let none_stable = vec![installer("1.0.1", false)];
    assert!(fabric_find_stable_installer(&none_stable).is_none());
}

#[test]
fn forge_installer_invocation_args() {
    let args = forge_install_args(
        &"/mc/falconlauncher/temp/forge-1.20.1-47.2.0-installer.jar".to_string(),
        &"/mc".to_string(),
    );
    assert_eq!(
        args,
        vec![
            "-jar",
            "/mc/falconlauncher/temp/forge-1.20.1-47.2.0-installer.jar",
            "--installClient",
            "/mc",
        ]
    );
}

#[test]
fn fabric_installer_invocation_args() {
    let args = fabric_install_args(
        &"/tmp/installer.jar".to_string(),
        &"1.20.1".to_string(),
        &"0.15.0".to_string(),
        &"/mc".to_string(),
    );
    assert_eq!(
        args,
        vec!["-jar", "/tmp/installer.jar", "client", "-mcVersion", "1.20.1", "-loader", "0.15.0", "-dir", "/mc"]
    );
}

#[test]
fn java_urls_and_executables_per_platform() {
    assert_eq!(
        java_download_url("windows", &"8".to_string()),
        "https://corretto.aws/downloads/latest/amazon-corretto-8-x64-windows-jdk.zip"
    );
    assert_eq!(
        java_download_url("linux", &"17".to_string()),
        "https://corretto.aws/downloads/latest/amazon-corretto-17-x64-linux-jdk.tar.gz"
    );
    assert_eq!(
        java_download_url("osx", &"17".to_string()),
        "https://corretto.aws/downloads/latest/amazon-corretto-17-x64-macos-jdk.tar.gz"
    );
    assert_eq!(
        java_executable_path("/mc/falconlauncher/java", &"8".to_string(), "windows"),
        "/mc/falconlauncher/java/8/bin/javaw.exe"
    );
    assert_eq!(
        java_executable_path("/mc/falconlauncher/java", &"8".to_string(), "linux"),
        "/mc/falconlauncher/java/8/bin/java"
    );
}

#[test]
fn maven_coordinate_paths_and_urls() {
    assert_eq!(
        parse_library_name_to_path("com.example.group:artifact:2.1".to_string(), "/mc/libraries"),
        "/mc/libraries/com/example/group/artifact/2.1/artifact-2.1.jar"
    );
    assert_eq!(
        convert_to_full_url("https://maven.minecraftforge.net/".to_string(), "lzma:lzma:0.0.1".to_string()),
        "https://maven.minecraftforge.net/lzma/lzma/0.0.1/lzma-0.0.1.jar"
    );
    assert_eq!(
        convert_to_full_path("/mc/libraries".to_string(), &"lzma:lzma:0.0.1".to_string()),
        "/mc/libraries/lzma/lzma/0.0.1/lzma-0.0.1.jar"
    );
    assert_eq!(get_core_version(&"1.20.1".to_string()), "1.20");
    assert_eq!(get_core_version(&"1.19".to_string()), "1.19");
}

#[test]
fn extend_once_never_duplicates() {
    let a = vec!["x".to_string(), "y".to_string()];
    let b = vec!["y".to_string(), "z".to_string(), "z".to_string()];
    assert_eq!(extend_once(a, b), vec!["x", "y", "z"]);
}

#[test]
fn error_kind_names() {
    assert_eq!(LauncherError::NotReachable.kind_name(), "not reachable");
    assert_eq!(
        LauncherError::SizeMismatch("g:a:1".to_string()).kind_name(),
        "size mismatch"
    );
    assert_eq!(
        LauncherError::UnsupportedSchemaShape("versionInfo".to_string()).kind_name(),
        "unsupported schema shape"
    );
}
