use falcon_launcher::descriptor::{version_descriptor_from_value, ArgTemplate, VersionDescriptor};
use falcon_launcher::errors::LauncherError;
use falcon_launcher::jsonval::json_parse;
use falcon_launcher::launch::{
    build_classpath, build_launch_command, get_launch_args, substitute_token, LaunchContext,
};
use falcon_launcher::version::{path_identity, MinecraftVersion};

fn ctx() -> LaunchContext {
    LaunchContext {
        username: "Steve".to_string(),
        version_id: "1.20.1".to_string(),
        game_directory: "/mc".to_string(),
        assets_root: "/mc/assets".to_string(),
        resources_directory: "/mc/resources".to_string(),
        asset_index: "5".to_string(),
        player_uuid: "uuid-1234".to_string(),
        access_token: "accessToken123".to_string(),
        user_properties: "{}".to_string(),
        user_type: "legacy".to_string(),
        version_type: "release".to_string(),
        client_id: "client-1".to_string(),
        xuid: "0".to_string(),
    }
}

fn bare_descriptor(id: &str, arguments: ArgTemplate) -> VersionDescriptor {
    VersionDescriptor {
        id: id.to_string(),
        main_class: Some("net.minecraft.client.main.Main".to_string()),
        inherits_from: None,
        java_major: None,
        asset_index: None,
        client: None,
        libraries: Vec::new(),
        arguments,
        version_type: Some("release".to_string()),
    }
}

#[test]
fn legacy_template_splits_on_spaces() {
    let d = bare_descriptor(
        "1.7.10",
        ArgTemplate::Legacy("--username ${auth_player_name} --gameDir ${game_directory}".to_string()),
    );
    let args = get_launch_args(&d);
    assert_eq!(
        args,
        vec!["--username", "${auth_player_name}", "--gameDir", "${game_directory}"]
    );
}

#[test]
fn modern_template_keeps_plain_strings_only() {
    let text = r#"{
        "id": "1.20.1",
        "arguments": {"game": [
            "--username", "${auth_player_name}",
            {"rules": [{"action": "allow", "features": {"is_demo_user": true}}], "value": "--demo"}
        ]}
    }"#;
    let value = json_parse(text).unwrap();
    let d = version_descriptor_from_value(&value).unwrap();
    // the conditional entry is dropped at load
    assert_eq!(
        d.arguments,
        ArgTemplate::Modern(vec!["--username".to_string(), "${auth_player_name}".to_string()])
    );
}

#[test]
fn substitution_fills_every_placeholder() {
    let c = ctx();
    assert_eq!(substitute_token("${auth_player_name}", &c), "Steve");
    assert_eq!(substitute_token("${version_name}", &c), "1.20.1");
    assert_eq!(substitute_token("${game_directory}", &c), "/mc");
    assert_eq!(substitute_token("${assets_root}", &c), "/mc/assets");
    assert_eq!(substitute_token("${game_assets}", &c), "/mc/resources");
    assert_eq!(substitute_token("${assets_index_name}", &c), "5");
    assert_eq!(substitute_token("${auth_uuid}", &c), "uuid-1234");
    assert_eq!(substitute_token("${auth_access_token}", &c), "accessToken123");
    assert_eq!(substitute_token("${user_properties}", &c), "{}");
    assert_eq!(substitute_token("${user_type}", &c), "legacy");
    assert_eq!(substitute_token("${version_type}", &c), "release");
    assert_eq!(substitute_token("${clientid}", &c), "client-1");
    assert_eq!(substitute_token("${auth_xuid}", &c), "0");
    assert_eq!(substitute_token("plain", &c), "plain");
}

#[test]
fn fresh_context_uses_offline_placeholders() {
    let c = LaunchContext::with_fresh_client_id(
        "Steve".to_string(),
        "1.20.1".to_string(),
        "/mc".to_string(),
        "/mc/assets".to_string(),
        "/mc/resources".to_string(),
        "5".to_string(),
        "uuid-1234".to_string(),
        "release".to_string(),
    );
    assert_eq!(c.access_token, "accessToken123");
    assert_eq!(c.user_properties, "{}");
    assert_eq!(c.user_type, "legacy");
    assert_eq!(c.xuid, "0");
}

#[test]
fn classpath_puts_client_jar_first() {
    // overlay jar first, then the merged library list, one separator between all
    let cp = build_classpath(
        "/mc/versions/ov/ov.jar".to_string(),
        vec![
            "/mc/libraries/g/only/1.0/only-1.0.jar".to_string(),
            "/mc/libraries/g/a/2.0/a-2.0.jar".to_string(),
        ],
        ":".to_string(),
    );
    assert_eq!(
        cp,
        "/mc/versions/ov/ov.jar:/mc/libraries/g/only/1.0/only-1.0.jar:/mc/libraries/g/a/2.0/a-2.0.jar"
    );
}

#[test]
fn overlay_launch_merges_own_then_inherited_tokens() {
    // overlay and base fully installed; the overlay's tokens come first and
    // shared tokens appear once
    let own = bare_descriptor(
        "1.20.1-forge-47.2.0",
        ArgTemplate::Legacy("--username ${auth_player_name} --fml.forgeVersion 47.2.0".to_string()),
    );
    let base = bare_descriptor(
        "1.20.1",
        ArgTemplate::Legacy("--username ${auth_player_name} --version ${version_name}".to_string()),
    );
    let c = ctx();
    let cmd = build_launch_command(
        &own,
        &base,
        &c,
        "/java/bin/java".to_string(),
        &"/mc/versions/1.20.1/natives".to_string(),
        4096,
        &"/mc/versions/ov/ov.jar:/mc/libraries/a.jar".to_string(),
        "/mc".to_string(),
    )
    .unwrap();
    assert_eq!(cmd.main_class, "net.minecraft.client.main.Main");
    assert_eq!(
        cmd.jvm_args,
        vec![
            "-Djava.library.path=/mc/versions/1.20.1/natives",
            "-Xmx4096M",
            "-Xms2048M",
            "-cp",
            "/mc/versions/ov/ov.jar:/mc/libraries/a.jar",
        ]
    );
    assert_eq!(
        cmd.program_args,
        vec!["--username", "Steve", "--fml.forgeVersion", "47.2.0", "--version", "1.20.1"]
    );
}

#[test]
fn installed_overlay_classpath_is_merged_without_duplicate_identities() {
    // overlay and base both fully installed; the overlay jar leads, the
    // merged list follows, and no group-artifact identity appears twice
    let overlay = MinecraftVersion::from_id("1.20.1-forge-47.2.0".to_string(), "/mc/versions");
    let own = vec![
        "/mc/libraries/net/minecraftforge/forge/47.2.0/forge-47.2.0.jar".to_string(),
        "/mc/libraries/com/mojang/logging/1.0/logging-1.0.jar".to_string(),
    ];
    let inherited = vec![
        "/mc/libraries/com/mojang/logging/1.1/logging-1.1.jar".to_string(),
        "/mc/libraries/org/lwjgl/lwjgl/3.3.1/lwjgl-3.3.1.jar".to_string(),
    ];
    let merged = overlay.get_libraries(own, inherited);
    let identities: Vec<String> = merged.iter().map(|p| path_identity(p)).collect();
    for (i, a) in identities.iter().enumerate() {
        for b in identities.iter().skip(i + 1) {
            assert_ne!(a, b);
        }
    }
    let overlay_jar = format!("{}/{}.jar", overlay.version_path, overlay.id);
    let cp = build_classpath(overlay_jar.clone(), merged, ":".to_string());
    assert!(cp.starts_with(&format!("{overlay_jar}:")));
    assert_eq!(
        cp,
        "/mc/versions/1.20.1-forge-47.2.0/1.20.1-forge-47.2.0.jar:\
         /mc/libraries/net/minecraftforge/forge/47.2.0/forge-47.2.0.jar:\
         /mc/libraries/com/mojang/logging/1.1/logging-1.1.jar:\
         /mc/libraries/org/lwjgl/lwjgl/3.3.1/lwjgl-3.3.1.jar"
    );
}

#[test]
fn missing_main_class_is_fatal_with_build_id() {
    let mut own = bare_descriptor("1.20.1", ArgTemplate::Absent);
    own.main_class = None;
    let base = bare_descriptor("1.20.1", ArgTemplate::Absent);
    let r = build_launch_command(
        &own,
        &base,
        &ctx(),
        "/java/bin/java".to_string(),
        &"/mc/natives".to_string(),
        2048,
        &"cp".to_string(),
        "/mc".to_string(),
    );
    assert_eq!(r, Err(LauncherError::MissingRequiredField("1.20.1".to_string())));
}
