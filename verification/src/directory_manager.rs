//! Derivation of the on-disk layout from the game root directory. The root
//! itself depends on the host (home directory, environment), so callers pass
//! it in; every path below it is a pure derivation.
use vstd::prelude::*;

verus! {

fn joined(base: &str, suffix: &str) -> (r: String)
    ensures
        r@ == base@ + suffix@,
{
    let mut out = base.to_owned();
    out.append(suffix);
    out
}

/// The shared library tree under the game root.
pub fn get_libraries_directory(root: &str) -> (r: String)
    ensures
        r@ == root@ + "/libraries"@,
{
    joined(root, "/libraries")
}

/// The version tree under the game root.
pub fn get_versions_directory(root: &str) -> (r: String)
    ensures
        r@ == root@ + "/versions"@,
{
    joined(root, "/versions")
}

/// The directory of one version.
pub fn get_version_directory(root: &str, version: &String) -> (r: String)
    ensures
        r@ == root@ + "/versions"@ + "/"@ + version@,
{
    let mut out = get_versions_directory(root);
    out.append("/");
    out.append(version.as_str());
    out
}

/// The directory that native libraries of one version are extracted into.
pub fn get_natives_folder(root: &str, version: &String) -> (r: String)
    ensures
        r@ == root@ + "/versions"@ + "/"@ + version@ + "/natives"@,
{
    let mut out = get_version_directory(root, version);
    out.append("/natives");
    out
}

/// The asset tree under the game root.
pub fn get_assets_directory(root: &str) -> (r: String)
    ensures
        r@ == root@ + "/assets"@,
{
    joined(root, "/assets")
}

/// The launcher's own state directory under the game root.
pub fn get_falcon_launcher_directory(root: &str) -> (r: String)
    ensures
        r@ == root@ + "/falconlauncher"@,
{
    joined(root, "/falconlauncher")
}

/// The managed Java installations directory.
pub fn get_launcher_java_directory(root: &str) -> (r: String)
    ensures
        r@ == root@ + "/falconlauncher"@ + "/java"@,
{
    let mut out = get_falcon_launcher_directory(root);
    out.append("/java");
    out
}

/// The mods directory under the game root.
pub fn get_mods_folder(root: &str) -> (r: String)
    ensures
        r@ == root@ + "/mods"@,
{
    joined(root, "/mods")
}

/// The profiles file kept by the launcher.
pub fn get_profiles_file(root: &str) -> (r: String)
    ensures
        r@ == root@ + "/falconlauncher"@ + "/profiles.json"@,
{
    let mut out = get_falcon_launcher_directory(root);
    out.append("/profiles.json");
    out
}

/// The launcher's scratch directory.
pub fn get_temp_directory(root: &str) -> (r: String)
    ensures
        r@ == root@ + "/falconlauncher"@ + "/temp"@,
{
    let mut out = get_falcon_launcher_directory(root);
    out.append("/temp");
    out
}

/// The launcher's settings file.
pub fn get_config_directory(root: &str) -> (r: String)
    ensures
        r@ == root@ + "/falconlauncher"@ + "/launcher-settings.ini"@,
{
    let mut out = get_falcon_launcher_directory(root);
    out.append("/launcher-settings.ini");
    out
}

} // verus!
