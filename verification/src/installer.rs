//! Overlay installer decision logic. The forge-class flow branches between
//! running a fetched installer externally (modern builds) and unpacking the
//! installer archive's install profile (legacy builds); the fabric-class
//! flow is a single external invocation. Archive reading and process
//! spawning happen outside; every choice about what to copy, fetch, or run
//! is made here.
use vstd::prelude::*;

use crate::disk::DiskState;
use crate::errors::LauncherError;
use crate::fabric::{FabricInstaller, FabricLoader};
use crate::text::{
    ends_with_str, parse_u32, seq_views, spec_digits_val, spec_ends_with, spec_is_digits,
    spec_split, split_char,
};
use crate::utils::{convert_to_full_path, convert_to_full_url, maven_rel_path,
    spec_maven_rel_path};
use crate::version::MinecraftVersion;

verus! {

/// Base builds whose minor version is above this install through the
/// archive's install profile; newer ones run the fetched installer as an
/// external process. The one-level bound is deliberate and tested.
pub const LEGACY_MINOR_CUTOFF: u32 = 12;

/// The installer artifact URL for a forge-class version string.
pub fn forge_installer_url(version: &String) -> (r: String)
    ensures
        r@ == "https://maven.minecraftforge.net/net/minecraftforge/forge/"@ + version@
            + "/forge-"@ + version@ + "-installer.jar"@,
{
    let mut out = "https://maven.minecraftforge.net/net/minecraftforge/forge/".to_owned();
    out.append(version.as_str());
    out.append("/forge-");
    out.append(version.as_str());
    out.append("-installer.jar");
    out
}

/// The minor component of the base game version inside a forge version
/// string such as "1.12.2-14.23.5.2860".
pub open spec fn spec_forge_minor(version: Seq<char>) -> Seq<char> {
    spec_split(spec_split(version, '-')[0], '.')[1]
}

/// Decides the install path for a forge-class version string: `true` means
/// the modern external-installer path. A version string whose base game
/// version has no readable minor component cannot be installed.
pub fn forge_uses_modern_installer(version: &String) -> (r: Result<bool, LauncherError>)
    ensures
        match r {
            Ok(modern) => {
                &&& spec_split(spec_split(version@, '-')[0], '.').len() >= 2
                &&& spec_is_digits(spec_forge_minor(version@))
                &&& modern == (spec_digits_val(spec_forge_minor(version@))
                    > LEGACY_MINOR_CUTOFF as int)
            },
            Err(e) => e == LauncherError::ManifestCorrupt,
        },
        r is Err <==> !(spec_split(spec_split(version@, '-')[0], '.').len() >= 2 && spec_is_digits(
            spec_forge_minor(version@),
        ) && spec_digits_val(spec_forge_minor(version@)) <= u32::MAX as int),
{
    let dash_parts = split_char(version.as_str(), '-');
    proof {
        assert(seq_views(dash_parts@)[0] == dash_parts@[0]@);
    }
    let dot_parts = split_char(dash_parts[0].as_str(), '.');
    if dot_parts.len() < 2 {
        return Err(LauncherError::ManifestCorrupt);
    }
    proof {
        assert(seq_views(dot_parts@)[1] == dot_parts@[1]@);
    }
    match parse_u32(dot_parts[1].as_str()) {
        Option::Some(minor) => Ok(minor > LEGACY_MINOR_CUTOFF),
        Option::None => Err(LauncherError::ManifestCorrupt),
    }
}

/// Where the embedded version descriptor of an install profile comes from.
#[derive(Debug, Clone, Copy, PartialEq, Eq, Structural)]
pub enum ProfileVersionSource {
    /// The profile's own embedded version-info block.
    EmbeddedVersionInfo,
    /// A version document bundled beside the profile in the archive.
    BundledVersionJson,
}

/// Picks the version-descriptor source of an install profile; a profile
/// offering neither shape is not installable.
pub fn profile_version_source(
    has_version_info: bool,
    has_bundled_version_json: bool,
) -> (r: Result<ProfileVersionSource, LauncherError>)
    ensures
        match r {
            Ok(src) => match src {
                ProfileVersionSource::EmbeddedVersionInfo => has_version_info,
                ProfileVersionSource::BundledVersionJson => !has_version_info
                    && has_bundled_version_json,
            },
            Err(e) => !has_version_info && !has_bundled_version_json && (e matches
                LauncherError::UnsupportedSchemaShape(s) && s@ == "versionInfo"@),
        },
{
    if has_version_info {
        Ok(ProfileVersionSource::EmbeddedVersionInfo)
    } else if has_bundled_version_json {
        Ok(ProfileVersionSource::BundledVersionJson)
    } else {
        Err(LauncherError::UnsupportedSchemaShape("versionInfo".to_owned()))
    }
}

/// One dependency named by an install profile.
#[derive(Debug, Clone, PartialEq, Eq)]
pub struct ProfileLibrary {
    pub name: String,
    pub url: String,
    pub path: Option<String>,
}

/// What to do for one profile library.
#[derive(Debug, Clone, PartialEq, Eq)]
pub enum ProfileLibStep {
    /// The bytes are bundled in the installer archive under `archive_path`;
    /// copy them to `dest`.
    CopyFromArchive { archive_path: String, dest: String },
    /// Fetch `url` to `dest` unless the file already exists.
    Download { url: String, dest: String },
}

/// Decides how one profile library is materialized: an empty URL means the
/// artifact is bundled in the archive under `maven/<path>`; a URL ending in
/// a slash is a repository base completed from the coordinate; the on-disk
/// path is the declared one, or derived from the coordinate.
pub fn plan_profile_library(lib: &ProfileLibrary, libraries_dir: &str) -> (r: Result<
    ProfileLibStep,
    LauncherError,
>)
    ensures
        match r {
            Ok(step) => match step {
                ProfileLibStep::CopyFromArchive { archive_path, dest } => {
                    &&& lib.url@.len() == 0
                    &&& lib.path is Some
                    &&& archive_path@ == "maven/"@ + lib.path->Some_0@
                    &&& dest@ == libraries_dir@ + "/"@ + lib.path->Some_0@
                },
                ProfileLibStep::Download { url, dest } => {
                    &&& lib.url@.len() > 0
                    &&& url@ == (if spec_ends_with(lib.url@, "/"@) {
                        lib.url@ + spec_maven_rel_path(lib.name@)
                    } else {
                        lib.url@
                    })
                    &&& dest@ == (match lib.path {
                        Option::Some(p) => p@,
                        Option::None => libraries_dir@ + "/"@ + spec_maven_rel_path(lib.name@),
                    })
                },
            },
            Err(e) => e == LauncherError::ManifestCorrupt,
        },
        r is Err <==> ((lib.url@.len() == 0 && lib.path is None) || (lib.url@.len() > 0 && (
        lib.path is None || spec_ends_with(lib.url@, "/"@)) && crate::utils::spec_coord_parts(
            lib.name@,
        ).len() < 3)),
{
    let url_len = lib.url.as_str().unicode_len();
    if url_len == 0 {
        match &lib.path {
            Option::None => Err(LauncherError::ManifestCorrupt),
            Option::Some(p) => {
                let mut archive_path = "maven/".to_owned();
                archive_path.append(p.as_str());
                let mut dest = libraries_dir.to_owned();
                dest.append("/");
                dest.append(p.as_str());
                Ok(ProfileLibStep::CopyFromArchive { archive_path, dest })
            },
        }
    } else {
        let needs_coord = match &lib.path {
            Option::None => true,
            Option::Some(_) => ends_with_str(lib.url.as_str(), "/"),
        };
        let coord_ok = {
            let parts = split_char(lib.name.as_str(), ':');
            parts.len() >= 3
        };
        if needs_coord && !coord_ok {
            return Err(LauncherError::ManifestCorrupt);
        }
        let url = if ends_with_str(lib.url.as_str(), "/") {
            if !coord_ok {
                return Err(LauncherError::ManifestCorrupt);
            }
            convert_to_full_url(lib.url.clone(), lib.name.clone())
        } else {
            lib.url.clone()
        };
        let dest = match &lib.path {
            Option::Some(p) => p.clone(),
            Option::None => convert_to_full_path(libraries_dir.to_owned(), &lib.name),
        };
        Ok(ProfileLibStep::Download { url, dest })
    }
}

/// The argument list of the forge-class installer invocation on the modern
/// path: run the fetched installer jar in unattended client-install mode
/// against the game directory.
pub fn forge_install_args(installer_jar: &String, game_dir: &String) -> (r: Vec<String>)
    ensures
        seq_views(r@) =~= seq!["-jar"@, installer_jar@, "--installClient"@, game_dir@],
{
    let mut out: Vec<String> = Vec::new();
    out.push("-jar".to_owned());
    out.push(installer_jar.clone());
    out.push("--installClient".to_owned());
    out.push(game_dir.clone());
    proof {
        assert(seq_views(out@) =~= seq!["-jar"@, installer_jar@, "--installClient"@, game_dir@]);
    }
    out
}

/// Where an installer writes a build's descriptor: the file is named after
/// the descriptor's internal id, whatever the folder is called.
pub open spec fn spec_descriptor_write_path(
    versions_dir: Seq<char>,
    folder: Seq<char>,
    id: Seq<char>,
) -> Seq<char> {
    versions_dir + "/"@ + folder + "/"@ + id + ".json"@
}

/// Computes the descriptor write path.
pub fn descriptor_write_path(versions_dir: &str, folder: &String, id: &String) -> (r: String)
    ensures
        r@ == spec_descriptor_write_path(versions_dir@, folder@, id@),
{
    let mut out = versions_dir.to_owned();
    out.append("/");
    out.append(folder.as_str());
    out.append("/");
    out.append(id.as_str());
    out.append(".json");
    out
}

/// Round trip of an overlay install: a version model built over the folder
/// the installer wrote into, with the descriptor's internal id, reads its
/// descriptor exactly where the installer put it — even when the folder name
/// and the id differ. So the freshly written build reports installed, under
/// the written descriptor's id.
pub proof fn lemma_descriptor_round_trip(
    v: MinecraftVersion,
    disk: DiskState,
    versions_dir: Seq<char>,
    folder: Seq<char>,
)
    requires
        v.version_path@ == versions_dir + "/"@ + folder,
        disk.spec_has(spec_descriptor_write_path(versions_dir, folder, v.id@)),
    ensures
        disk.spec_has(v.spec_json_path()),
{
    assert(v.spec_json_path() =~= spec_descriptor_write_path(versions_dir, folder, v.id@));
}

/// The first published loader with the wanted version.
pub open spec fn spec_find_loader(ls: Seq<FabricLoader>, version: Seq<char>) -> Option<FabricLoader>
    decreases ls.len(),
{
    if ls.len() == 0 {
        Option::None
    } else if ls[0].version@ == version {
        Option::Some(ls[0])
    } else {
        spec_find_loader(ls.skip(1), version)
    }
}

/// Finds a published loader by version.
pub fn fabric_find_loader<'a>(loaders: &'a Vec<FabricLoader>, version: &str) -> (r: Option<
    &'a FabricLoader,
>)
    ensures
        match r {
            Option::Some(l) => spec_find_loader(loaders@, version@) == Option::Some(*l),
            Option::None => spec_find_loader(loaders@, version@) is None,
        },
{
    let mut i: usize = 0;
    proof {
        assert(loaders@.skip(0) =~= loaders@);
    }
    while i < loaders.len()
        invariant
            i <= loaders@.len(),
            spec_find_loader(loaders@, version@) == spec_find_loader(
                loaders@.skip(i as int),
                version@,
            ),
        decreases loaders@.len() - i,
    {
        proof {
            assert(loaders@.skip(i as int)[0] == loaders@[i as int]);
            assert(loaders@.skip(i as int).skip(1) =~= loaders@.skip(i + 1));
        }
        if crate::text::str_eq(loaders[i].version.as_str(), version) {
            return Some(&loaders[i]);
        }
        i += 1;
    }
    proof {
        assert(loaders@.skip(loaders@.len() as int) =~= Seq::<FabricLoader>::empty());
    }
    None
}

/// The first installer marked stable.
pub open spec fn spec_find_stable_installer(is: Seq<FabricInstaller>) -> Option<FabricInstaller>
    decreases is.len(),
{
    if is.len() == 0 {
        Option::None
    } else if is[0].stable {
        Option::Some(is[0])
    } else {
        spec_find_stable_installer(is.skip(1))
    }
}

/// Finds the first stable published installer.
pub fn fabric_find_stable_installer<'a>(installers: &'a Vec<FabricInstaller>) -> (r: Option<
    &'a FabricInstaller,
>)
    ensures
        match r {
            Option::Some(x) => spec_find_stable_installer(installers@) == Option::Some(*x),
            Option::None => spec_find_stable_installer(installers@) is None,
        },
{
    let mut i: usize = 0;
    proof {
        assert(installers@.skip(0) =~= installers@);
    }
    while i < installers.len()
        invariant
            i <= installers@.len(),
            spec_find_stable_installer(installers@) == spec_find_stable_installer(
                installers@.skip(i as int),
            ),
        decreases installers@.len() - i,
    {
        proof {
            assert(installers@.skip(i as int)[0] == installers@[i as int]);
            assert(installers@.skip(i as int).skip(1) =~= installers@.skip(i + 1));
        }
        if installers[i].stable {
            return Some(&installers[i]);
        }
        i += 1;
    }
    proof {
        assert(installers@.skip(installers@.len() as int) =~= Seq::<FabricInstaller>::empty());
    }
    None
}

/// The argument list of the fabric-class installer invocation: unattended
/// client install of the wanted game version and loader into the game
/// directory.
pub fn fabric_install_args(
    installer_jar: &String,
    mc_version: &String,
    loader_version: &String,
    game_dir: &String,
) -> (r: Vec<String>)
    ensures
        seq_views(r@) =~= seq![
            "-jar"@,
            installer_jar@,
            "client"@,
            "-mcVersion"@,
            mc_version@,
            "-loader"@,
            loader_version@,
            "-dir"@,
            game_dir@,
        ],
{
    let mut out: Vec<String> = Vec::new();
    out.push("-jar".to_owned());
    out.push(installer_jar.clone());
    out.push("client".to_owned());
    out.push("-mcVersion".to_owned());
    out.push(mc_version.clone());
    out.push("-loader".to_owned());
    out.push(loader_version.clone());
    out.push("-dir".to_owned());
    out.push(game_dir.clone());
    proof {
        assert(seq_views(out@) =~= seq![
            "-jar"@,
            installer_jar@,
            "client"@,
            "-mcVersion"@,
            mc_version@,
            "-loader"@,
            loader_version@,
            "-dir"@,
            game_dir@,
        ]);
    }
    out
}

} // verus!
