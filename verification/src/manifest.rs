//! The manifest store's data: the remote build index (id, kind, metadata URL
//! and timestamps per build), lookup by id, filtering by kind, and the
//! loader-variant id arithmetic. Fetching the index is outside work; this
//! module owns everything decided about its content.
use vstd::prelude::*;

use serde_json::Value;

use crate::errors::LauncherError;
use crate::fabric::{FabricInstaller, FabricLoader, FabricMinecraftVersion};
use crate::jsonval::{json_as_array, json_as_str, json_get};
use crate::text::{spec_split, split_char, str_eq, seq_views};
use crate::version::{spec_base_of, MinecraftVersion, VersionBase};

verus! {

/// The kind of one indexed build.
#[derive(Debug, Clone, Copy, PartialEq, Eq, Structural)]
pub enum VersionType {
    Release,
    Snapshot,
    OldAlpha,
    OldBeta,
}

/// The newest release and snapshot ids of the index.
#[derive(Debug, Clone, PartialEq, Eq)]
pub struct LatestVersionDetail {
    pub release: String,
    pub snapshot: String,
}

/// One entry of the remote build index.
#[derive(Debug, Clone, PartialEq, Eq)]
pub struct VersionInfo {
    pub id: String,
    pub version_type: VersionType,
    pub url: String,
    pub time: String,
    pub release_time: String,
}

/// The remote build index.
#[derive(Debug, Clone, PartialEq, Eq)]
pub struct Manifest {
    pub latest: LatestVersionDetail,
    pub versions: Vec<VersionInfo>,
}

/// A build offered for installation: its id, loader family, and display
/// date.
#[derive(Debug, Clone, PartialEq, Eq)]
pub struct VersionLoader {
    pub id: String,
    pub base: VersionBase,
    pub date: String,
}

/// One named group of installable builds.
#[derive(Debug, Clone, PartialEq, Eq)]
pub struct VersionCategory {
    pub versions: Vec<VersionLoader>,
    pub name: String,
}

fn version_type_from_str(s: &str) -> (r: Option<VersionType>)
    ensures
        match r {
            Option::Some(VersionType::Release) => s@ == "release"@,
            Option::Some(VersionType::Snapshot) => s@ == "snapshot"@,
            Option::Some(VersionType::OldAlpha) => s@ == "old_alpha"@,
            Option::Some(VersionType::OldBeta) => s@ == "old_beta"@,
            Option::None => s@ != "release"@ && s@ != "snapshot"@ && s@ != "old_alpha"@ && s@
                != "old_beta"@,
        },
{
    if str_eq(s, "release") {
        Some(VersionType::Release)
    } else if str_eq(s, "snapshot") {
        Some(VersionType::Snapshot)
    } else if str_eq(s, "old_alpha") {
        Some(VersionType::OldAlpha)
    } else if str_eq(s, "old_beta") {
        Some(VersionType::OldBeta)
    } else {
        None
    }
}

fn required_string(value: &Value, key: &str) -> (r: Result<String, LauncherError>)
    ensures
        r is Err ==> r == Err::<String, LauncherError>(LauncherError::ManifestCorrupt),
{
    match json_get(value, key) {
        Option::Some(v) => match json_as_str(v) {
            Option::Some(s) => Ok(s.to_owned()),
            Option::None => Err(LauncherError::ManifestCorrupt),
        },
        Option::None => Err(LauncherError::ManifestCorrupt),
    }
}

/// Parses the remote build index document. Any missing or ill-typed field
/// fails the parse; the caller keeps its last good cache in that case.
pub fn manifest_from_value(value: &Value) -> (r: Result<Manifest, LauncherError>)
    ensures
        r is Err ==> r == Err::<Manifest, LauncherError>(LauncherError::ManifestCorrupt),
{
    let latest_value = match json_get(value, "latest") {
        Option::Some(v) => v,
        Option::None => {
            return Err(LauncherError::ManifestCorrupt);
        },
    };
    let release = required_string(latest_value, "release")?;
    let snapshot = required_string(latest_value, "snapshot")?;
    let versions_value = match json_get(value, "versions") {
        Option::Some(v) => v,
        Option::None => {
            return Err(LauncherError::ManifestCorrupt);
        },
    };
    let arr = match json_as_array(versions_value) {
        Option::Some(a) => a,
        Option::None => {
            return Err(LauncherError::ManifestCorrupt);
        },
    };
    let mut versions: Vec<VersionInfo> = Vec::new();
    let mut i: usize = 0;
    while i < arr.len()
        decreases arr@.len() - i,
    {
        let entry = &arr[i];
        let id = required_string(entry, "id")?;
        let type_str = required_string(entry, "type")?;
        let version_type = match version_type_from_str(type_str.as_str()) {
            Option::Some(t) => t,
            Option::None => {
                return Err(LauncherError::ManifestCorrupt);
            },
        };
        let url = required_string(entry, "url")?;
        let time = required_string(entry, "time")?;
        let release_time = required_string(entry, "releaseTime")?;
        versions.push(VersionInfo { id, version_type, url, time, release_time });
        i += 1;
    }
    Ok(Manifest { latest: LatestVersionDetail { release, snapshot }, versions })
}

/// The first index entry with the given id.
pub open spec fn spec_lookup_version(versions: Seq<VersionInfo>, id: Seq<char>) -> Option<
    VersionInfo,
>
    decreases versions.len(),
{
    if versions.len() == 0 {
        Option::None
    } else if versions[0].id@ == id {
        Option::Some(versions[0])
    } else {
        spec_lookup_version(versions.skip(1), id)
    }
}

/// Looks up a build in the index by id; absence is an expected outcome, not
/// an error — the caller falls back to whatever is on disk.
pub fn lookup_version<'a>(manifest: &'a Manifest, id: &str) -> (r: Option<&'a VersionInfo>)
    ensures
        match r {
            Option::Some(v) => spec_lookup_version(manifest.versions@, id@) == Option::Some(*v),
            Option::None => spec_lookup_version(manifest.versions@, id@) is None,
        },
{
    let mut i: usize = 0;
    proof {
        assert(manifest.versions@.skip(0) =~= manifest.versions@);
    }
    while i < manifest.versions.len()
        invariant
            i <= manifest.versions@.len(),
            spec_lookup_version(manifest.versions@, id@) == spec_lookup_version(
                manifest.versions@.skip(i as int),
                id@,
            ),
        decreases manifest.versions@.len() - i,
    {
        proof {
            assert(manifest.versions@.skip(i as int)[0] == manifest.versions@[i as int]);
            assert(manifest.versions@.skip(i as int).skip(1) =~= manifest.versions@.skip(i + 1));
        }
        if str_eq(manifest.versions[i].id.as_str(), id) {
            return Some(&manifest.versions[i]);
        }
        i += 1;
    }
    proof {
        assert(manifest.versions@.skip(manifest.versions@.len() as int)
            =~= Seq::<VersionInfo>::empty());
    }
    None
}

/// The ids of the index entries whose kind is among `types`, in index order.
pub open spec fn spec_filtered_ids(versions: Seq<VersionInfo>, types: Seq<VersionType>) -> Seq<
    Seq<char>,
>
    decreases versions.len(),
{
    if versions.len() == 0 {
        Seq::empty()
    } else {
        (if types.contains(versions[0].version_type) {
            seq![versions[0].id@]
        } else {
            Seq::empty()
        }) + spec_filtered_ids(versions.skip(1), types)
    }
}

fn types_contain(types: &Vec<VersionType>, t: VersionType) -> (r: bool)
    ensures
        r == types@.contains(t),
{
    let mut i: usize = 0;
    while i < types.len()
        invariant
            i <= types@.len(),
            forall|j: int| 0 <= j < i ==> types@[j] != t,
        decreases types@.len() - i,
    {
        if types[i] == t {
            return true;
        }
        i += 1;
    }
    proof {
        if types@.contains(t) {
            let j = choose|j: int| 0 <= j < types@.len() && types@[j] == t;
            assert(types@[j] != t);
        }
    }
    false
}

/// The ids of a sequence of version models.
pub open spec fn version_ids(vs: Seq<MinecraftVersion>) -> Seq<Seq<char>> {
    vs.map_values(|v: MinecraftVersion| v.id@)
}

/// Builds version models for every index entry whose kind is among `types`,
/// in index order.
pub fn load_versions_through_json(
    manifest: &Manifest,
    types: &Vec<VersionType>,
    versions_dir: &str,
) -> (r: Vec<MinecraftVersion>)
    ensures
        version_ids(r@) == spec_filtered_ids(manifest.versions@, types@),
        forall|i: int|
            0 <= i < r@.len() ==> (#[trigger] r@[i]).version_path@ == versions_dir@ + "/"@
                + r@[i].id@ && r@[i].base == spec_base_of(r@[i].id@),
{
    let vs = &manifest.versions;
    let mut out: Vec<MinecraftVersion> = Vec::new();
    let mut i: usize = 0;
    proof {
        assert(vs@.skip(0) =~= vs@);
        assert(version_ids(out@) =~= Seq::<Seq<char>>::empty());
    }
    while i < vs.len()
        invariant
            i <= vs@.len(),
            spec_filtered_ids(vs@, types@) == version_ids(out@) + spec_filtered_ids(
                vs@.skip(i as int),
                types@,
            ),
            forall|k: int|
                0 <= k < out@.len() ==> (#[trigger] out@[k]).version_path@ == versions_dir@ + "/"@
                    + out@[k].id@ && out@[k].base == spec_base_of(out@[k].id@),
        decreases vs@.len() - i,
    {
        proof {
            assert(vs@.skip(i as int)[0] == vs@[i as int]);
            assert(vs@.skip(i as int).skip(1) =~= vs@.skip(i + 1));
        }
        let ghost prev = out@;
        if types_contain(types, vs[i].version_type) {
            out.push(MinecraftVersion::from_id(vs[i].id.clone(), versions_dir));
            proof {
                assert(version_ids(out@) =~= version_ids(prev).push(vs@[i as int].id@));
                assert(version_ids(prev).push(vs@[i as int].id@) + spec_filtered_ids(
                    vs@.skip(i + 1),
                    types@,
                ) =~= version_ids(prev) + (seq![vs@[i as int].id@] + spec_filtered_ids(
                    vs@.skip(i + 1),
                    types@,
                )));
            }
        }
        i += 1;
    }
    proof {
        assert(vs@.skip(vs@.len() as int) =~= Seq::<VersionInfo>::empty());
        assert(version_ids(out@) + Seq::<Seq<char>>::empty() =~= version_ids(out@));
    }
    out
}

/// The in-process cache of remote loader and installer listings. It is
/// populated by whoever fetches the listings and handed in by reference;
/// an unpopulated field simply offers nothing. The forge listing is keyed
/// by game version; lookups take the first matching key, so a duplicate key
/// behaves as if absent beyond its first occurrence.
#[derive(Debug, Clone)]
pub struct Global {
    pub forge: Option<Vec<(String, Vec<String>)>>,
    pub fabric_loaders: Option<Vec<FabricLoader>>,
    pub fabric_installers: Option<Vec<FabricInstaller>>,
    pub fabric_mc_versions: Option<Vec<FabricMinecraftVersion>>,
}

/// The forge-class versions listed for a game version: the first matching
/// key's list, or nothing.
pub open spec fn spec_forge_versions(
    entries: Seq<(String, Vec<String>)>,
    id: Seq<char>,
) -> Seq<Seq<char>>
    decreases entries.len(),
{
    if entries.len() == 0 {
        Seq::empty()
    } else if entries[0].0@ == id {
        seq_views(entries[0].1@)
    } else {
        spec_forge_versions(entries.skip(1), id)
    }
}

/// What the forge cache offers for a game version: nothing while it is
/// unpopulated.
pub open spec fn spec_available_forge(g: Global, id: Seq<char>) -> Seq<Seq<char>> {
    match g.forge {
        Option::None => Seq::empty(),
        Option::Some(m) => spec_forge_versions(m@, id),
    }
}

fn clone_string_vec(v: &Vec<String>) -> (r: Vec<String>)
    ensures
        r@ == v@,
{
    let mut out: Vec<String> = Vec::new();
    let mut i: usize = 0;
    while i < v.len()
        invariant
            i <= v@.len(),
            out@ == v@.take(i as int),
        decreases v@.len() - i,
    {
        out.push(v[i].clone());
        proof {
            assert(out@ =~= v@.take(i + 1));
        }
        i += 1;
    }
    proof {
        assert(v@.take(v@.len() as int) =~= v@);
    }
    out
}

/// The forge-class versions installable on top of a game version, per the
/// cached listing.
pub fn get_available_forge_versions(cache: &Global, version_id: &String) -> (r: Vec<String>)
    ensures
        seq_views(r@) == spec_available_forge(*cache, version_id@),
{
    match &cache.forge {
        Option::None => {
            let out: Vec<String> = Vec::new();
            proof {
                assert(seq_views(out@) =~= Seq::<Seq<char>>::empty());
            }
            out
        },
        Option::Some(m) => {
            let mut i: usize = 0;
            proof {
                assert(m@.skip(0) =~= m@);
            }
            while i < m.len()
                invariant
                    i <= m@.len(),
                    cache.forge == Option::Some(*m),
                    spec_forge_versions(m@, version_id@) == spec_forge_versions(
                        m@.skip(i as int),
                        version_id@,
                    ),
                decreases m@.len() - i,
            {
                proof {
                    assert(m@.skip(i as int)[0] == m@[i as int]);
                    assert(m@.skip(i as int).skip(1) =~= m@.skip(i + 1));
                }
                if str_eq(m[i].0.as_str(), version_id.as_str()) {
                    proof {
                        assert(spec_forge_versions(m@.skip(i as int), version_id@) == seq_views(
                            m@[i as int].1@,
                        ));
                    }
                    return clone_string_vec(&m[i].1);
                }
                i += 1;
            }
            proof {
                assert(m@.skip(m@.len() as int) =~= Seq::<(String, Vec<String>)>::empty());
            }
            let out: Vec<String> = Vec::new();
            proof {
                assert(seq_views(out@) =~= Seq::<Seq<char>>::empty());
            }
            out
        },
    }
}

/// Whether the cached game-version listing knows `id`.
pub open spec fn spec_has_game_version(ms: Seq<FabricMinecraftVersion>, id: Seq<char>) -> bool
    decreases ms.len(),
{
    if ms.len() == 0 {
        false
    } else {
        ms[0].version@ == id || spec_has_game_version(ms.skip(1), id)
    }
}

/// The fabric-class offering ids for a game version: one per published
/// loader, "game-loader".
pub open spec fn spec_fabric_variants(ls: Seq<FabricLoader>, id: Seq<char>) -> Seq<Seq<char>> {
    ls.map_values(|l: FabricLoader| id + "-"@ + l.version@)
}

/// What the fabric caches offer for a game version: nothing while either
/// listing is unpopulated or the game version is not listed.
pub open spec fn spec_available_fabric(g: Global, id: Seq<char>) -> Seq<Seq<char>> {
    match g.fabric_mc_versions {
        Option::None => Seq::empty(),
        Option::Some(ms) => {
            if !spec_has_game_version(ms@, id) {
                Seq::empty()
            } else {
                match g.fabric_loaders {
                    Option::None => Seq::empty(),
                    Option::Some(ls) => spec_fabric_variants(ls@, id),
                }
            }
        },
    }
}

fn has_game_version(ms: &Vec<FabricMinecraftVersion>, id: &String) -> (r: bool)
    ensures
        r == spec_has_game_version(ms@, id@),
{
    let mut i: usize = 0;
    proof {
        assert(ms@.skip(0) =~= ms@);
    }
    while i < ms.len()
        invariant
            i <= ms@.len(),
            spec_has_game_version(ms@, id@) == spec_has_game_version(ms@.skip(i as int), id@),
        decreases ms@.len() - i,
    {
        proof {
            assert(ms@.skip(i as int)[0] == ms@[i as int]);
            assert(ms@.skip(i as int).skip(1) =~= ms@.skip(i + 1));
        }
        if str_eq(ms[i].version.as_str(), id.as_str()) {
            return true;
        }
        i += 1;
    }
    proof {
        assert(ms@.skip(ms@.len() as int) =~= Seq::<FabricMinecraftVersion>::empty());
    }
    false
}

/// The fabric-class offerings installable on top of a game version, per the
/// cached listings.
pub fn get_available_fabric_versions(cache: &Global, version_id: &String) -> (r: Vec<String>)
    ensures
        seq_views(r@) == spec_available_fabric(*cache, version_id@),
{
    let empty_result: Vec<String> = Vec::new();
    proof {
        assert(seq_views(empty_result@) =~= Seq::<Seq<char>>::empty());
    }
    let ms = match &cache.fabric_mc_versions {
        Option::None => {
            return empty_result;
        },
        Option::Some(ms) => ms,
    };
    if !has_game_version(ms, version_id) {
        return empty_result;
    }
    let ls = match &cache.fabric_loaders {
        Option::None => {
            return empty_result;
        },
        Option::Some(ls) => ls,
    };
    let mut out: Vec<String> = Vec::new();
    let mut i: usize = 0;
    while i < ls.len()
        invariant
            i <= ls@.len(),
            seq_views(out@) == spec_fabric_variants(ls@, version_id@).take(i as int),
        decreases ls@.len() - i,
    {
        let mut v = version_id.clone();
        v.append("-");
        v.append(ls[i].version.as_str());
        let ghost prev = out@;
        out.push(v);
        proof {
            assert(seq_views(out@) =~= seq_views(prev).push(
                version_id@ + "-"@ + ls@[i as int].version@,
            ));
            assert(seq_views(out@) =~= spec_fabric_variants(ls@, version_id@).take(i + 1));
        }
        i += 1;
    }
    proof {
        assert(spec_fabric_variants(ls@, version_id@).take(ls@.len() as int)
            =~= spec_fabric_variants(ls@, version_id@));
    }
    out
}

/// The view of one offered build.
pub open spec fn loader_view(l: VersionLoader) -> (Seq<char>, VersionBase, Seq<char>) {
    (l.id@, l.base, l.date@)
}

/// The views of a list of offered builds.
pub open spec fn loader_views(s: Seq<VersionLoader>) -> Seq<(Seq<char>, VersionBase, Seq<char>)> {
    s.map_values(|l: VersionLoader| loader_view(l))
}

/// The vanilla offerings of every index entry of one kind, dated by its
/// index timestamp.
pub open spec fn spec_type_loaders(vs: Seq<VersionInfo>, t: VersionType) -> Seq<
    (Seq<char>, VersionBase, Seq<char>),
>
    decreases vs.len(),
{
    if vs.len() == 0 {
        Seq::empty()
    } else {
        (if vs[0].version_type == t {
            seq![(vs[0].id@, VersionBase::VANILLA, vs[0].time@)]
        } else {
            Seq::empty()
        }) + spec_type_loaders(vs.skip(1), t)
    }
}

/// The "major.minor" group name of a version id.
pub open spec fn spec_core_of(id: Seq<char>) -> Seq<char> {
    spec_split(id, '.')[0] + "."@ + spec_split(id, '.')[1]
}

/// The distinct group names of the release entries, in first-appearance
/// order; `seen` holds the names already taken.
pub open spec fn spec_unique_cores(vs: Seq<VersionInfo>, seen: Seq<Seq<char>>) -> Seq<Seq<char>>
    decreases vs.len(),
{
    if vs.len() == 0 {
        Seq::empty()
    } else if vs[0].version_type == VersionType::Release && !seen.contains(
        spec_core_of(vs[0].id@),
    ) {
        seq![spec_core_of(vs[0].id@)] + spec_unique_cores(
            vs.skip(1),
            seen.push(spec_core_of(vs[0].id@)),
        )
    } else {
        spec_unique_cores(vs.skip(1), seen)
    }
}

/// What one release entry contributes to its group: the vanilla offering,
/// then the cached forge-class offerings, then the fabric-class ones.
pub open spec fn spec_loaders_for_release(
    v: VersionInfo,
    forge: bool,
    fabric: bool,
    g: Global,
) -> Seq<(Seq<char>, VersionBase, Seq<char>)> {
    seq![(v.id@, VersionBase::VANILLA, v.release_time@)] + (if forge {
        spec_available_forge(g, v.id@).map_values(
            |x: Seq<char>| (x, VersionBase::FORGE, "FORGE"@),
        )
    } else {
        Seq::empty()
    }) + (if fabric {
        spec_available_fabric(g, v.id@).map_values(
            |x: Seq<char>| (x, VersionBase::FABRIC, "FABRIC"@),
        )
    } else {
        Seq::empty()
    })
}

/// The contents of the group named `core`: the contributions of its release
/// entries in index order.
pub open spec fn spec_category_entries(
    vs: Seq<VersionInfo>,
    core: Seq<char>,
    forge: bool,
    fabric: bool,
    g: Global,
) -> Seq<(Seq<char>, VersionBase, Seq<char>)>
    decreases vs.len(),
{
    if vs.len() == 0 {
        Seq::empty()
    } else {
        (if vs[0].version_type == VersionType::Release && spec_core_of(vs[0].id@) == core {
            spec_loaders_for_release(vs[0], forge, fabric, g)
        } else {
            Seq::empty()
        }) + spec_category_entries(vs.skip(1), core, forge, fabric, g)
    }
}

/// Every release id of the index can be split into at least "major.minor".
pub open spec fn spec_release_ids_splittable(vs: Seq<VersionInfo>) -> bool {
    forall|i: int|
        0 <= i < vs.len() && (#[trigger] vs[i]).version_type == VersionType::Release ==> spec_split(
            vs[i].id@,
            '.',
        ).len() >= 2
}

fn build_type_loaders(vs: &Vec<VersionInfo>, t: VersionType) -> (r: Vec<VersionLoader>)
    ensures
        loader_views(r@) == spec_type_loaders(vs@, t),
{
    let mut out: Vec<VersionLoader> = Vec::new();
    let mut i: usize = 0;
    proof {
        assert(vs@.skip(0) =~= vs@);
        assert(loader_views(out@) =~= Seq::<(Seq<char>, VersionBase, Seq<char>)>::empty());
    }
    while i < vs.len()
        invariant
            i <= vs@.len(),
            spec_type_loaders(vs@, t) == loader_views(out@) + spec_type_loaders(
                vs@.skip(i as int),
                t,
            ),
        decreases vs@.len() - i,
    {
        proof {
            assert(vs@.skip(i as int)[0] == vs@[i as int]);
            assert(vs@.skip(i as int).skip(1) =~= vs@.skip(i + 1));
        }
        let ghost prev = out@;
        if vs[i].version_type == t {
            out.push(
                VersionLoader {
                    id: vs[i].id.clone(),
                    base: VersionBase::VANILLA,
                    date: vs[i].time.clone(),
                },
            );
            proof {
                assert(loader_views(out@) =~= loader_views(prev) + seq![
                    (vs@[i as int].id@, VersionBase::VANILLA, vs@[i as int].time@),
                ]);
            }
        }
        proof {
            assert(loader_views(out@) + spec_type_loaders(vs@.skip(i + 1), t) =~= loader_views(
                prev,
            ) + spec_type_loaders(vs@.skip(i as int), t));
        }
        i += 1;
    }
    proof {
        assert(vs@.skip(vs@.len() as int) =~= Seq::<VersionInfo>::empty());
        assert(loader_views(out@) + Seq::<(Seq<char>, VersionBase, Seq<char>)>::empty()
            =~= loader_views(out@));
    }
    out
}

fn unique_cores(vs: &Vec<VersionInfo>) -> (r: Vec<String>)
    requires
        spec_release_ids_splittable(vs@),
    ensures
        seq_views(r@) == spec_unique_cores(vs@, Seq::empty()),
{
    let mut out: Vec<String> = Vec::new();
    let mut i: usize = 0;
    proof {
        assert(vs@.skip(0) =~= vs@);
        assert(seq_views(out@) =~= Seq::<Seq<char>>::empty());
    }
    while i < vs.len()
        invariant
            i <= vs@.len(),
            spec_release_ids_splittable(vs@),
            spec_unique_cores(vs@, Seq::empty()) == seq_views(out@) + spec_unique_cores(
                vs@.skip(i as int),
                seq_views(out@),
            ),
        decreases vs@.len() - i,
    {
        proof {
            assert(vs@.skip(i as int)[0] == vs@[i as int]);
            assert(vs@.skip(i as int).skip(1) =~= vs@.skip(i + 1));
        }
        let ghost prev = out@;
        if vs[i].version_type == VersionType::Release {
            let core = crate::utils::get_core_version(&vs[i].id);
            if !crate::text::vec_contains_str(&out, core.as_str()) {
                out.push(core);
                proof {
                    assert(seq_views(out@) =~= seq_views(prev).push(spec_core_of(vs@[i as int].id@)));
                    assert(seq_views(prev).push(spec_core_of(vs@[i as int].id@))
                        + spec_unique_cores(vs@.skip(i + 1), seq_views(out@)) =~= seq_views(prev) + (
                    seq![spec_core_of(vs@[i as int].id@)] + spec_unique_cores(
                        vs@.skip(i + 1),
                        seq_views(prev).push(spec_core_of(vs@[i as int].id@)),
                    )));
                }
            }
        }
        i += 1;
    }
    proof {
        assert(vs@.skip(vs@.len() as int) =~= Seq::<VersionInfo>::empty());
        assert(seq_views(out@) + Seq::<Seq<char>>::empty() =~= seq_views(out@));
    }
    out
}

fn push_variant_loaders(
    out: &mut Vec<VersionLoader>,
    variants: &Vec<String>,
    base: VersionBase,
    date: &str,
)
    ensures
        loader_views(final(out)@) == loader_views(old(out)@) + seq_views(variants@).map_values(
            |x: Seq<char>| (x, base, date@),
        ),
{
    let ghost start = out@;
    let mut j: usize = 0;
    while j < variants.len()
        invariant
            j <= variants@.len(),
            loader_views(out@) == loader_views(start) + seq_views(variants@).map_values(
                |x: Seq<char>| (x, base, date@),
            ).take(j as int),
        decreases variants@.len() - j,
    {
        let ghost prev = out@;
        out.push(VersionLoader { id: variants[j].clone(), base, date: date.to_owned() });
        proof {
            assert(loader_views(out@) =~= loader_views(prev).push(
                (variants@[j as int]@, base, date@),
            ));
            assert(loader_views(out@) =~= loader_views(start) + seq_views(variants@).map_values(
                |x: Seq<char>| (x, base, date@),
            ).take(j + 1));
        }
        j += 1;
    }
    proof {
        assert(seq_views(variants@).map_values(|x: Seq<char>| (x, base, date@)).take(
            variants@.len() as int,
        ) =~= seq_views(variants@).map_values(|x: Seq<char>| (x, base, date@)));
    }
}

fn build_category(
    vs: &Vec<VersionInfo>,
    core: &String,
    forge: bool,
    fabric: bool,
    cache: &Global,
) -> (r: Vec<VersionLoader>)
    requires
        spec_release_ids_splittable(vs@),
    ensures
        loader_views(r@) == spec_category_entries(vs@, core@, forge, fabric, *cache),
{
    let mut out: Vec<VersionLoader> = Vec::new();
    let mut i: usize = 0;
    proof {
        assert(vs@.skip(0) =~= vs@);
        assert(loader_views(out@) =~= Seq::<(Seq<char>, VersionBase, Seq<char>)>::empty());
    }
    while i < vs.len()
        invariant
            i <= vs@.len(),
            spec_release_ids_splittable(vs@),
            spec_category_entries(vs@, core@, forge, fabric, *cache) == loader_views(out@)
                + spec_category_entries(vs@.skip(i as int), core@, forge, fabric, *cache),
        decreases vs@.len() - i,
    {
        proof {
            assert(vs@.skip(i as int)[0] == vs@[i as int]);
            assert(vs@.skip(i as int).skip(1) =~= vs@.skip(i + 1));
        }
        let ghost prev = out@;
        let is_release = vs[i].version_type == VersionType::Release;
        let mut matches_core = false;
        if is_release {
            let c = crate::utils::get_core_version(&vs[i].id);
            matches_core = str_eq(c.as_str(), core.as_str());
        }
        if is_release && matches_core {
            out.push(
                VersionLoader {
                    id: vs[i].id.clone(),
                    base: VersionBase::VANILLA,
                    date: vs[i].release_time.clone(),
                },
            );
            proof {
                assert(loader_views(out@) =~= loader_views(prev) + seq![
                    (vs@[i as int].id@, VersionBase::VANILLA, vs@[i as int].release_time@),
                ]);
            }
            if forge {
                let fv = get_available_forge_versions(cache, &vs[i].id);
                push_variant_loaders(&mut out, &fv, VersionBase::FORGE, "FORGE");
            }
            if fabric {
                let fv = get_available_fabric_versions(cache, &vs[i].id);
                push_variant_loaders(&mut out, &fv, VersionBase::FABRIC, "FABRIC");
            }
            proof {
                assert(loader_views(out@) =~~= loader_views(prev) + spec_loaders_for_release(
                    vs@[i as int],
                    forge,
                    fabric,
                    *cache,
                ));
            }
        }
        proof {
            assert(loader_views(out@) + spec_category_entries(
                vs@.skip(i + 1),
                core@,
                forge,
                fabric,
                *cache,
            ) =~= loader_views(prev) + spec_category_entries(
                vs@.skip(i as int),
                core@,
                forge,
                fabric,
                *cache,
            ));
        }
        i += 1;
    }
    proof {
        assert(vs@.skip(vs@.len() as int) =~= Seq::<VersionInfo>::empty());
        assert(loader_views(out@) + Seq::<(Seq<char>, VersionBase, Seq<char>)>::empty()
            =~= loader_views(out@));
    }
    out
}

/// Groups the index into named offering categories: the snapshots first,
/// then one group per "major.minor" release line in first-appearance order
/// — each holding its releases and, when asked, the cached forge- and
/// fabric-class offerings — and the legacy beta and alpha builds last.
pub fn get_categorized_versions(
    manifest: &Manifest,
    fabric: bool,
    forge: bool,
    cache: &Global,
) -> (r: Vec<VersionCategory>)
    requires
        spec_release_ids_splittable(manifest.versions@),
    ensures
        ({
            let vs = manifest.versions@;
            let cores = spec_unique_cores(vs, Seq::empty());
            &&& r@.len() == cores.len() + 3
            &&& r@[0].name@ == "Snapshot"@
            &&& loader_views(r@[0].versions@) == spec_type_loaders(vs, VersionType::Snapshot)
            &&& forall|k: int|
                0 <= k < cores.len() ==> (#[trigger] r@[k + 1]).name@ == cores[k] && loader_views(
                    r@[k + 1].versions@,
                ) == spec_category_entries(vs, cores[k], forge, fabric, *cache)
            &&& r@[r@.len() - 2].name@ == "Beta"@
            &&& loader_views(r@[r@.len() - 2].versions@) == spec_type_loaders(
                vs,
                VersionType::OldBeta,
            )
            &&& r@[r@.len() - 1].name@ == "Alpha"@
            &&& loader_views(r@[r@.len() - 1].versions@) == spec_type_loaders(
                vs,
                VersionType::OldAlpha,
            )
        }),
{
    let vs = &manifest.versions;
    let ghost cores_spec = spec_unique_cores(vs@, Seq::empty());
    let mut result: Vec<VersionCategory> = Vec::new();
    let snapshots = build_type_loaders(vs, VersionType::Snapshot);
    result.push(VersionCategory { name: "Snapshot".to_owned(), versions: snapshots });
    let cores = unique_cores(vs);
    let mut k: usize = 0;
    while k < cores.len()
        invariant
            k <= cores@.len(),
            seq_views(cores@) == cores_spec,
            cores_spec == spec_unique_cores(vs@, Seq::empty()),
            result@.len() == k + 1,
            result@[0].name@ == "Snapshot"@,
            loader_views(result@[0].versions@) == spec_type_loaders(vs@, VersionType::Snapshot),
            spec_release_ids_splittable(vs@),
            forall|j: int|
                0 <= j < k ==> (#[trigger] result@[j + 1]).name@ == cores_spec[j] && loader_views(
                    result@[j + 1].versions@,
                ) == spec_category_entries(vs@, cores_spec[j], forge, fabric, *cache),
        decreases cores@.len() - k,
    {
        let cat = build_category(vs, &cores[k], forge, fabric, cache);
        result.push(VersionCategory { name: cores[k].clone(), versions: cat });
        proof {
            assert(seq_views(cores@)[k as int] == cores@[k as int]@);
        }
        k += 1;
    }
    let beta = build_type_loaders(vs, VersionType::OldBeta);
    result.push(VersionCategory { name: "Beta".to_owned(), versions: beta });
    let alpha = build_type_loaders(vs, VersionType::OldAlpha);
    result.push(VersionCategory { name: "Alpha".to_owned(), versions: alpha });
    result
}

impl VersionLoader {
    /// The loader component of a "game-loader" id.
    pub fn get_fabric_loader_id(&self) -> (r: String)
        requires
            spec_split(self.id@, '-').len() >= 2,
        ensures
            r@ == spec_split(self.id@, '-')[1],
    {
        let parts = split_char(self.id.as_str(), '-');
        proof {
            assert(seq_views(parts@)[1] == parts@[1]@);
        }
        parts[1].clone()
    }

    /// The game-version component of a "game-loader" id.
    pub fn get_fabric_version_id(&self) -> (r: String)
        requires
            spec_split(self.id@, '-').len() >= 1,
        ensures
            r@ == spec_split(self.id@, '-')[0],
    {
        let parts = split_char(self.id.as_str(), '-');
        proof {
            assert(seq_views(parts@)[0] == parts@[0]@);
        }
        parts[0].clone()
    }

    /// The id under which this offering is installed on disk: the plain id
    /// for a vanilla build, the loader families' synthesized directory names
    /// otherwise.
    pub fn get_installed_id(&self) -> (r: String)
        requires
            self.base == VersionBase::FORGE || self.base == VersionBase::FABRIC
                ==> spec_split(self.id@, '-').len() >= 2,
        ensures
            match self.base {
                VersionBase::FORGE => r@ == spec_split(self.id@, '-')[0] + "-forge-"@ + spec_split(
                    self.id@,
                    '-',
                )[1],
                VersionBase::FABRIC => r@ == "fabric-loader-"@ + spec_split(self.id@, '-')[1]
                    + "-"@ + spec_split(self.id@, '-')[0],
                _ => r@ == self.id@,
            },
    {
        match self.base {
            VersionBase::VANILLA => self.id.clone(),
            VersionBase::FORGE => {
                let parts = split_char(self.id.as_str(), '-');
                proof {
                    assert(seq_views(parts@)[0] == parts@[0]@);
                    assert(seq_views(parts@)[1] == parts@[1]@);
                }
                let mut out = parts[0].clone();
                out.append("-forge-");
                out.append(parts[1].as_str());
                out
            },
            VersionBase::NEOFORGE => self.id.clone(),
            VersionBase::FABRIC => {
                let parts = split_char(self.id.as_str(), '-');
                proof {
                    assert(seq_views(parts@)[0] == parts@[0]@);
                    assert(seq_views(parts@)[1] == parts@[1]@);
                }
                let mut out = "fabric-loader-".to_owned();
                out.append(parts[1].as_str());
                out.append("-");
                out.append(parts[0].as_str());
                out
            },
            VersionBase::LITELOADER => self.id.clone(),
        }
    }
}

} // verus!
