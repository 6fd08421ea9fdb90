//! The acquisition engine's decision logic. Networking and file writing
//! happen outside; this module computes, from a descriptor and the observed
//! disk state, exactly which downloads and extractions are owed, and judges
//! download outcomes including the single size-mismatch retry. Because every
//! step is derived from the disk state alone, re-running acquisition resumes
//! wherever the size checks say work remains.
use vstd::prelude::*;

use serde_json::Value;

use crate::descriptor::{
    descriptor_wf, entry_wf, spec_locate, LibraryEntry, VersionDescriptor,
};
use crate::disk::{spec_file_ok, verify_file_existence, DiskState};
use crate::errors::LauncherError;
use crate::manifest::VersionInfo;
use crate::text::seq_views;
use crate::utils::spec_maven_rel_path;
use crate::version::{spec_entry_allows, MinecraftVersion};

verus! {

/// One unit of outside work the engine asks for.
#[derive(Debug, Clone, PartialEq, Eq)]
pub enum AcquireStep {
    /// Fetch one file. Candidate URLs are tried in order until one serves
    /// the file; `size` 0 means no declared size. `label` names the artifact
    /// for error reporting.
    Download { urls: Vec<String>, dest: String, size: u64, label: String },
    /// Unpack a natives archive into the version's natives directory; run on
    /// every acquisition, targets being overwritten.
    ExtractNatives { archive: String, natives_dir: String },
}

/// The mathematical shape of one step.
#[verifier::ext_equal]
pub enum StepModel {
    Download { urls: Seq<Seq<char>>, dest: Seq<char>, size: u64, label: Seq<char> },
    Extract { archive: Seq<char>, natives_dir: Seq<char> },
}

/// The model of one exec step.
pub open spec fn step_view(s: AcquireStep) -> StepModel {
    match s {
        AcquireStep::Download { urls, dest, size, label } => StepModel::Download {
            urls: seq_views(urls@),
            dest: dest@,
            size: size,
            label: label@,
        },
        AcquireStep::ExtractNatives { archive, natives_dir } => StepModel::Extract {
            archive: archive@,
            natives_dir: natives_dir@,
        },
    }
}

/// The models of a step list.
pub open spec fn step_views(s: Seq<AcquireStep>) -> Seq<StepModel> {
    s.map_values(|x: AcquireStep| step_view(x))
}

/// Whether a size observation passes the cheap integrity check.
pub open spec fn spec_size_ok(expected: u64, observed: u64) -> bool {
    expected == 0 || observed == expected
}

/// The client-jar step owed for a descriptor: one download when the jar is
/// missing or its size disagrees, nothing otherwise or when no client
/// artifact is declared.
pub open spec fn spec_client_plan(
    d: VersionDescriptor,
    versions_dir: Seq<char>,
    disk: DiskState,
) -> Seq<StepModel> {
    match d.client {
        Option::None => Seq::empty(),
        Option::Some(c) => {
            let dest = versions_dir + "/"@ + d.id@ + "/"@ + d.id@ + ".jar"@;
            if spec_file_ok(&disk, dest, c.size) {
                Seq::empty()
            } else {
                seq![
                    StepModel::Download {
                        urls: seq![c.url@],
                        dest: dest,
                        size: c.size,
                        label: d.id@,
                    },
                ]
            }
        },
    }
}

/// Computes the client-jar step of `d`, mirroring `spec_client_plan`.
pub fn plan_client(d: &VersionDescriptor, versions_dir: &str, disk: &DiskState) -> (r: Vec<
    AcquireStep,
>)
    ensures
        step_views(r@) == spec_client_plan(*d, versions_dir@, *disk),
{
    let mut out: Vec<AcquireStep> = Vec::new();
    match &d.client {
        Option::None => {
            proof {
                assert(step_views(out@) =~~= spec_client_plan(*d, versions_dir@, *disk));
            }
        },
        Option::Some(c) => {
            let mut dest = versions_dir.to_owned();
            dest.append("/");
            dest.append(d.id.as_str());
            dest.append("/");
            dest.append(d.id.as_str());
            dest.append(".jar");
            if !verify_file_existence(&dest, c.size, disk) {
                let mut urls: Vec<String> = Vec::new();
                urls.push(c.url.clone());
                proof {
                    assert(seq_views(urls@) =~= seq![c.url@]);
                }
                out.push(
                    AcquireStep::Download {
                        urls,
                        dest,
                        size: c.size,
                        label: d.id.clone(),
                    },
                );
            }
            proof {
                assert(step_views(out@) =~~= spec_client_plan(*d, versions_dir@, *disk));
            }
        },
    }
    out
}

/// The repository hosts tried for a plain maven coordinate: the runtime's
/// own host for its group, two community mirrors for everything else.
pub open spec fn spec_plain_urls(e: LibraryEntry, rel: Seq<char>) -> Seq<Seq<char>> {
    if crate::text::lower_seq(crate::utils::spec_coord_parts(e.name@)[0]) == "net.minecraft"@ {
        seq!["https://libraries.minecraft.net/"@ + rel]
    } else {
        seq![
            "https://maven.minecraftforge.net/"@ + rel,
            "https://repo.spongepowered.org/maven/"@ + rel,
        ]
    }
}

/// The steps one library entry owes: for a plain coordinate, a candidate
/// download when the file is absent; otherwise any natives classifier's
/// conditional download plus its unconditional extraction, and, when the
/// platform passes the entry's rules, the direct artifact's conditional
/// download.
pub open spec fn spec_entry_steps(
    e: LibraryEntry,
    os: Seq<char>,
    libdir: Seq<char>,
    natives_dir: Seq<char>,
    disk: DiskState,
) -> Seq<StepModel> {
    if !e.downloads_present {
        let rel = spec_maven_rel_path(e.name@);
        let dest = libdir + "/"@ + rel;
        if spec_file_ok(&disk, dest, 0) {
            Seq::empty()
        } else {
            seq![
                StepModel::Download {
                    urls: spec_plain_urls(e, rel),
                    dest: dest,
                    size: 0,
                    label: e.name@,
                },
            ]
        }
    } else {
        let classifier_steps: Seq<StepModel> = match e.classifiers {
            Option::None => Seq::empty(),
            Option::Some(cs) => match crate::descriptor::spec_locate_classifier(cs@, os) {
                Option::None => Seq::empty(),
                Option::Some(t) => {
                    let dest = libdir + "/"@ + t.0;
                    (if spec_file_ok(&disk, dest, t.2) {
                        Seq::empty()
                    } else {
                        seq![
                            StepModel::Download {
                                urls: seq![t.1],
                                dest: dest,
                                size: t.2,
                                label: e.name@,
                            },
                        ]
                    }) + seq![StepModel::Extract { archive: dest, natives_dir: natives_dir }]
                },
            },
        };
        let artifact_steps: Seq<StepModel> = match e.artifact {
            Option::None => Seq::empty(),
            Option::Some(a) => {
                if spec_entry_allows(e, os) {
                    let dest = libdir + "/"@ + a.path@;
                    if spec_file_ok(&disk, dest, a.size) {
                        Seq::empty()
                    } else {
                        seq![
                            StepModel::Download {
                                urls: seq![a.url@],
                                dest: dest,
                                size: a.size,
                                label: e.name@,
                            },
                        ]
                    }
                } else {
                    Seq::empty()
                }
            },
        };
        classifier_steps + artifact_steps
    }
}

/// The steps a whole library list owes, in descriptor order.
pub open spec fn spec_library_plan(
    entries: Seq<LibraryEntry>,
    os: Seq<char>,
    libdir: Seq<char>,
    natives_dir: Seq<char>,
    disk: DiskState,
) -> Seq<StepModel>
    decreases entries.len(),
{
    if entries.len() == 0 {
        Seq::empty()
    } else {
        spec_entry_steps(entries[0], os, libdir, natives_dir, disk) + spec_library_plan(
            entries.skip(1),
            os,
            libdir,
            natives_dir,
            disk,
        )
    }
}

fn plan_one_entry(
    e: &LibraryEntry,
    os: &str,
    libdir: &str,
    natives_dir: &String,
    disk: &DiskState,
) -> (r: Vec<AcquireStep>)
    requires
        entry_wf(*e),
    ensures
        step_views(r@) == spec_entry_steps(*e, os@, libdir@, natives_dir@, *disk),
{
    let mut out: Vec<AcquireStep> = Vec::new();
    if !e.downloads_present {
        let rel = crate::utils::maven_rel_path(e.name.as_str());
        let mut dest = libdir.to_owned();
        dest.append("/");
        dest.append(rel.as_str());
        if !verify_file_existence(&dest, 0, disk) {
            let parts = crate::text::split_char(e.name.as_str(), ':');
            proof {
                assert(crate::text::seq_views(parts@)[0] == parts@[0]@);
            }
            let group_lower = crate::text::to_ascii_lowercase(parts[0].as_str());
            let mut urls: Vec<String> = Vec::new();
            if crate::text::str_eq(group_lower.as_str(), "net.minecraft") {
                let mut u = "https://libraries.minecraft.net/".to_owned();
                u.append(rel.as_str());
                urls.push(u);
                proof {
                    assert(seq_views(urls@) =~~= spec_plain_urls(*e, rel@));
                }
            } else {
                let mut u1 = "https://maven.minecraftforge.net/".to_owned();
                u1.append(rel.as_str());
                urls.push(u1);
                let mut u2 = "https://repo.spongepowered.org/maven/".to_owned();
                u2.append(rel.as_str());
                urls.push(u2);
                proof {
                    assert(seq_views(urls@) =~~= spec_plain_urls(*e, rel@));
                }
            }
            out.push(AcquireStep::Download { urls, dest, size: 0, label: e.name.clone() });
        }
        proof {
            assert(step_views(out@) =~~= spec_entry_steps(*e, os@, libdir@, natives_dir@, *disk));
        }
        return out;
    }
    match &e.classifiers {
        Option::None => (),
        Option::Some(cs) => {
            match crate::descriptor::locate_classifier(cs, os) {
                Option::None => (),
                Option::Some(t) => {
                    let mut dest = libdir.to_owned();
                    dest.append("/");
                    dest.append(t.rel_path.as_str());
                    if !verify_file_existence(&dest, t.size, disk) {
                        let mut urls: Vec<String> = Vec::new();
                        urls.push(t.url.clone());
                        proof {
                            assert(seq_views(urls@) =~= seq![t.url@]);
                        }
                        out.push(
                            AcquireStep::Download {
                                urls,
                                dest: dest.clone(),
                                size: t.size,
                                label: e.name.clone(),
                            },
                        );
                    }
                    out.push(
                        AcquireStep::ExtractNatives {
                            archive: dest,
                            natives_dir: natives_dir.clone(),
                        },
                    );
                },
            }
        },
    }
    match &e.artifact {
        Option::None => (),
        Option::Some(a) => {
            if crate::version::entry_allows(e, os) {
                let mut dest = libdir.to_owned();
                dest.append("/");
                dest.append(a.path.as_str());
                if !verify_file_existence(&dest, a.size, disk) {
                    let mut urls: Vec<String> = Vec::new();
                    urls.push(a.url.clone());
                    proof {
                        assert(seq_views(urls@) =~= seq![a.url@]);
                    }
                    out.push(
                        AcquireStep::Download {
                            urls,
                            dest,
                            size: a.size,
                            label: e.name.clone(),
                        },
                    );
                }
            }
        },
    }
    proof {
        assert(step_views(out@) =~~= spec_entry_steps(*e, os@, libdir@, natives_dir@, *disk));
    }
    out
}

/// Computes the library steps of a descriptor's library list, mirroring
/// `spec_library_plan`.
pub fn plan_libraries(
    entries: &Vec<LibraryEntry>,
    os: &str,
    libdir: &str,
    natives_dir: &String,
    disk: &DiskState,
) -> (r: Vec<AcquireStep>)
    requires
        forall|i: int| 0 <= i < entries@.len() ==> entry_wf(#[trigger] entries@[i]),
    ensures
        step_views(r@) == spec_library_plan(entries@, os@, libdir@, natives_dir@, *disk),
{
    let mut out: Vec<AcquireStep> = Vec::new();
    let mut i: usize = 0;
    proof {
        assert(entries@.skip(0) =~= entries@);
        assert(step_views(out@) =~= Seq::<StepModel>::empty());
    }
    while i < entries.len()
        invariant
            i <= entries@.len(),
            forall|k: int| 0 <= k < entries@.len() ==> entry_wf(#[trigger] entries@[k]),
            spec_library_plan(entries@, os@, libdir@, natives_dir@, *disk) == step_views(out@)
                + spec_library_plan(entries@.skip(i as int), os@, libdir@, natives_dir@, *disk),
        decreases entries@.len() - i,
    {
        proof {
            assert(entries@.skip(i as int)[0] == entries@[i as int]);
            assert(entries@.skip(i as int).skip(1) =~= entries@.skip(i + 1));
        }
        let mut steps = plan_one_entry(&entries[i], os, libdir, natives_dir, disk);
        let ghost prev = out@;
        let ghost added = steps@;
        out.append(&mut steps);
        proof {
            assert(step_views(prev + added) =~= step_views(prev) + step_views(added));
        }
        i += 1;
    }
    proof {
        assert(entries@.skip(entries@.len() as int) =~= Seq::<LibraryEntry>::empty());
    }
    out
}

/// The asset index file of an asset index reference.
pub open spec fn spec_asset_index_path(assets_dir: Seq<char>, id: Seq<char>) -> Seq<char> {
    assets_dir + "/indexes/"@ + id + ".json"@
}

/// The content-addressed location of an asset object: keyed by the first
/// two characters of its content hash.
pub open spec fn spec_asset_object_path(assets_dir: Seq<char>, hash: Seq<char>) -> Seq<char> {
    assets_dir + "/objects/"@ + hash.take(2) + "/"@ + hash
}

/// The remote location of an asset object.
pub open spec fn spec_asset_object_url(hash: Seq<char>) -> Seq<char> {
    "https://resources.download.minecraft.net/"@ + hash.take(2) + "/"@ + hash
}

/// The step owed for the asset index document itself: a download only when
/// it is missing.
pub open spec fn spec_asset_index_plan(
    ai: crate::descriptor::AssetIndex,
    assets_dir: Seq<char>,
    disk: DiskState,
) -> Seq<StepModel> {
    let dest = spec_asset_index_path(assets_dir, ai.id@);
    if spec_file_ok(&disk, dest, 0) {
        Seq::empty()
    } else {
        seq![StepModel::Download { urls: seq![ai.url@], dest: dest, size: 0, label: ai.id@ }]
    }
}

/// Computes the asset index document's step, mirroring
/// `spec_asset_index_plan`.
pub fn plan_asset_index(
    ai: &crate::descriptor::AssetIndex,
    assets_dir: &str,
    disk: &DiskState,
) -> (r: Vec<AcquireStep>)
    ensures
        step_views(r@) == spec_asset_index_plan(*ai, assets_dir@, *disk),
{
    let mut out: Vec<AcquireStep> = Vec::new();
    let mut dest = assets_dir.to_owned();
    dest.append("/indexes/");
    dest.append(ai.id.as_str());
    dest.append(".json");
    if !verify_file_existence(&dest, 0, disk) {
        let mut urls: Vec<String> = Vec::new();
        urls.push(ai.url.clone());
        proof {
            assert(seq_views(urls@) =~= seq![ai.url@]);
        }
        out.push(AcquireStep::Download { urls, dest, size: 0, label: ai.id.clone() });
    }
    proof {
        assert(step_views(out@) =~~= spec_asset_index_plan(*ai, assets_dir@, *disk));
    }
    out
}

/// The steps owed for a list of asset objects, each given as (content hash,
/// byte size): one download per object that is absent or wrongly sized, in
/// index order.
pub open spec fn spec_asset_plan(
    objects: Seq<(String, u64)>,
    assets_dir: Seq<char>,
    disk: DiskState,
) -> Seq<StepModel>
    decreases objects.len(),
{
    if objects.len() == 0 {
        Seq::empty()
    } else {
        let hash = objects[0].0@;
        let size = objects[0].1;
        let dest = spec_asset_object_path(assets_dir, hash);
        (if spec_file_ok(&disk, dest, size) {
            Seq::empty()
        } else {
            seq![
                StepModel::Download {
                    urls: seq![spec_asset_object_url(hash)],
                    dest: dest,
                    size: size,
                    label: hash,
                },
            ]
        }) + spec_asset_plan(objects.skip(1), assets_dir, disk)
    }
}

/// Computes the asset object steps, mirroring `spec_asset_plan`.
pub fn plan_asset_objects(
    objects: &Vec<(String, u64)>,
    assets_dir: &str,
    disk: &DiskState,
) -> (r: Vec<AcquireStep>)
    requires
        forall|i: int| 0 <= i < objects@.len() ==> (#[trigger] objects@[i]).0@.len() >= 2,
    ensures
        step_views(r@) == spec_asset_plan(objects@, assets_dir@, *disk),
{
    let mut out: Vec<AcquireStep> = Vec::new();
    let mut i: usize = 0;
    proof {
        assert(objects@.skip(0) =~= objects@);
        assert(step_views(out@) =~= Seq::<StepModel>::empty());
    }
    while i < objects.len()
        invariant
            i <= objects@.len(),
            forall|k: int| 0 <= k < objects@.len() ==> (#[trigger] objects@[k]).0@.len() >= 2,
            spec_asset_plan(objects@, assets_dir@, *disk) == step_views(out@) + spec_asset_plan(
                objects@.skip(i as int),
                assets_dir@,
                *disk,
            ),
        decreases objects@.len() - i,
    {
        proof {
            assert(objects@.skip(i as int)[0] == objects@[i as int]);
            assert(objects@.skip(i as int).skip(1) =~= objects@.skip(i + 1));
        }
        let hash = &objects[i].0;
        let size = objects[i].1;
        let two = hash.as_str().substring_char(0, 2);
        let mut dest = assets_dir.to_owned();
        dest.append("/objects/");
        dest.append(two);
        dest.append("/");
        dest.append(hash.as_str());
        let ghost prev = out@;
        proof {
            assert(dest@ =~= spec_asset_object_path(assets_dir@, objects@[i as int].0@));
        }
        if !verify_file_existence(&dest, size, disk) {
            let mut url = "https://resources.download.minecraft.net/".to_owned();
            url.append(two);
            url.append("/");
            url.append(hash.as_str());
            proof {
                assert(url@ =~= spec_asset_object_url(objects@[i as int].0@));
            }
            let mut urls: Vec<String> = Vec::new();
            urls.push(url);
            out.push(
                AcquireStep::Download { urls, dest, size, label: hash.clone() },
            );
        }
        proof {
            let hash_v = objects@[i as int].0@;
            let size_v = objects@[i as int].1;
            let dest_v = spec_asset_object_path(assets_dir@, hash_v);
            assert(step_views(out@) =~~= step_views(prev) + (if spec_file_ok(
                &disk,
                dest_v,
                size_v,
            ) {
                Seq::<StepModel>::empty()
            } else {
                seq![
                    StepModel::Download {
                        urls: seq![spec_asset_object_url(hash_v)],
                        dest: dest_v,
                        size: size_v,
                        label: hash_v,
                    },
                ]
            }));
            assert(spec_asset_plan(objects@, assets_dir@, *disk) =~= step_views(out@)
                + spec_asset_plan(objects@.skip(i + 1), assets_dir@, *disk));
        }
        i += 1;
    }
    proof {
        assert(objects@.skip(objects@.len() as int) =~= Seq::<(String, u64)>::empty());
    }
    out
}

/// Reads the object table of an asset index document: each entry's content
/// hash and size. A hash too short to address the object store fails the
/// parse.
pub fn asset_objects_from_value(value: &Value) -> (r: Result<Vec<(String, u64)>, LauncherError>)
    ensures
        match r {
            Ok(v) => forall|i: int| 0 <= i < v@.len() ==> (#[trigger] v@[i]).0@.len() >= 2,
            Err(e) => e == LauncherError::ManifestCorrupt,
        },
{
    let objects = match crate::jsonval::json_get(value, "objects") {
        Option::Some(v) => v,
        Option::None => {
            return Err(LauncherError::ManifestCorrupt);
        },
    };
    let entries = match crate::jsonval::json_object_entries(objects) {
        Option::Some(e) => e,
        Option::None => {
            return Err(LauncherError::ManifestCorrupt);
        },
    };
    let mut out: Vec<(String, u64)> = Vec::new();
    let mut i: usize = 0;
    while i < entries.len()
        invariant
            forall|k: int| 0 <= k < out@.len() ==> (#[trigger] out@[k]).0@.len() >= 2,
        decreases entries@.len() - i,
    {
        let body = &entries[i].1;
        let hash = match crate::jsonval::json_get(body, "hash") {
            Option::Some(v) => match crate::jsonval::json_as_str(v) {
                Option::Some(s) => s.to_owned(),
                Option::None => {
                    return Err(LauncherError::ManifestCorrupt);
                },
            },
            Option::None => {
                return Err(LauncherError::ManifestCorrupt);
            },
        };
        if hash.as_str().unicode_len() < 2 {
            return Err(LauncherError::ManifestCorrupt);
        }
        let size = match crate::jsonval::json_get(body, "size") {
            Option::Some(v) => match crate::jsonval::json_as_u64(v) {
                Option::Some(n) => n,
                Option::None => {
                    return Err(LauncherError::ManifestCorrupt);
                },
            },
            Option::None => {
                return Err(LauncherError::ManifestCorrupt);
            },
        };
        out.push((hash, size));
        i += 1;
    }
    Ok(out)
}

/// The step that makes a build's descriptor present: nothing when it is
/// already installed; a download of the index entry's metadata URL when the
/// store has one and the network is reachable; otherwise the build cannot be
/// acquired.
pub fn descriptor_fetch_action(
    version: &MinecraftVersion,
    versions_dir: &str,
    installed: bool,
    entry: Option<&VersionInfo>,
    reachable: bool,
) -> (r: Result<Option<AcquireStep>, LauncherError>)
    ensures
        match r {
            Ok(step) => match step {
                Option::None => installed,
                Option::Some(s) => !installed && reachable && entry is Some && step_view(s)
                    == StepModel::Download {
                    urls: seq![entry->Some_0.url@],
                    dest: versions_dir@ + "/"@ + version.id@ + "/"@ + version.id@ + ".json"@,
                    size: 0,
                    label: version.id@,
                },
            },
            Err(e) => !installed && (!reachable || entry is None) && e
                == LauncherError::NotAcquirable(version.id),
        },
{
    if installed {
        return Ok(None);
    }
    if !reachable {
        return Err(LauncherError::NotAcquirable(version.id.clone()));
    }
    match entry {
        Option::None => Err(LauncherError::NotAcquirable(version.id.clone())),
        Option::Some(vi) => {
            let mut dest = versions_dir.to_owned();
            dest.append("/");
            dest.append(version.id.as_str());
            dest.append("/");
            dest.append(version.id.as_str());
            dest.append(".json");
            let mut urls: Vec<String> = Vec::new();
            urls.push(vi.url.clone());
            proof {
                assert(seq_views(urls@) =~= seq![entry->Some_0.url@]);
            }
            Ok(
                Some(
                    AcquireStep::Download {
                        urls,
                        dest,
                        size: 0,
                        label: version.id.clone(),
                    },
                ),
            )
        },
    }
}

/// The download steps among a step list, in order.
pub open spec fn spec_downloads(s: Seq<StepModel>) -> Seq<StepModel>
    decreases s.len(),
{
    if s.len() == 0 {
        Seq::empty()
    } else {
        (if s[0] is Download {
            seq![s[0]]
        } else {
            Seq::empty()
        }) + spec_downloads(s.skip(1))
    }
}

/// Download filtering distributes over concatenation.
pub proof fn lemma_downloads_concat(a: Seq<StepModel>, b: Seq<StepModel>)
    ensures
        spec_downloads(a + b) == spec_downloads(a) + spec_downloads(b),
    decreases a.len(),
{
    if a.len() == 0 {
        assert(a + b =~= b);
        assert(spec_downloads(a) + spec_downloads(b) =~= spec_downloads(b));
    } else {
        lemma_downloads_concat(a.skip(1), b);
        assert((a + b).skip(1) =~= a.skip(1) + b);
        assert((a + b)[0] == a[0]);
        assert(spec_downloads(a + b) =~= spec_downloads(a) + spec_downloads(b));
    }
}

/// Whether the disk already holds everything one library entry needs.
pub open spec fn spec_entry_satisfied(
    e: LibraryEntry,
    os: Seq<char>,
    libdir: Seq<char>,
    disk: DiskState,
) -> bool {
    if !e.downloads_present {
        spec_file_ok(&disk, libdir + "/"@ + spec_maven_rel_path(e.name@), 0)
    } else {
        (match e.classifiers {
            Option::None => true,
            Option::Some(cs) => match crate::descriptor::spec_locate_classifier(cs@, os) {
                Option::None => true,
                Option::Some(t) => spec_file_ok(&disk, libdir + "/"@ + t.0, t.2),
            },
        }) && (match e.artifact {
            Option::None => true,
            Option::Some(a) => spec_entry_allows(e, os) ==> spec_file_ok(
                &disk,
                libdir + "/"@ + a.path@,
                a.size,
            ),
        })
    }
}

proof fn lemma_entry_steps_no_downloads(
    e: LibraryEntry,
    os: Seq<char>,
    libdir: Seq<char>,
    natives_dir: Seq<char>,
    disk: DiskState,
)
    requires
        spec_entry_satisfied(e, os, libdir, disk),
    ensures
        spec_downloads(spec_entry_steps(e, os, libdir, natives_dir, disk)) == Seq::<
            StepModel,
        >::empty(),
{
    let steps = spec_entry_steps(e, os, libdir, natives_dir, disk);
    if !e.downloads_present {
        assert(steps =~= Seq::<StepModel>::empty());
    } else {
        let classifier_steps: Seq<StepModel> = match e.classifiers {
            Option::None => Seq::empty(),
            Option::Some(cs) => match crate::descriptor::spec_locate_classifier(cs@, os) {
                Option::None => Seq::empty(),
                Option::Some(t) => seq![
                    StepModel::Extract { archive: libdir + "/"@ + t.0, natives_dir: natives_dir },
                ],
            },
        };
        let artifact_steps: Seq<StepModel> = Seq::empty();
        assert(steps =~= classifier_steps + artifact_steps);
        lemma_downloads_concat(classifier_steps, artifact_steps);
        assert(spec_downloads(Seq::<StepModel>::empty()) == Seq::<StepModel>::empty());
        match e.classifiers {
            Option::None => (),
            Option::Some(cs) => match crate::descriptor::spec_locate_classifier(cs@, os) {
                Option::None => (),
                Option::Some(t) => {
                    assert(classifier_steps.skip(1) =~= Seq::<StepModel>::empty());
                    assert(spec_downloads(classifier_steps) =~= Seq::<StepModel>::empty());
                },
            },
        }
        assert(spec_downloads(steps) =~= Seq::<StepModel>::empty());
    }
}

/// Acquisition is idempotent: when the disk already holds the client jar,
/// every library artifact, the asset index document, and every asset object
/// at their declared sizes, a fresh acquisition plan asks for no download at
/// all — only the unconditional natives re-extractions remain.
pub proof fn lemma_ensure_idempotent(
    d: VersionDescriptor,
    os: Seq<char>,
    versions_dir: Seq<char>,
    libdir: Seq<char>,
    natives_dir: Seq<char>,
    assets_dir: Seq<char>,
    objects: Seq<(String, u64)>,
    disk: DiskState,
)
    requires
        match d.client {
            Option::None => true,
            Option::Some(c) => spec_file_ok(
                &disk,
                versions_dir + "/"@ + d.id@ + "/"@ + d.id@ + ".jar"@,
                c.size,
            ),
        },
        forall|i: int|
            0 <= i < d.libraries@.len() ==> spec_entry_satisfied(
                #[trigger] d.libraries@[i],
                os,
                libdir,
                disk,
            ),
        match d.asset_index {
            Option::None => true,
            Option::Some(ai) => spec_file_ok(&disk, spec_asset_index_path(assets_dir, ai.id@), 0),
        },
        forall|i: int|
            0 <= i < objects.len() ==> spec_file_ok(
                &disk,
                spec_asset_object_path(assets_dir, (#[trigger] objects[i]).0@),
                objects[i].1,
            ),
    ensures
        spec_client_plan(d, versions_dir, disk) == Seq::<StepModel>::empty(),
        spec_downloads(spec_library_plan(d.libraries@, os, libdir, natives_dir, disk)) == Seq::<
            StepModel,
        >::empty(),
        match d.asset_index {
            Option::None => true,
            Option::Some(ai) => spec_asset_index_plan(ai, assets_dir, disk) == Seq::<
                StepModel,
            >::empty(),
        },
        spec_asset_plan(objects, assets_dir, disk) == Seq::<StepModel>::empty(),
{
    lemma_library_plan_no_downloads(d.libraries@, os, libdir, natives_dir, disk);
    lemma_asset_plan_empty(objects, assets_dir, disk);
}

proof fn lemma_library_plan_no_downloads(
    entries: Seq<LibraryEntry>,
    os: Seq<char>,
    libdir: Seq<char>,
    natives_dir: Seq<char>,
    disk: DiskState,
)
    requires
        forall|i: int|
            0 <= i < entries.len() ==> spec_entry_satisfied(#[trigger] entries[i], os, libdir, disk),
    ensures
        spec_downloads(spec_library_plan(entries, os, libdir, natives_dir, disk)) == Seq::<
            StepModel,
        >::empty(),
    decreases entries.len(),
{
    if entries.len() == 0 {
    } else {
        assert(spec_entry_satisfied(entries[0], os, libdir, disk));
        assert(forall|i: int|
            0 <= i < entries.skip(1).len() ==> spec_entry_satisfied(
                #[trigger] entries.skip(1)[i],
                os,
                libdir,
                disk,
            )) by {
            assert(forall|i: int|
                0 <= i < entries.skip(1).len() ==> entries.skip(1)[i] == entries[i + 1]);
        }
        lemma_library_plan_no_downloads(entries.skip(1), os, libdir, natives_dir, disk);
        lemma_entry_steps_no_downloads(entries[0], os, libdir, natives_dir, disk);
        lemma_downloads_concat(
            spec_entry_steps(entries[0], os, libdir, natives_dir, disk),
            spec_library_plan(entries.skip(1), os, libdir, natives_dir, disk),
        );
        assert(spec_downloads(spec_library_plan(entries, os, libdir, natives_dir, disk))
            =~= Seq::<StepModel>::empty());
    }
}

proof fn lemma_asset_plan_empty(objects: Seq<(String, u64)>, assets_dir: Seq<char>, disk: DiskState)
    requires
        forall|i: int|
            0 <= i < objects.len() ==> spec_file_ok(
                &disk,
                spec_asset_object_path(assets_dir, (#[trigger] objects[i]).0@),
                objects[i].1,
            ),
    ensures
        spec_asset_plan(objects, assets_dir, disk) == Seq::<StepModel>::empty(),
    decreases objects.len(),
{
    if objects.len() == 0 {
    } else {
        assert(spec_file_ok(&disk, spec_asset_object_path(assets_dir, objects[0].0@), objects[0].1));
        assert(forall|i: int|
            0 <= i < objects.skip(1).len() ==> objects.skip(1)[i] == objects[i + 1]);
        lemma_asset_plan_empty(objects.skip(1), assets_dir, disk);
        assert(spec_asset_plan(objects, assets_dir, disk) =~= Seq::<StepModel>::empty());
    }
}

/// Any step one library entry owes appears in the whole library plan.
proof fn lemma_library_plan_contains(
    entries: Seq<LibraryEntry>,
    os: Seq<char>,
    libdir: Seq<char>,
    natives_dir: Seq<char>,
    disk: DiskState,
    i: int,
    s: StepModel,
)
    requires
        0 <= i < entries.len(),
        spec_entry_steps(entries[i], os, libdir, natives_dir, disk).contains(s),
    ensures
        spec_library_plan(entries, os, libdir, natives_dir, disk).contains(s),
    decreases i,
{
    let head = spec_entry_steps(entries[0], os, libdir, natives_dir, disk);
    let rest = spec_library_plan(entries.skip(1), os, libdir, natives_dir, disk);
    if i == 0 {
        let j = choose|j: int| 0 <= j < head.len() && head[j] == s;
        assert((head + rest)[j] == s);
    } else {
        assert(entries.skip(1)[i - 1] == entries[i]);
        lemma_library_plan_contains(entries.skip(1), os, libdir, natives_dir, disk, i - 1, s);
        let j = choose|j: int| 0 <= j < rest.len() && rest[j] == s;
        assert((head + rest)[head.len() + j] == s);
    }
}

/// A fresh install end to end: a build whose descriptor declares no base,
/// with nothing yet on disk, is not installed; its plans then demand the
/// declared client jar and the direct artifact of every platform-allowed
/// library. Once its descriptor file and every demanded artifact are
/// present at their declared sizes, the build reports installed and a
/// repeated acquisition owes no download at all.
pub proof fn lemma_fresh_install_scenario(
    v: MinecraftVersion,
    d: VersionDescriptor,
    os: Seq<char>,
    versions_dir: Seq<char>,
    libdir: Seq<char>,
    natives_dir: Seq<char>,
    assets_dir: Seq<char>,
    objects: Seq<(String, u64)>,
    disk0: DiskState,
    disk1: DiskState,
)
    requires
        d.id@ == v.id@,
        v.version_path@ == versions_dir + "/"@ + v.id@,
        d.inherits_from is None,
        descriptor_wf(d),
        forall|p: Seq<char>| !disk0.spec_has(p),
        disk1.spec_has(v.spec_json_path()),
        match d.client {
            Option::None => true,
            Option::Some(c) => spec_file_ok(
                &disk1,
                versions_dir + "/"@ + d.id@ + "/"@ + d.id@ + ".jar"@,
                c.size,
            ),
        },
        forall|i: int|
            0 <= i < d.libraries@.len() ==> spec_entry_satisfied(
                #[trigger] d.libraries@[i],
                os,
                libdir,
                disk1,
            ),
        match d.asset_index {
            Option::None => true,
            Option::Some(ai) => spec_file_ok(&disk1, spec_asset_index_path(assets_dir, ai.id@), 0),
        },
        forall|i: int|
            0 <= i < objects.len() ==> spec_file_ok(
                &disk1,
                spec_asset_object_path(assets_dir, (#[trigger] objects[i]).0@),
                objects[i].1,
            ),
    ensures
        !disk0.spec_has(v.spec_json_path()),
        match d.client {
            Option::None => spec_client_plan(d, versions_dir, disk0) == Seq::<StepModel>::empty(),
            Option::Some(c) => spec_client_plan(d, versions_dir, disk0) == seq![
                StepModel::Download {
                    urls: seq![c.url@],
                    dest: versions_dir + "/"@ + d.id@ + "/"@ + d.id@ + ".jar"@,
                    size: c.size,
                    label: d.id@,
                },
            ],
        },
        forall|i: int|
            0 <= i < d.libraries@.len() && (#[trigger] d.libraries@[i]).downloads_present
                && d.libraries@[i].artifact is Some && spec_entry_allows(d.libraries@[i], os)
                ==> spec_library_plan(d.libraries@, os, libdir, natives_dir, disk0).contains(
                StepModel::Download {
                    urls: seq![d.libraries@[i].artifact->Some_0.url@],
                    dest: libdir + "/"@ + d.libraries@[i].artifact->Some_0.path@,
                    size: d.libraries@[i].artifact->Some_0.size,
                    label: d.libraries@[i].name@,
                },
            ),
        spec_client_plan(d, versions_dir, disk1) == Seq::<StepModel>::empty(),
        spec_downloads(spec_library_plan(d.libraries@, os, libdir, natives_dir, disk1)) == Seq::<
            StepModel,
        >::empty(),
        match d.asset_index {
            Option::None => true,
            Option::Some(ai) => spec_asset_index_plan(ai, assets_dir, disk1) == Seq::<
                StepModel,
            >::empty(),
        },
        spec_asset_plan(objects, assets_dir, disk1) == Seq::<StepModel>::empty(),
{
    lemma_ensure_idempotent(d, os, versions_dir, libdir, natives_dir, assets_dir, objects, disk1);
    match d.client {
        Option::None => {
            assert(spec_client_plan(d, versions_dir, disk0) =~= Seq::<StepModel>::empty());
        },
        Option::Some(c) => {
            let dest = versions_dir + "/"@ + d.id@ + "/"@ + d.id@ + ".jar"@;
            assert(!disk0.spec_has(dest));
            assert(spec_client_plan(d, versions_dir, disk0) =~= seq![
                StepModel::Download {
                    urls: seq![c.url@],
                    dest: dest,
                    size: c.size,
                    label: d.id@,
                },
            ]);
        },
    }
    assert forall|i: int|
        0 <= i < d.libraries@.len() && (#[trigger] d.libraries@[i]).downloads_present
            && d.libraries@[i].artifact is Some && spec_entry_allows(
            d.libraries@[i],
            os,
        ) implies spec_library_plan(d.libraries@, os, libdir, natives_dir, disk0).contains(
        StepModel::Download {
            urls: seq![d.libraries@[i].artifact->Some_0.url@],
            dest: libdir + "/"@ + d.libraries@[i].artifact->Some_0.path@,
            size: d.libraries@[i].artifact->Some_0.size,
            label: d.libraries@[i].name@,
        },
    ) by {
        let e = d.libraries@[i];
        let a = e.artifact->Some_0;
        let dest = libdir + "/"@ + a.path@;
        assert(!disk0.spec_has(dest));
        let dl = StepModel::Download {
            urls: seq![a.url@],
            dest: dest,
            size: a.size,
            label: e.name@,
        };
        let cs: Seq<StepModel> = match e.classifiers {
            Option::None => Seq::empty(),
            Option::Some(cls) => match crate::descriptor::spec_locate_classifier(cls@, os) {
                Option::None => Seq::empty(),
                Option::Some(t) => {
                    let cdest = libdir + "/"@ + t.0;
                    (if spec_file_ok(&disk0, cdest, t.2) {
                        Seq::empty()
                    } else {
                        seq![
                            StepModel::Download {
                                urls: seq![t.1],
                                dest: cdest,
                                size: t.2,
                                label: e.name@,
                            },
                        ]
                    }) + seq![StepModel::Extract { archive: cdest, natives_dir: natives_dir }]
                },
            },
        };
        let steps = spec_entry_steps(e, os, libdir, natives_dir, disk0);
        assert(steps == cs + seq![dl]);
        assert(steps[cs.len() as int] == dl);
        assert(steps.contains(dl));
        lemma_library_plan_contains(d.libraries@, os, libdir, natives_dir, disk0, i, dl);
    }
}

/// Judges one sized download: done when the size agrees (or none was
/// declared), one retry when it does not, fatal on the second disagreement.
pub fn check_sized_download(
    expected: u64,
    observed: u64,
    already_retried: bool,
    label: &String,
) -> (r: Result<bool, LauncherError>)
    ensures
        match r {
            Ok(done) => (done == spec_size_ok(expected, observed)) && (done || !already_retried),
            Err(e) => !spec_size_ok(expected, observed) && already_retried && (e matches
                LauncherError::SizeMismatch(l) && l@ == label@),
        },
{
    if expected == 0 || observed == expected {
        Ok(true)
    } else if !already_retried {
        Ok(false)
    } else {
        Err(LauncherError::SizeMismatch(label.clone()))
    }
}

/// The first step whose download and retry both miss the declared size.
pub open spec fn spec_first_bad(plan: Seq<AcquireStep>, first: Seq<u64>, retry: Seq<u64>) -> Option<
    int,
>
    decreases plan.len(),
{
    if plan.len() == 0 {
        Option::None
    } else {
        let bad0 = match plan[0] {
            AcquireStep::Download { urls, dest, size, label } => !spec_size_ok(size, first[0])
                && !spec_size_ok(size, retry[0]),
            AcquireStep::ExtractNatives { archive, natives_dir } => false,
        };
        if bad0 {
            Option::Some(0)
        } else {
            match spec_first_bad(plan.skip(1), first.skip(1), retry.skip(1)) {
                Option::None => Option::None,
                Option::Some(i) => Option::Some(i + 1),
            }
        }
    }
}

/// The label of a step.
pub open spec fn spec_step_label(s: AcquireStep) -> Seq<char> {
    match s {
        AcquireStep::Download { urls, dest, size, label } => label@,
        AcquireStep::ExtractNatives { archive, natives_dir } => natives_dir@,
    }
}

/// Runs the size judgement over a whole plan, given the byte counts each
/// download observed at first and, where retried, after the retry. The first
/// artifact that still mismatches after its retry is fatal and named in the
/// error, and nothing after it is judged.
pub fn process_download_results(
    plan: &Vec<AcquireStep>,
    first: &Vec<u64>,
    retry: &Vec<u64>,
) -> (r: Result<usize, LauncherError>)
    requires
        first@.len() == plan@.len(),
        retry@.len() == plan@.len(),
    ensures
        match r {
            Ok(n) => n == plan@.len() && spec_first_bad(plan@, first@, retry@) is None,
            Err(e) => match spec_first_bad(plan@, first@, retry@) {
                Option::Some(i) => e matches LauncherError::SizeMismatch(l) && l@
                    == spec_step_label(plan@[i]),
                Option::None => false,
            },
        },
{
    let mut i: usize = 0;
    proof {
        assert(plan@.skip(0) =~= plan@);
        assert(first@.skip(0) =~= first@);
        assert(retry@.skip(0) =~= retry@);
    }
    while i < plan.len()
        invariant
            i <= plan@.len(),
            first@.len() == plan@.len(),
            retry@.len() == plan@.len(),
            spec_first_bad(plan@, first@, retry@) == match spec_first_bad(
                plan@.skip(i as int),
                first@.skip(i as int),
                retry@.skip(i as int),
            ) {
                Option::None => Option::<int>::None,
                Option::Some(k) => Option::Some(k + i),
            },
        decreases plan@.len() - i,
    {
        proof {
            assert(plan@.skip(i as int)[0] == plan@[i as int]);
            assert(plan@.skip(i as int).skip(1) =~= plan@.skip(i + 1));
            assert(first@.skip(i as int)[0] == first@[i as int]);
            assert(first@.skip(i as int).skip(1) =~= first@.skip(i + 1));
            assert(retry@.skip(i as int)[0] == retry@[i as int]);
            assert(retry@.skip(i as int).skip(1) =~= retry@.skip(i + 1));
        }
        match &plan[i] {
            AcquireStep::Download { urls: _, dest: _, size, label } => {
                if !(*size == 0 || first[i] == *size) {
                    if !(*size == 0 || retry[i] == *size) {
                        return Err(LauncherError::SizeMismatch(label.clone()));
                    }
                }
            },
            AcquireStep::ExtractNatives { archive: _, natives_dir: _ } => (),
        }
        i += 1;
    }
    proof {
        assert(plan@.skip(plan@.len() as int) =~= Seq::<AcquireStep>::empty());
        assert(first@.skip(plan@.len() as int) =~= Seq::<u64>::empty());
        assert(retry@.skip(plan@.len() as int) =~= Seq::<u64>::empty());
    }
    Ok(i)
}

} // verus!
