//! The parsed per-build descriptor: its identity, inheritance pointer,
//! client artifact, asset index, argument template, and library descriptors.
//! JSON trees are turned into these plain records here, and the artifact
//! locator decides which file of a library descriptor applies to a platform.
use vstd::prelude::*;

use serde_json::Value;

use crate::errors::LauncherError;
use crate::jsonval::{
    json_as_array, json_as_str, json_as_u64, json_get, json_object_entries,
};
use crate::rules::Rule;
use crate::text::{spec_index_of, spec_replace, index_of, replace_all, str_eq};
use crate::utils::spec_coord_parts;

verus! {

/// The asset index reference of a build.
#[derive(Debug, Clone, PartialEq, Eq)]
pub struct AssetIndex {
    pub id: String,
    pub sha1: String,
    pub size: u64,
    pub total_size: u64,
    pub url: String,
}

/// The direct artifact of a library: its repository-relative path, remote
/// URL, and declared byte size.
#[derive(Debug, Clone, PartialEq, Eq)]
pub struct LibraryInfo {
    pub name: String,
    pub size: u64,
    pub path: String,
    pub url: String,
}

/// One platform-classifier artifact (for example a "natives-linux" bundle).
/// Its relative path may be absent, in which case it is derived from the URL.
#[derive(Debug, Clone, PartialEq, Eq)]
pub struct ClassifierInfo {
    pub key: String,
    pub path: Option<String>,
    pub url: String,
    pub size: u64,
}

/// One library descriptor of a build.
#[derive(Debug, Clone, PartialEq, Eq)]
pub struct LibraryEntry {
    pub name: String,
    /// Whether the descriptor carried a downloads section at all. Entries
    /// without one are plain maven coordinates resolved against the local
    /// library tree.
    pub downloads_present: bool,
    pub artifact: Option<LibraryInfo>,
    pub classifiers: Option<Vec<ClassifierInfo>>,
    pub rules: Option<Vec<Rule>>,
}

/// The client download of a build.
#[derive(Debug, Clone, PartialEq, Eq)]
pub struct ClientDownload {
    pub url: String,
    pub size: u64,
}

/// The argument template of a build: one flat legacy string, or the plain
/// string entries of a modern structured list (conditional entries are
/// dropped at load, a documented simplification), or absent.
#[derive(Debug, Clone, PartialEq, Eq)]
pub enum ArgTemplate {
    Legacy(String),
    Modern(Vec<String>),
    Absent,
}

/// A parsed per-build descriptor document.
#[derive(Debug, Clone, PartialEq, Eq)]
pub struct VersionDescriptor {
    pub id: String,
    pub main_class: Option<String>,
    pub inherits_from: Option<String>,
    pub java_major: Option<u64>,
    pub asset_index: Option<AssetIndex>,
    pub client: Option<ClientDownload>,
    pub libraries: Vec<LibraryEntry>,
    pub arguments: ArgTemplate,
    pub version_type: Option<String>,
}

/// A library entry is well formed when a downloads-less entry carries a full
/// "group:artifact:version" coordinate, which its path derivation needs.
pub open spec fn entry_wf(e: LibraryEntry) -> bool {
    !e.downloads_present ==> spec_coord_parts(e.name@).len() >= 3
}

/// Every library entry of the descriptor is well formed.
pub open spec fn descriptor_wf(d: VersionDescriptor) -> bool {
    forall|i: int| 0 <= i < d.libraries@.len() ==> entry_wf(#[trigger] d.libraries@[i])
}

/// What the locator found for a library on a platform.
#[derive(Debug, Clone, PartialEq, Eq)]
pub struct LocatedArtifact {
    /// Repository-relative path under the libraries directory.
    pub rel_path: String,
    pub url: String,
    pub size: u64,
}

/// The URL with its protocol and host stripped: everything after the first
/// '/' that follows the protocol prefix.
pub open spec fn spec_strip_host(url: Seq<char>) -> Seq<char> {
    let less = spec_replace(spec_replace(url, "https://"@, ""@), "http://"@, ""@);
    let i = spec_index_of(less, '/');
    if i == -1 {
        less
    } else {
        less.skip(i + 1)
    }
}

fn strip_host(url: &str) -> (r: String)
    ensures
        r@ == spec_strip_host(url@),
{
    proof {
        reveal_strlit("https://");
        reveal_strlit("http://");
    }
    let less0 = replace_all(url, "https://", "");
    let less = replace_all(less0.as_str(), "http://", "");
    let len = less.as_str().unicode_len();
    match index_of(less.as_str(), '/') {
        Option::None => less,
        Option::Some(i) => less.as_str().substring_char(i + 1, len).to_owned(),
    }
}

/// The relative path of a classifier artifact: its own path when declared,
/// otherwise derived from its URL.
pub open spec fn spec_classifier_rel_path(c: ClassifierInfo) -> Seq<char> {
    match c.path {
        Option::Some(p) => p@,
        Option::None => spec_strip_host(c.url@),
    }
}

/// The first classifier whose key equals `key`.
pub open spec fn spec_find_classifier(cs: Seq<ClassifierInfo>, key: Seq<char>) -> Option<
    ClassifierInfo,
>
    decreases cs.len(),
{
    if cs.len() == 0 {
        Option::None
    } else if cs[0].key@ == key {
        Option::Some(cs[0])
    } else {
        spec_find_classifier(cs.skip(1), key)
    }
}

fn find_classifier<'a>(cs: &'a Vec<ClassifierInfo>, key: &str) -> (r: Option<&'a ClassifierInfo>)
    ensures
        match r {
            Option::Some(c) => spec_find_classifier(cs@, key@) == Option::Some(*c),
            Option::None => spec_find_classifier(cs@, key@) is None,
        },
{
    let mut i: usize = 0;
    proof {
        assert(cs@.skip(0) =~= cs@);
    }
    while i < cs.len()
        invariant
            i <= cs@.len(),
            spec_find_classifier(cs@, key@) == spec_find_classifier(cs@.skip(i as int), key@),
        decreases cs@.len() - i,
    {
        proof {
            assert(cs@.skip(i as int)[0] == cs@[i as int]);
            assert(cs@.skip(i as int).skip(1) =~= cs@.skip(i + 1));
        }
        if str_eq(cs[i].key.as_str(), key) {
            return Some(&cs[i]);
        }
        i += 1;
    }
    proof {
        assert(cs@.skip(cs@.len() as int) =~= Seq::<ClassifierInfo>::empty());
    }
    None
}

/// What the natives classifier list yields for a platform, as
/// (relative path, url, size): the "natives-&lt;os&gt;" entry, with the
/// historical "-64" fallback on windows.
pub open spec fn spec_locate_classifier(cs: Seq<ClassifierInfo>, os: Seq<char>) -> Option<
    (Seq<char>, Seq<char>, u64),
> {
    match spec_find_classifier(cs, "natives-"@ + os) {
        Option::Some(c) => Option::Some((spec_classifier_rel_path(c), c.url@, c.size)),
        Option::None => {
            if os == "windows"@ {
                match spec_find_classifier(cs, "natives-"@ + os + "-64"@) {
                    Option::Some(c) => Option::Some((spec_classifier_rel_path(c), c.url@, c.size)),
                    Option::None => Option::None,
                }
            } else {
                Option::None
            }
        },
    }
}

/// What the locator yields for an entry on a platform, as
/// (relative path, url, size), or nothing when the entry has no artifact for
/// that platform.
pub open spec fn spec_locate(e: LibraryEntry, os: Seq<char>) -> Option<(Seq<char>, Seq<char>, u64)> {
    match e.artifact {
        Option::Some(a) => Option::Some((a.path@, a.url@, a.size)),
        Option::None => match e.classifiers {
            Option::None => Option::None,
            Option::Some(cs) => spec_locate_classifier(cs@, os),
        },
    }
}

fn located_from_classifier(c: &ClassifierInfo) -> (r: LocatedArtifact)
    ensures
        r.rel_path@ == spec_classifier_rel_path(*c),
        r.url@ == c.url@,
        r.size == c.size,
{
    let rel_path = match &c.path {
        Option::Some(p) => p.clone(),
        Option::None => strip_host(c.url.as_str()),
    };
    LocatedArtifact { rel_path, url: c.url.clone(), size: c.size }
}

/// Finds the natives classifier of a classifier list that applies to
/// platform `os`.
pub fn locate_classifier(cs: &Vec<ClassifierInfo>, os: &str) -> (r: Option<LocatedArtifact>)
    ensures
        match r {
            Option::Some(l) => spec_locate_classifier(cs@, os@) == Option::Some(
                (l.rel_path@, l.url@, l.size),
            ),
            Option::None => spec_locate_classifier(cs@, os@) is None,
        },
{
    let mut key = "natives-".to_owned();
    key.append(os);
    match find_classifier(cs, key.as_str()) {
        Option::Some(c) => Option::Some(located_from_classifier(c)),
        Option::None => {
            if str_eq(os, "windows") {
                let mut key64 = key;
                key64.append("-64");
                match find_classifier(cs, key64.as_str()) {
                    Option::Some(c) => Option::Some(located_from_classifier(c)),
                    Option::None => Option::None,
                }
            } else {
                Option::None
            }
        },
    }
}

/// Finds the artifact of `e` that applies to platform `os`: the direct
/// artifact when present, otherwise the matching natives classifier (with
/// the historical "-64" fallback on windows), otherwise nothing — which is
/// not an error.
pub fn locate_artifact(e: &LibraryEntry, os: &str) -> (r: Option<LocatedArtifact>)
    ensures
        match r {
            Option::Some(l) => spec_locate(*e, os@) == Option::Some((l.rel_path@, l.url@, l.size)),
            Option::None => spec_locate(*e, os@) is None,
        },
{
    match &e.artifact {
        Option::Some(a) => Option::Some(
            LocatedArtifact { rel_path: a.path.clone(), url: a.url.clone(), size: a.size },
        ),
        Option::None => match &e.classifiers {
            Option::None => Option::None,
            Option::Some(cs) => locate_classifier(cs, os),
        },
    }
}

/// Reads the direct artifact record of a library's JSON; every field is
/// required, and a missing one fails the load.
pub fn library_from_value(value: &Value) -> (r: Result<LibraryInfo, LauncherError>)
    ensures
        r is Err ==> r == Err::<LibraryInfo, LauncherError>(LauncherError::ManifestCorrupt),
{
    let name = match json_get(value, "name") {
        Option::Some(v) => match json_as_str(v) {
            Option::Some(s) => s.to_owned(),
            Option::None => {
                return Err(LauncherError::ManifestCorrupt);
            },
        },
        Option::None => {
            return Err(LauncherError::ManifestCorrupt);
        },
    };
    let downloads = match json_get(value, "downloads") {
        Option::Some(v) => v,
        Option::None => {
            return Err(LauncherError::ManifestCorrupt);
        },
    };
    let artifact = match json_get(downloads, "artifact") {
        Option::Some(v) => v,
        Option::None => {
            return Err(LauncherError::ManifestCorrupt);
        },
    };
    let path = match json_get(artifact, "path") {
        Option::Some(v) => match json_as_str(v) {
            Option::Some(s) => s.to_owned(),
            Option::None => {
                return Err(LauncherError::ManifestCorrupt);
            },
        },
        Option::None => {
            return Err(LauncherError::ManifestCorrupt);
        },
    };
    let url = match json_get(artifact, "url") {
        Option::Some(v) => match json_as_str(v) {
            Option::Some(s) => s.to_owned(),
            Option::None => {
                return Err(LauncherError::ManifestCorrupt);
            },
        },
        Option::None => {
            return Err(LauncherError::ManifestCorrupt);
        },
    };
    let size = match json_get(artifact, "size") {
        Option::Some(v) => match json_as_u64(v) {
            Option::Some(n) => n,
            Option::None => {
                return Err(LauncherError::ManifestCorrupt);
            },
        },
        Option::None => {
            return Err(LauncherError::ManifestCorrupt);
        },
    };
    Ok(LibraryInfo { name, size, path, url })
}

fn classifiers_from_value(value: &Value) -> (r: Result<Vec<ClassifierInfo>, LauncherError>)
    ensures
        r is Err ==> r == Err::<Vec<ClassifierInfo>, LauncherError>(LauncherError::ManifestCorrupt),
{
    let entries = match json_object_entries(value) {
        Option::Some(e) => e,
        Option::None => {
            return Err(LauncherError::ManifestCorrupt);
        },
    };
    let mut out: Vec<ClassifierInfo> = Vec::new();
    let mut i: usize = 0;
    while i < entries.len()
        decreases entries@.len() - i,
    {
        let key = entries[i].0.clone();
        let body = &entries[i].1;
        let path = match json_get(body, "path") {
            Option::None => Option::None,
            Option::Some(v) => match json_as_str(v) {
                Option::Some(s) => Option::Some(s.to_owned()),
                Option::None => {
                    return Err(LauncherError::ManifestCorrupt);
                },
            },
        };
        let url = match json_get(body, "url") {
            Option::Some(v) => match json_as_str(v) {
                Option::Some(s) => s.to_owned(),
                Option::None => {
                    return Err(LauncherError::ManifestCorrupt);
                },
            },
            Option::None => {
                return Err(LauncherError::ManifestCorrupt);
            },
        };
        let size = match json_get(body, "size") {
            Option::Some(v) => match json_as_u64(v) {
                Option::Some(n) => n,
                Option::None => {
                    return Err(LauncherError::ManifestCorrupt);
                },
            },
            Option::None => {
                return Err(LauncherError::ManifestCorrupt);
            },
        };
        out.push(ClassifierInfo { key, path, url, size });
        i += 1;
    }
    Ok(out)
}

/// Reads one library entry. A downloads-less entry must carry a full
/// three-part coordinate; a malformed one fails the load rather than
/// admitting an unresolvable dependency.
pub fn library_entry_from_value(value: &Value) -> (r: Result<LibraryEntry, LauncherError>)
    ensures
        match r {
            Ok(e) => entry_wf(e),
            Err(e) => e == LauncherError::ManifestCorrupt,
        },
{
    let name = match json_get(value, "name") {
        Option::Some(v) => match json_as_str(v) {
            Option::Some(s) => s.to_owned(),
            Option::None => {
                return Err(LauncherError::ManifestCorrupt);
            },
        },
        Option::None => {
            return Err(LauncherError::ManifestCorrupt);
        },
    };
    let rules = match json_get(value, "rules") {
        Option::None => Option::None,
        Option::Some(v) => Option::Some(crate::rules::rules_from_value(v)?),
    };
    match json_get(value, "downloads") {
        Option::None => {
            let parts = crate::text::split_char(name.as_str(), ':');
            if parts.len() < 3 {
                return Err(LauncherError::ManifestCorrupt);
            }
            proof {
                assert(crate::text::seq_views(parts@).len() == parts@.len());
            }
            Ok(
                LibraryEntry {
                    name,
                    downloads_present: false,
                    artifact: Option::None,
                    classifiers: Option::None,
                    rules,
                },
            )
        },
        Option::Some(downloads) => {
            let artifact = match json_get(downloads, "artifact") {
                Option::None => Option::None,
                Option::Some(_) => Option::Some(
                    match library_from_value(value) {
                        Ok(a) => a,
                        Err(e) => {
                            return Err(e);
                        },
                    },
                ),
            };
            let classifiers = match json_get(downloads, "classifiers") {
                Option::None => Option::None,
                Option::Some(c) => Option::Some(
                    match classifiers_from_value(c) {
                        Ok(cs) => cs,
                        Err(e) => {
                            return Err(e);
                        },
                    },
                ),
            };
            Ok(
                LibraryEntry {
                    name,
                    downloads_present: true,
                    artifact,
                    classifiers,
                    rules,
                },
            )
        },
    }
}

/// Reads the library list of a descriptor; any malformed entry fails the
/// whole load.
pub fn libraries_from_value(value: &Value) -> (r: Result<Vec<LibraryEntry>, LauncherError>)
    ensures
        match r {
            Ok(v) => forall|i: int| 0 <= i < v@.len() ==> entry_wf(#[trigger] v@[i]),
            Err(e) => e == LauncherError::ManifestCorrupt,
        },
{
    let arr = match json_as_array(value) {
        Option::Some(a) => a,
        Option::None => {
            return Err(LauncherError::ManifestCorrupt);
        },
    };
    let mut out: Vec<LibraryEntry> = Vec::new();
    let mut i: usize = 0;
    while i < arr.len()
        invariant
            forall|j: int| 0 <= j < out@.len() ==> entry_wf(#[trigger] out@[j]),
        decreases arr@.len() - i,
    {
        match library_entry_from_value(&arr[i]) {
            Ok(e) => out.push(e),
            Err(e) => {
                return Err(e);
            },
        }
        i += 1;
    }
    Ok(out)
}

fn optional_string_field(value: &Value, key: &str) -> (r: Result<Option<String>, LauncherError>)
    ensures
        r is Err ==> r == Err::<Option<String>, LauncherError>(LauncherError::ManifestCorrupt),
{
    match json_get(value, key) {
        Option::None => Ok(Option::None),
        Option::Some(v) => match json_as_str(v) {
            Option::Some(s) => Ok(Option::Some(s.to_owned())),
            Option::None => Err(LauncherError::ManifestCorrupt),
        },
    }
}

fn asset_index_from_value(value: &Value) -> (r: Result<AssetIndex, LauncherError>)
    ensures
        r is Err ==> r == Err::<AssetIndex, LauncherError>(LauncherError::ManifestCorrupt),
{
    let id = match json_get(value, "id") {
        Option::Some(v) => match json_as_str(v) {
            Option::Some(s) => s.to_owned(),
            Option::None => {
                return Err(LauncherError::ManifestCorrupt);
            },
        },
        Option::None => {
            return Err(LauncherError::ManifestCorrupt);
        },
    };
    let sha1 = match json_get(value, "sha1") {
        Option::None => String::new(),
        Option::Some(v) => match json_as_str(v) {
            Option::Some(s) => s.to_owned(),
            Option::None => {
                return Err(LauncherError::ManifestCorrupt);
            },
        },
    };
    let url = match json_get(value, "url") {
        Option::Some(v) => match json_as_str(v) {
            Option::Some(s) => s.to_owned(),
            Option::None => {
                return Err(LauncherError::ManifestCorrupt);
            },
        },
        Option::None => {
            return Err(LauncherError::ManifestCorrupt);
        },
    };
    let size = match json_get(value, "size") {
        Option::None => 0u64,
        Option::Some(v) => match json_as_u64(v) {
            Option::Some(n) => n,
            Option::None => {
                return Err(LauncherError::ManifestCorrupt);
            },
        },
    };
    let total_size = match json_get(value, "totalSize") {
        Option::None => 0u64,
        Option::Some(v) => match json_as_u64(v) {
            Option::Some(n) => n,
            Option::None => {
                return Err(LauncherError::ManifestCorrupt);
            },
        },
    };
    Ok(AssetIndex { id, sha1, size, total_size, url })
}

/// Loads a build's descriptor from the text of its on-disk file, when there
/// is one. An absent file is the explicit "not loaded" outcome, never an
/// error — acquisition is a separate phase and nothing here may block on the
/// network; a present file that does not parse is fatal.
pub fn load_descriptor_text(text: Option<&str>) -> (r: Result<
    Option<VersionDescriptor>,
    LauncherError,
>)
    ensures
        match r {
            Ok(d) => match d {
                Option::None => text is None,
                Option::Some(d) => text is Some && descriptor_wf(d),
            },
            Err(e) => text is Some && (e == LauncherError::ManifestCorrupt || e matches
                LauncherError::MissingRequiredField(_)),
        },
{
    match text {
        Option::None => Ok(Option::None),
        Option::Some(t) => match crate::jsonval::json_parse(t) {
            Result::Err(_) => Err(LauncherError::ManifestCorrupt),
            Result::Ok(value) => match version_descriptor_from_value(&value) {
                Ok(d) => Ok(Option::Some(d)),
                Err(e) => Err(e),
            },
        },
    }
}

/// Parses a whole per-build descriptor document into the engine's model.
/// The descriptor id is required; everything else is optional across schema
/// versions, and a present-but-malformed field fails the load.
pub fn version_descriptor_from_value(value: &Value) -> (r: Result<
    VersionDescriptor,
    LauncherError,
>)
    ensures
        match r {
            Ok(d) => descriptor_wf(d),
            Err(e) => e == LauncherError::ManifestCorrupt || e matches
                LauncherError::MissingRequiredField(_),
        },
{
    let id = match json_get(value, "id") {
        Option::Some(v) => match json_as_str(v) {
            Option::Some(s) => s.to_owned(),
            Option::None => {
                return Err(LauncherError::MissingRequiredField("id".to_owned()));
            },
        },
        Option::None => {
            return Err(LauncherError::MissingRequiredField("id".to_owned()));
        },
    };
    let main_class = optional_string_field(value, "mainClass")?;
    let inherits_from = optional_string_field(value, "inheritsFrom")?;
    let version_type = optional_string_field(value, "type")?;
    let java_major = match json_get(value, "javaVersion") {
        Option::None => Option::None,
        Option::Some(jv) => match json_get(jv, "majorVersion") {
            Option::None => Option::None,
            Option::Some(v) => match json_as_u64(v) {
                Option::Some(n) => Option::Some(n),
                Option::None => {
                    return Err(LauncherError::ManifestCorrupt);
                },
            },
        },
    };
    let asset_index = match json_get(value, "assetIndex") {
        Option::None => Option::None,
        Option::Some(v) => Option::Some(
            match asset_index_from_value(v) {
                Ok(a) => a,
                Err(e) => {
                    return Err(e);
                },
            },
        ),
    };
    let client = match json_get(value, "downloads") {
        Option::None => Option::None,
        Option::Some(d) => match json_get(d, "client") {
            Option::None => Option::None,
            Option::Some(c) => {
                let url = match json_get(c, "url") {
                    Option::Some(v) => match json_as_str(v) {
                        Option::Some(s) => s.to_owned(),
                        Option::None => {
                            return Err(LauncherError::ManifestCorrupt);
                        },
                    },
                    Option::None => {
                        return Err(LauncherError::ManifestCorrupt);
                    },
                };
                let size = match json_get(c, "size") {
                    Option::Some(v) => match json_as_u64(v) {
                        Option::Some(n) => n,
                        Option::None => {
                            return Err(LauncherError::ManifestCorrupt);
                        },
                    },
                    Option::None => {
                        return Err(LauncherError::ManifestCorrupt);
                    },
                };
                Option::Some(ClientDownload { url, size })
            },
        },
    };
    let libraries = match json_get(value, "libraries") {
        Option::None => Vec::new(),
        Option::Some(v) => match libraries_from_value(v) {
            Ok(ls) => ls,
            Err(e) => {
                return Err(e);
            },
        },
    };
    let arguments = match json_get(value, "minecraftArguments") {
        Option::Some(v) => match json_as_str(v) {
            Option::Some(s) => ArgTemplate::Legacy(s.to_owned()),
            Option::None => {
                return Err(LauncherError::ManifestCorrupt);
            },
        },
        Option::None => match json_get(value, "arguments") {
            Option::None => ArgTemplate::Absent,
            Option::Some(a) => match json_get(a, "game") {
                Option::None => ArgTemplate::Absent,
                Option::Some(g) => match json_as_array(g) {
                    Option::None => {
                        return Err(LauncherError::ManifestCorrupt);
                    },
                    Option::Some(arr) => {
                        let mut plain: Vec<String> = Vec::new();
                        let mut i: usize = 0;
                        while i < arr.len()
                            decreases arr@.len() - i,
                        {
                            match json_as_str(&arr[i]) {
                                Option::Some(s) => plain.push(s.to_owned()),
                                Option::None => (),
                            }
                            i += 1;
                        }
                        ArgTemplate::Modern(plain)
                    },
                },
            },
        },
    };
    Ok(
        VersionDescriptor {
            id,
            main_class,
            inherits_from,
            java_major,
            asset_index,
            client,
            libraries,
            arguments,
            version_type,
        },
    )
}

} // verus!
