//! The version model: one installable build, its on-disk location, the
//! overlay family its folder name indicates, inheritance resolution, and the
//! classpath computation (per-platform library paths and the overlay/base
//! merge with override semantics).
use vstd::prelude::*;

use crate::descriptor::{entry_wf, spec_locate, LibraryEntry};
use crate::disk::DiskState;
use crate::rules::{
    evaluate_rules, is_os_allowed, spec_effective_allowed, spec_effective_disallowed, Rule,
};
use crate::text::{
    contains_sub, lower_seq, seq_views, spec_contains, to_ascii_lowercase, vec_contains_str,
};
use crate::utils::{extend_once, spec_extend_once, spec_maven_rel_path};

verus! {

/// The overlay family of a build.
#[allow(non_camel_case_types)]
#[derive(Debug, Clone, Copy, PartialEq, Eq, Structural)]
pub enum VersionBase {
    VANILLA,
    FORGE,
    NEOFORGE,
    FABRIC,
    LITELOADER,
}

/// One installable build: its id, the directory holding its files, and its
/// overlay family.
#[derive(Debug, Clone)]
pub struct MinecraftVersion {
    pub id: String,
    pub version_path: String,
    pub base: VersionBase,
}

impl PartialEq for MinecraftVersion {
    fn eq(&self, other: &Self) -> (r: bool) {
        self.id == other.id && self.version_path == other.version_path && self.base == other.base
    }
}

impl vstd::std_specs::cmp::PartialEqSpecImpl for MinecraftVersion {
    open spec fn obeys_eq_spec() -> bool {
        true
    }

    open spec fn eq_spec(&self, other: &Self) -> bool {
        self.id@ == other.id@ && self.version_path@ == other.version_path@ && self.base
            == other.base
    }
}

/// The overlay family a folder name indicates. The checks run in this order,
/// so a folder naming a derivative loader that contains another loader's
/// name classifies as the earlier match.
pub open spec fn spec_base_of(folder: Seq<char>) -> VersionBase {
    let lower = lower_seq(folder);
    if spec_contains(lower, "forge"@) {
        VersionBase::FORGE
    } else if spec_contains(lower, "fabric"@) {
        VersionBase::FABRIC
    } else if spec_contains(lower, "liteloader"@) {
        VersionBase::LITELOADER
    } else if spec_contains(lower, "neoforge"@) {
        VersionBase::NEOFORGE
    } else {
        VersionBase::VANILLA
    }
}

fn classify_base(folder: &str) -> (r: VersionBase)
    ensures
        r == spec_base_of(folder@),
{
    let lower = to_ascii_lowercase(folder);
    if contains_sub(lower.as_str(), "forge") {
        VersionBase::FORGE
    } else if contains_sub(lower.as_str(), "fabric") {
        VersionBase::FABRIC
    } else if contains_sub(lower.as_str(), "liteloader") {
        VersionBase::LITELOADER
    } else if contains_sub(lower.as_str(), "neoforge") {
        VersionBase::NEOFORGE
    } else {
        VersionBase::VANILLA
    }
}

impl MinecraftVersion {
    /// The descriptor file of this build: `<dir>/<id>.json`.
    pub open spec fn spec_json_path(&self) -> Seq<char> {
        self.version_path@ + "/"@ + self.id@ + ".json"@
    }

    /// Builds the model for id `id` living in folder `version_folder` under
    /// the versions directory.
    pub fn new(id: String, version_folder: String, versions_dir: &str) -> (r: MinecraftVersion)
        ensures
            r.id@ == id@,
            r.version_path@ == versions_dir@ + "/"@ + version_folder@,
            r.base == spec_base_of(version_folder@),
    {
        let base = classify_base(version_folder.as_str());
        let mut path = versions_dir.to_owned();
        path.append("/");
        path.append(version_folder.as_str());
        MinecraftVersion { id, version_path: path, base }
    }

    /// Builds the model for a known id, whose folder is named after it.
    pub fn from_id(id: String, versions_dir: &str) -> (r: MinecraftVersion)
        ensures
            r.id@ == id@,
            r.version_path@ == versions_dir@ + "/"@ + id@,
            r.base == spec_base_of(id@),
    {
        let folder = id.clone();
        MinecraftVersion::new(id, folder, versions_dir)
    }

    /// Builds the model for a version discovered on disk: the directory is
    /// known, and the id was read from the descriptor inside it, so the two
    /// may differ.
    pub fn from_folder(directory: &String, descriptor_id: &String) -> (r: MinecraftVersion)
        ensures
            r.id@ == descriptor_id@,
            r.version_path@ == directory@,
            r.base == spec_base_of(directory@),
    {
        let base = classify_base(directory.as_str());
        MinecraftVersion { id: descriptor_id.clone(), version_path: directory.clone(), base }
    }

    /// The path of this build's descriptor file.
    pub fn get_json(&self) -> (r: String)
        ensures
            r@ == self.spec_json_path(),
    {
        let mut out = self.version_path.clone();
        out.append("/");
        out.append(self.id.as_str());
        out.append(".json");
        out
    }

    /// The client jar of this build: `<dir>/<id>.jar`. The launch classpath
    /// leads with the target build's own jar, followed by the merged library
    /// list.
    pub fn client_jar_path(&self) -> (r: String)
        ensures
            r@ == self.version_path@ + "/"@ + self.id@ + ".jar"@,
    {
        let mut out = self.version_path.clone();
        out.append("/");
        out.append(self.id.as_str());
        out.append(".jar");
        out
    }

    /// Whether the build is installed: derived fresh from the disk state,
    /// never cached, so outside deletion is tolerated.
    pub fn is_installed(&self, disk: &DiskState) -> (r: bool)
        ensures
            r == disk.spec_has(self.spec_json_path()),
    {
        let json = self.get_json();
        disk.has_file(json.as_str())
    }

    /// Whether the id names a forge-family build.
    pub fn is_forge(&self) -> (r: bool)
        ensures
            r == spec_contains(self.id@, "forge"@),
    {
        contains_sub(self.id.as_str(), "forge")
    }

    /// Whether the id names a fabric-family build.
    pub fn is_fabric(&self) -> (r: bool)
        ensures
            r == spec_contains(self.id@, "fabric"@),
    {
        contains_sub(self.id.as_str(), "fabric")
    }

    /// The build this one inherits from, per its loaded descriptor: itself
    /// when the descriptor declares no base. Inheritance is chased one level
    /// only; the result's own base build, if any, is not followed here.
    pub fn get_inherited(&self, inherits_from: &Option<String>, versions_dir: &str) -> (r:
        MinecraftVersion)
        ensures
            match inherits_from {
                Option::None => r.id@ == self.id@ && r.version_path@ == self.version_path@
                    && r.base == self.base,
                Option::Some(base_id) => r.id@ == base_id@ && r.version_path@ == versions_dir@
                    + "/"@ + base_id@ && r.base == spec_base_of(base_id@),
            },
    {
        match inherits_from {
            Option::None => self.clone_version(),
            Option::Some(base_id) => MinecraftVersion::from_id(base_id.clone(), versions_dir),
        }
    }

    /// A field-preserving copy.
    pub fn clone_version(&self) -> (r: MinecraftVersion)
        ensures
            r == *self,
            r.id@ == self.id@,
            r.version_path@ == self.version_path@,
            r.base == self.base,
    {
        MinecraftVersion {
            id: self.id.clone(),
            version_path: self.version_path.clone(),
            base: self.base,
        }
    }
}

/// The rule list of an entry, an empty list when it declares none.
pub open spec fn spec_entry_rules(e: LibraryEntry) -> Seq<Rule> {
    match e.rules {
        Option::None => Seq::empty(),
        Option::Some(v) => v@,
    }
}

/// Whether platform `os` may use entry `e` under its rules.
pub open spec fn spec_entry_allows(e: LibraryEntry, os: Seq<char>) -> bool {
    spec_effective_allowed(spec_entry_rules(e)).contains(os) && !spec_effective_disallowed(
        spec_entry_rules(e),
    ).contains(os)
}

/// The on-disk path entry `e` resolves to on platform `os`, if any.
pub open spec fn spec_entry_path(e: LibraryEntry, os: Seq<char>, libdir: Seq<char>) -> Option<
    Seq<char>,
> {
    if !e.downloads_present {
        Option::Some(libdir + "/"@ + spec_maven_rel_path(e.name@))
    } else {
        match spec_locate(e, os) {
            Option::None => Option::None,
            Option::Some(t) => Option::Some(libdir + "/"@ + t.0),
        }
    }
}

/// Folds one entry into the accumulated path list: skipped when the platform
/// is not allowed, when it resolves to nothing, when a downloads-less
/// coordinate is not on disk, or when the path is already present (first
/// occurrence wins).
pub open spec fn spec_step(
    e: LibraryEntry,
    os: Seq<char>,
    libdir: Seq<char>,
    disk: DiskState,
    acc: Seq<Seq<char>>,
) -> Seq<Seq<char>> {
    if !spec_entry_allows(e, os) {
        acc
    } else {
        match spec_entry_path(e, os, libdir) {
            Option::None => acc,
            Option::Some(p) => {
                let usable = if !e.downloads_present {
                    disk.spec_has(p)
                } else {
                    true
                };
                if usable && !acc.contains(p) {
                    acc.push(p)
                } else {
                    acc
                }
            },
        }
    }
}

/// The path list accumulated over `entries` in order.
pub open spec fn spec_lib_paths_from(
    entries: Seq<LibraryEntry>,
    os: Seq<char>,
    libdir: Seq<char>,
    disk: DiskState,
    acc: Seq<Seq<char>>,
) -> Seq<Seq<char>>
    decreases entries.len(),
{
    if entries.len() == 0 {
        acc
    } else {
        spec_lib_paths_from(
            entries.skip(1),
            os,
            libdir,
            disk,
            spec_step(entries[0], os, libdir, disk, acc),
        )
    }
}

/// The classpath contribution of a library list on platform `os`.
pub open spec fn spec_library_paths(
    entries: Seq<LibraryEntry>,
    os: Seq<char>,
    libdir: Seq<char>,
    disk: DiskState,
) -> Seq<Seq<char>> {
    spec_lib_paths_from(entries, os, libdir, disk, Seq::empty())
}

pub fn entry_allows(e: &LibraryEntry, os: &str) -> (r: bool)
    ensures
        r == spec_entry_allows(*e, os@),
{
    let lr = match &e.rules {
        Option::None => {
            let empty: Vec<Rule> = Vec::new();
            proof {
                assert(empty@ =~= spec_entry_rules(*e));
            }
            evaluate_rules(&empty)
        },
        Option::Some(rs) => evaluate_rules(rs),
    };
    is_os_allowed(&lr, os)
}

/// Computes the library paths of a descriptor's library list for platform
/// `os`: rule-allowed entries only, resolved by the locator, deduplicated by
/// final path with the first occurrence winning, in descriptor order.
pub fn get_library_paths(
    libraries: &Vec<LibraryEntry>,
    os: &str,
    libraries_dir: &str,
    disk: &DiskState,
) -> (r: Vec<String>)
    requires
        forall|i: int| 0 <= i < libraries@.len() ==> entry_wf(#[trigger] libraries@[i]),
    ensures
        seq_views(r@) == spec_library_paths(libraries@, os@, libraries_dir@, *disk),
{
    let ghost full = spec_library_paths(libraries@, os@, libraries_dir@, *disk);
    let mut out: Vec<String> = Vec::new();
    let mut i: usize = 0;
    proof {
        assert(libraries@.skip(0) =~= libraries@);
        assert(seq_views(out@) =~= Seq::<Seq<char>>::empty());
    }
    while i < libraries.len()
        invariant
            i <= libraries@.len(),
            forall|k: int| 0 <= k < libraries@.len() ==> entry_wf(#[trigger] libraries@[k]),
            full == spec_lib_paths_from(
                libraries@.skip(i as int),
                os@,
                libraries_dir@,
                *disk,
                seq_views(out@),
            ),
            full == spec_library_paths(libraries@, os@, libraries_dir@, *disk),
        decreases libraries@.len() - i,
    {
        let ghost e = libraries@[i as int];
        proof {
            assert(libraries@.skip(i as int)[0] == e);
            assert(libraries@.skip(i as int).skip(1) =~= libraries@.skip(i + 1));
        }
        let entry = &libraries[i];
        let ghost prev = out@;
        if entry_allows(entry, os) {
            if !entry.downloads_present {
                let path = crate::utils::parse_library_name_to_path(
                    entry.name.clone(),
                    libraries_dir,
                );
                if disk.has_file(path.as_str()) && !vec_contains_str(&out, path.as_str()) {
                    out.push(path);
                    proof {
                        assert(seq_views(out@) =~= seq_views(prev).push(
                            spec_entry_path(e, os@, libraries_dir@)->Some_0,
                        ));
                    }
                }
            } else {
                match crate::descriptor::locate_artifact(entry, os) {
                    Option::None => (),
                    Option::Some(located) => {
                        let mut path = libraries_dir.to_owned();
                        path.append("/");
                        path.append(located.rel_path.as_str());
                        if !vec_contains_str(&out, path.as_str()) {
                            out.push(path);
                            proof {
                                assert(seq_views(out@) =~= seq_views(prev).push(
                                    spec_entry_path(e, os@, libraries_dir@)->Some_0,
                                ));
                            }
                        }
                    },
                }
            }
        }
        proof {
            assert(seq_views(out@) =~= spec_step(e, os@, libraries_dir@, *disk, seq_views(prev)));
        }
        i += 1;
    }
    proof {
        assert(libraries@.skip(libraries@.len() as int) =~= Seq::<LibraryEntry>::empty());
    }
    out
}

/// The index of the last occurrence of `c` in `s`, or -1 when absent.
pub open spec fn spec_last_index_of(s: Seq<char>, c: char) -> int
    decreases s.len(),
{
    if s.len() == 0 {
        -1
    } else if s.last() == c {
        s.len() - 1
    } else {
        spec_last_index_of(s.drop_last(), c)
    }
}

fn last_index_of(s: &str, c: char) -> (r: Option<usize>)
    ensures
        match r {
            Option::Some(i) => spec_last_index_of(s@, c) == i && i < s@.len(),
            Option::None => spec_last_index_of(s@, c) == -1,
        },
    decreases s@.len(),
{
    let len = s.unicode_len();
    if len == 0 {
        return None;
    }
    if s.get_char(len - 1) == c {
        return Some(len - 1);
    }
    proof {
        assert(s@.subrange(0, len - 1) =~= s@.drop_last());
    }
    last_index_of(s.substring_char(0, len - 1), c)
}

/// The dependency identity of a resolved library path: the path with its
/// last two segments (version directory and file name) removed, which is the
/// group-and-artifact prefix in the repository layout.
pub open spec fn spec_path_identity(p: Seq<char>) -> Seq<char> {
    let i = spec_last_index_of(p, '/');
    if i < 0 {
        p
    } else {
        let j = spec_last_index_of(p.subrange(0, i), '/');
        if j < 0 {
            p
        } else {
            p.subrange(0, j)
        }
    }
}

/// Computes the dependency identity of a path.
pub fn path_identity(p: &str) -> (r: String)
    ensures
        r@ == spec_path_identity(p@),
{
    let len = p.unicode_len();
    match last_index_of(p, '/') {
        Option::None => p.to_owned(),
        Option::Some(i) => {
            match last_index_of(p.substring_char(0, i), '/') {
                Option::None => p.to_owned(),
                Option::Some(j) => p.substring_char(0, j).to_owned(),
            }
        },
    }
}

/// Whether some entry of `l` has dependency identity `ident`.
pub open spec fn spec_has_identity(l: Seq<Seq<char>>, ident: Seq<char>) -> bool
    decreases l.len(),
{
    if l.len() == 0 {
        false
    } else {
        spec_path_identity(l[0]) == ident || spec_has_identity(l.skip(1), ident)
    }
}

fn has_identity(l: &Vec<String>, ident: &str) -> (r: bool)
    ensures
        r == spec_has_identity(seq_views(l@), ident@),
{
    let mut i: usize = 0;
    proof {
        assert(seq_views(l@).skip(0) =~= seq_views(l@));
    }
    while i < l.len()
        invariant
            i <= l@.len(),
            spec_has_identity(seq_views(l@), ident@) == spec_has_identity(
                seq_views(l@).skip(i as int),
                ident@,
            ),
        decreases l@.len() - i,
    {
        proof {
            assert(seq_views(l@).skip(i as int)[0] == l@[i as int]@);
            assert(seq_views(l@).skip(i as int).skip(1) =~= seq_views(l@).skip(i + 1));
        }
        let ident_i = path_identity(l[i].as_str());
        if crate::text::str_eq(ident_i.as_str(), ident) {
            return true;
        }
        i += 1;
    }
    proof {
        assert(seq_views(l@).skip(l@.len() as int) =~= Seq::<Seq<char>>::empty());
    }
    false
}

/// The overlay paths that survive the override rule: those whose dependency
/// identity does not also occur in the inherited list.
pub open spec fn spec_kept(own: Seq<Seq<char>>, inherited: Seq<Seq<char>>) -> Seq<Seq<char>>
    decreases own.len(),
{
    if own.len() == 0 {
        Seq::empty()
    } else {
        let rest = spec_kept(own.skip(1), inherited);
        if spec_has_identity(inherited, spec_path_identity(own[0])) {
            rest
        } else {
            seq![own[0]] + rest
        }
    }
}

/// The merged classpath list: the overlay's non-overridden paths first, then
/// the complete inherited list, without exact-path duplicates.
pub open spec fn spec_merged(own: Seq<Seq<char>>, inherited: Seq<Seq<char>>) -> Seq<Seq<char>> {
    spec_extend_once(spec_kept(own, inherited), inherited)
}

impl MinecraftVersion {
    /// Merges this build's own library paths with its inherited build's
    /// paths: any dependency both declare resolves to the inherited build's
    /// copy, and the inherited list is appended in full.
    pub fn get_libraries(
        &self,
        own_paths: Vec<String>,
        inherited_paths: Vec<String>,
    ) -> (r: Vec<String>)
        ensures
            seq_views(r@) == spec_merged(seq_views(own_paths@), seq_views(inherited_paths@)),
    {
        let ghost own = seq_views(own_paths@);
        let ghost inh = seq_views(inherited_paths@);
        let mut kept: Vec<String> = Vec::new();
        let mut i: usize = 0;
        proof {
            assert(own.skip(0) =~= own);
        }
        while i < own_paths.len()
            invariant
                i <= own_paths@.len(),
                own == seq_views(own_paths@),
                inh == seq_views(inherited_paths@),
                spec_kept(own, inh) == seq_views(kept@) + spec_kept(own.skip(i as int), inh),
            decreases own_paths@.len() - i,
        {
            let ghost rest = own.skip(i as int);
            proof {
                assert(rest[0] == own_paths@[i as int]@);
                assert(rest.skip(1) =~= own.skip(i + 1));
            }
            let ident = path_identity(own_paths[i].as_str());
            let ghost prev = kept@;
            if !has_identity(&inherited_paths, ident.as_str()) {
                kept.push(own_paths[i].clone());
                proof {
                    assert(seq_views(kept@) =~= seq_views(prev).push(rest[0]));
                    assert(seq_views(prev).push(rest[0]) + spec_kept(rest.skip(1), inh)
                        =~= seq_views(prev) + (seq![rest[0]] + spec_kept(rest.skip(1), inh)));
                }
            }
            i += 1;
        }
        proof {
            assert(own.skip(own.len() as int) =~= Seq::<Seq<char>>::empty());
            assert(seq_views(kept@) + Seq::<Seq<char>>::empty() =~= seq_views(kept@));
        }
        extend_once(kept, inherited_paths)
    }
}

/// Builds the models of the versions discovered on disk, one per
/// (directory, descriptor id) pair, in discovery order.
pub fn get_downloaded_versions(discovered: &Vec<(String, String)>) -> (r: Vec<MinecraftVersion>)
    ensures
        r@.len() == discovered@.len(),
        forall|i: int|
            0 <= i < r@.len() ==> (#[trigger] r@[i]).id@ == discovered@[i].1@
                && r@[i].version_path@ == discovered@[i].0@ && r@[i].base == spec_base_of(
                discovered@[i].0@,
            ),
{
    let mut out: Vec<MinecraftVersion> = Vec::new();
    let mut i: usize = 0;
    while i < discovered.len()
        invariant
            i <= discovered@.len(),
            out@.len() == i,
            forall|k: int|
                0 <= k < out@.len() ==> (#[trigger] out@[k]).id@ == discovered@[k].1@
                    && out@[k].version_path@ == discovered@[k].0@ && out@[k].base == spec_base_of(
                    discovered@[k].0@,
                ),
        decreases discovered@.len() - i,
    {
        out.push(MinecraftVersion::from_folder(&discovered[i].0, &discovered[i].1));
        i += 1;
    }
    out
}

/// Whether two version models describe the same build.
pub open spec fn spec_version_eq(a: MinecraftVersion, b: MinecraftVersion) -> bool {
    a.id@ == b.id@ && a.version_path@ == b.version_path@ && a.base == b.base
}

/// Whether some entry of `s` describes the same build as `v`.
pub open spec fn spec_vlist_contains(s: Seq<MinecraftVersion>, v: MinecraftVersion) -> bool
    decreases s.len(),
{
    if s.len() == 0 {
        false
    } else {
        spec_version_eq(s[0], v) || spec_vlist_contains(s.skip(1), v)
    }
}

/// Concatenation of `v1` and the entries of `v2` describing builds that
/// `v1` does not, left to right.
pub open spec fn spec_extend_versions(
    v1: Seq<MinecraftVersion>,
    v2: Seq<MinecraftVersion>,
) -> Seq<MinecraftVersion>
    decreases v2.len(),
{
    if v2.len() == 0 {
        v1
    } else {
        let v1b = if spec_vlist_contains(v1, v2[0]) {
            v1
        } else {
            v1.push(v2[0])
        };
        spec_extend_versions(v1b, v2.skip(1))
    }
}

fn vlist_contains(s: &Vec<MinecraftVersion>, v: &MinecraftVersion) -> (r: bool)
    ensures
        r == spec_vlist_contains(s@, *v),
{
    let mut i: usize = 0;
    proof {
        assert(s@.skip(0) =~= s@);
    }
    while i < s.len()
        invariant
            i <= s@.len(),
            spec_vlist_contains(s@, *v) == spec_vlist_contains(s@.skip(i as int), *v),
        decreases s@.len() - i,
    {
        proof {
            assert(s@.skip(i as int)[0] == s@[i as int]);
            assert(s@.skip(i as int).skip(1) =~= s@.skip(i + 1));
        }
        if &s[i] == v {
            return true;
        }
        i += 1;
    }
    proof {
        assert(s@.skip(s@.len() as int) =~= Seq::<MinecraftVersion>::empty());
    }
    false
}

/// Appends to `vec1` every discovered version that `vec1` does not already
/// describe, keeping order — used to join disk-discovered versions with the
/// index-derived ones.
pub fn merge_version_lists(
    vec1: Vec<MinecraftVersion>,
    vec2: Vec<MinecraftVersion>,
) -> (r: Vec<MinecraftVersion>)
    ensures
        r@ == spec_extend_versions(vec1@, vec2@),
{
    let ghost full = spec_extend_versions(vec1@, vec2@);
    let mut out = vec1;
    let mut i: usize = 0;
    proof {
        assert(vec2@.skip(0) =~= vec2@);
    }
    while i < vec2.len()
        invariant
            i <= vec2@.len(),
            full == spec_extend_versions(out@, vec2@.skip(i as int)),
            full == spec_extend_versions(vec1@, vec2@),
        decreases vec2@.len() - i,
    {
        let ghost rest = vec2@.skip(i as int);
        proof {
            assert(rest[0] == vec2@[i as int]);
            assert(rest.skip(1) =~= vec2@.skip(i + 1));
        }
        let ghost prev = out@;
        let present = vlist_contains(&out, &vec2[i]);
        proof {
            assert(spec_extend_versions(prev, rest) == spec_extend_versions(
                if spec_vlist_contains(prev, rest[0]) {
                    prev
                } else {
                    prev.push(rest[0])
                },
                rest.skip(1),
            ));
        }
        if !present {
            out.push(vec2[i].clone_version());
            proof {
                assert(out@ =~= prev.push(rest[0]));
            }
        }
        i += 1;
    }
    proof {
        assert(vec2@.skip(vec2@.len() as int) =~= Seq::<MinecraftVersion>::empty());
    }
    out
}

/// Membership in a pushed sequence: the new last element, or an old member.
proof fn lemma_push_contains(s: Seq<Seq<char>>, y: Seq<char>, x: Seq<char>)
    ensures
        s.push(y).contains(x) <==> (s.contains(x) || x == y),
{
    if s.push(y).contains(x) {
        let i = choose|i: int| 0 <= i < s.push(y).len() && s.push(y)[i] == x;
        if i < s.len() {
            assert(s[i] == x);
        }
    }
    if s.contains(x) {
        let i = choose|i: int| 0 <= i < s.len() && s[i] == x;
        assert(s.push(y)[i] == x);
    }
    if x == y {
        assert(s.push(y)[s.len() as int] == x);
    }
}

/// Membership in an extend-once result: a member of either input, and
/// nothing else.
pub proof fn lemma_extend_once_membership(v1: Seq<Seq<char>>, v2: Seq<Seq<char>>, x: Seq<char>)
    ensures
        spec_extend_once(v1, v2).contains(x) <==> (v1.contains(x) || v2.contains(x)),
    decreases v2.len(),
{
    if v2.len() == 0 {
    } else {
        let v1b = if v1.contains(v2[0]) {
            v1
        } else {
            v1.push(v2[0])
        };
        lemma_extend_once_membership(v1b, v2.skip(1), x);
        lemma_push_contains(v1, v2[0], x);
        assert(v2.contains(x) <==> (v2[0] == x || v2.skip(1).contains(x))) by {
            if v2.contains(x) {
                let i = choose|i: int| 0 <= i < v2.len() && v2[i] == x;
                if i > 0 {
                    assert(v2.skip(1)[i - 1] == x);
                }
            }
            if v2.skip(1).contains(x) {
                let i = choose|i: int| 0 <= i < v2.skip(1).len() && v2.skip(1)[i] == x;
                assert(v2[i + 1] == x);
            }
        }
    }
}

/// Membership in the kept list: exactly the overlay paths whose identity the
/// inherited list does not contain.
pub proof fn lemma_kept_membership(own: Seq<Seq<char>>, inherited: Seq<Seq<char>>, x: Seq<char>)
    ensures
        spec_kept(own, inherited).contains(x) <==> (own.contains(x) && !spec_has_identity(
            inherited,
            spec_path_identity(x),
        )),
    decreases own.len(),
{
    if own.len() == 0 {
    } else {
        lemma_kept_membership(own.skip(1), inherited, x);
        let rest = spec_kept(own.skip(1), inherited);
        assert(own.contains(x) <==> (own[0] == x || own.skip(1).contains(x))) by {
            if own.contains(x) {
                let i = choose|i: int| 0 <= i < own.len() && own[i] == x;
                if i > 0 {
                    assert(own.skip(1)[i - 1] == x);
                }
            }
            if own.skip(1).contains(x) {
                let i = choose|i: int| 0 <= i < own.skip(1).len() && own.skip(1)[i] == x;
                assert(own[i + 1] == x);
            }
        }
        if !spec_has_identity(inherited, spec_path_identity(own[0])) {
            assert((seq![own[0]] + rest).contains(x) <==> (own[0] == x || rest.contains(x))) by {
                if (seq![own[0]] + rest).contains(x) {
                    let i = choose|i: int|
                        0 <= i < (seq![own[0]] + rest).len() && (seq![own[0]] + rest)[i] == x;
                    if i > 0 {
                        assert(rest[i - 1] == x);
                    }
                }
                if rest.contains(x) {
                    let i = choose|i: int| 0 <= i < rest.len() && rest[i] == x;
                    assert((seq![own[0]] + rest)[i + 1] == x);
                }
                if own[0] == x {
                    assert((seq![own[0]] + rest)[0] == x);
                }
            }
        }
    }
}

/// Some member of `l` has identity `ident` exactly when the recursive
/// predicate says so.
pub proof fn lemma_has_identity_iff(l: Seq<Seq<char>>, ident: Seq<char>)
    ensures
        spec_has_identity(l, ident) <==> exists|i: int|
            0 <= i < l.len() && spec_path_identity(#[trigger] l[i]) == ident,
    decreases l.len(),
{
    if l.len() > 0 {
        lemma_has_identity_iff(l.skip(1), ident);
        if spec_has_identity(l, ident) {
            if spec_path_identity(l[0]) == ident {
                assert(spec_path_identity(l[0]) == ident && 0 < l.len());
            } else {
                let i = choose|i: int|
                    0 <= i < l.skip(1).len() && spec_path_identity(#[trigger] l.skip(1)[i])
                        == ident;
                assert(l[i + 1] == l.skip(1)[i]);
            }
        }
        if exists|i: int| 0 <= i < l.len() && spec_path_identity(#[trigger] l[i]) == ident {
            let i = choose|i: int|
                0 <= i < l.len() && spec_path_identity(#[trigger] l[i]) == ident;
            if i > 0 {
                assert(l.skip(1)[i - 1] == l[i]);
            }
        }
    }
}

/// The override rule of the merged classpath: when the overlay and the
/// inherited build both declare a dependency with the same group and
/// artifact, the merged list holds the inherited build's path, and the only
/// overlay paths it holds are those it inherited verbatim.
pub proof fn lemma_merge_prefers_base(
    own: Seq<Seq<char>>,
    inherited: Seq<Seq<char>>,
    pv: Seq<char>,
    pb: Seq<char>,
)
    requires
        own.contains(pv),
        inherited.contains(pb),
        spec_path_identity(pv) == spec_path_identity(pb),
    ensures
        spec_merged(own, inherited).contains(pb),
        spec_merged(own, inherited).contains(pv) ==> inherited.contains(pv),
{
    lemma_extend_once_membership(spec_kept(own, inherited), inherited, pb);
    lemma_extend_once_membership(spec_kept(own, inherited), inherited, pv);
    lemma_kept_membership(own, inherited, pv);
    lemma_has_identity_iff(inherited, spec_path_identity(pv));
    let i = choose|i: int| 0 <= i < inherited.len() && inherited[i] == pb;
    assert(spec_path_identity(inherited[i]) == spec_path_identity(pv));
}

/// No two entries of `l` share a dependency identity.
pub open spec fn spec_unique_identities(l: Seq<Seq<char>>) -> bool {
    forall|i: int, j: int|
        0 <= i < j < l.len() ==> spec_path_identity(#[trigger] l[i]) != spec_path_identity(
            #[trigger] l[j],
        )
}

proof fn lemma_kept_unique(own: Seq<Seq<char>>, inherited: Seq<Seq<char>>)
    requires
        spec_unique_identities(own),
    ensures
        spec_unique_identities(spec_kept(own, inherited)),
    decreases own.len(),
{
    if own.len() == 0 {
    } else {
        assert(forall|i: int, j: int|
            0 <= i < j < own.skip(1).len() ==> spec_path_identity(#[trigger] own.skip(1)[i])
                != spec_path_identity(#[trigger] own.skip(1)[j])) by {
            assert(forall|i: int| 0 <= i < own.skip(1).len() ==> own.skip(1)[i] == own[i + 1]);
        }
        lemma_kept_unique(own.skip(1), inherited);
        let rest = spec_kept(own.skip(1), inherited);
        if !spec_has_identity(inherited, spec_path_identity(own[0])) {
            let whole = seq![own[0]] + rest;
            assert forall|i: int, j: int| 0 <= i < j < whole.len() implies spec_path_identity(
                #[trigger] whole[i],
            ) != spec_path_identity(#[trigger] whole[j]) by {
                if i == 0 {
                    assert(whole[j] == rest[j - 1]);
                    assert(rest.contains(rest[j - 1]));
                    lemma_kept_membership(own.skip(1), inherited, rest[j - 1]);
                    let k = choose|k: int|
                        0 <= k < own.skip(1).len() && own.skip(1)[k] == rest[j - 1];
                    assert(own[k + 1] == rest[j - 1]);
                    assert(spec_path_identity(own[0]) != spec_path_identity(own[k + 1]));
                } else {
                    assert(whole[i] == rest[i - 1]);
                    assert(whole[j] == rest[j - 1]);
                }
            }
        }
    }
}

proof fn lemma_extend_once_disjoint_is_concat(v1: Seq<Seq<char>>, v2: Seq<Seq<char>>)
    requires
        spec_unique_identities(v2),
        forall|i: int, j: int|
            0 <= i < v1.len() && 0 <= j < v2.len() ==> spec_path_identity(#[trigger] v1[i])
                != spec_path_identity(#[trigger] v2[j]),
    ensures
        spec_extend_once(v1, v2) == v1 + v2,
    decreases v2.len(),
{
    if v2.len() == 0 {
        assert(v1 + v2 =~= v1);
    } else {
        if v1.contains(v2[0]) {
            let i = choose|i: int| 0 <= i < v1.len() && v1[i] == v2[0];
            assert(spec_path_identity(v1[i]) != spec_path_identity(v2[0]));
        }
        let v1b = v1.push(v2[0]);
        assert(forall|i: int, j: int|
            0 <= i < j < v2.skip(1).len() ==> spec_path_identity(#[trigger] v2.skip(1)[i])
                != spec_path_identity(#[trigger] v2.skip(1)[j])) by {
            assert(forall|i: int| 0 <= i < v2.skip(1).len() ==> v2.skip(1)[i] == v2[i + 1]);
        }
        assert(forall|i: int, j: int|
            0 <= i < v1b.len() && 0 <= j < v2.skip(1).len() ==> spec_path_identity(
                #[trigger] v1b[i],
            ) != spec_path_identity(#[trigger] v2.skip(1)[j])) by {
            assert(forall|j: int| 0 <= j < v2.skip(1).len() ==> v2.skip(1)[j] == v2[j + 1]);
            assert(forall|i: int| 0 <= i < v1.len() ==> v1b[i] == v1[i]);
            assert(v1b[v1.len() as int] == v2[0]);
        }
        lemma_extend_once_disjoint_is_concat(v1b, v2.skip(1));
        assert(v1.push(v2[0]) + v2.skip(1) =~= v1 + v2);
    }
}

/// The merged classpath never resolves one dependency twice: when neither
/// the overlay's own path list nor the inherited one repeats a group and
/// artifact internally, no two entries of the merge share that identity.
pub proof fn lemma_merge_unique_identities(own: Seq<Seq<char>>, inherited: Seq<Seq<char>>)
    requires
        spec_unique_identities(own),
        spec_unique_identities(inherited),
    ensures
        spec_unique_identities(spec_merged(own, inherited)),
{
    let kept = spec_kept(own, inherited);
    lemma_kept_unique(own, inherited);
    assert(forall|i: int, j: int|
        0 <= i < kept.len() && 0 <= j < inherited.len() ==> spec_path_identity(#[trigger] kept[i])
            != spec_path_identity(#[trigger] inherited[j])) by {
        assert forall|i: int, j: int|
            0 <= i < kept.len() && 0 <= j < inherited.len() implies spec_path_identity(
            #[trigger] kept[i],
        ) != spec_path_identity(#[trigger] inherited[j]) by {
            assert(kept.contains(kept[i]));
            lemma_kept_membership(own, inherited, kept[i]);
            lemma_has_identity_iff(inherited, spec_path_identity(kept[i]));
        }
    }
    lemma_extend_once_disjoint_is_concat(kept, inherited);
    let whole = kept + inherited;
    assert forall|i: int, j: int| 0 <= i < j < whole.len() implies spec_path_identity(
        #[trigger] whole[i],
    ) != spec_path_identity(#[trigger] whole[j]) by {
        if j < kept.len() {
            assert(whole[i] == kept[i]);
            assert(whole[j] == kept[j]);
        } else if i < kept.len() {
            assert(whole[i] == kept[i]);
            assert(whole[j] == inherited[j - kept.len()]);
        } else {
            assert(whole[i] == inherited[i - kept.len()]);
            assert(whole[j] == inherited[j - kept.len()]);
        }
    }
}

/// A library descriptor with no rules, no direct artifact, and no matching
/// classifier for the platform contributes nothing to the classpath, and
/// causes no error.
pub proof fn lemma_empty_entry_contributes_nothing(
    e: LibraryEntry,
    os: Seq<char>,
    libdir: Seq<char>,
    disk: DiskState,
    acc: Seq<Seq<char>>,
)
    requires
        e.downloads_present,
        e.artifact is None,
        spec_locate(e, os) is None,
    ensures
        spec_step(e, os, libdir, disk, acc) == acc,
{
}

} // verus!
