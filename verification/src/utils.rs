//! Maven-coordinate handling and small list utilities. A coordinate
//! "group:artifact:version" maps to the conventional repository layout
//! `<group with dots as slashes>/<artifact>/<version>/<artifact>-<version>.jar`.
use vstd::prelude::*;

use crate::text::{
    replace_all, seq_views, spec_replace, spec_split, split_char, vec_contains_str,
};

verus! {

/// The pieces of a maven coordinate string, split on ':'.
pub open spec fn spec_coord_parts(name: Seq<char>) -> Seq<Seq<char>> {
    spec_split(name, ':')
}

/// The repository-relative path of a maven coordinate:
/// `group/artifact/version/artifact-version.jar`, with the group's dots
/// turned into slashes.
pub open spec fn spec_maven_rel_path(name: Seq<char>) -> Seq<char> {
    let parts = spec_coord_parts(name);
    spec_replace(parts[0], "."@, "/"@) + "/"@ + parts[1] + "/"@ + parts[2] + "/"@ + parts[1] + "-"@
        + parts[2] + ".jar"@
}

/// Builds the repository-relative path of `library_name`.
pub fn maven_rel_path(library_name: &str) -> (r: String)
    requires
        spec_coord_parts(library_name@).len() >= 3,
    ensures
        r@ == spec_maven_rel_path(library_name@),
{
    proof {
        reveal_strlit(".");
    }
    let parts = split_char(library_name, ':');
    proof {
        assert(parts@.len() == seq_views(parts@).len());
        assert(seq_views(parts@)[0] == parts@[0]@);
        assert(seq_views(parts@)[1] == parts@[1]@);
        assert(seq_views(parts@)[2] == parts@[2]@);
    }
    let mut out = replace_all(parts[0].as_str(), ".", "/");
    out.append("/");
    out.append(parts[1].as_str());
    out.append("/");
    out.append(parts[2].as_str());
    out.append("/");
    out.append(parts[1].as_str());
    out.append("-");
    out.append(parts[2].as_str());
    out.append(".jar");
    out
}

/// The on-disk path of a library coordinate under the libraries directory.
pub fn parse_library_name_to_path(mavenized_path: String, libraries_dir: &str) -> (r: String)
    requires
        spec_coord_parts(mavenized_path@).len() >= 3,
    ensures
        r@ == libraries_dir@ + "/"@ + spec_maven_rel_path(mavenized_path@),
{
    let mut out = libraries_dir.to_owned();
    out.append("/");
    let rel = maven_rel_path(mavenized_path.as_str());
    out.append(rel.as_str());
    out
}

/// The remote URL of a library coordinate under `base_url`; the base is
/// expected to already end with a slash.
pub fn convert_to_full_url(base_url: String, library_name: String) -> (r: String)
    requires
        spec_coord_parts(library_name@).len() >= 3,
    ensures
        r@ == base_url@ + spec_maven_rel_path(library_name@),
{
    let mut out = base_url;
    let rel = maven_rel_path(library_name.as_str());
    out.append(rel.as_str());
    out
}

/// The on-disk path of a library coordinate under `base_path`.
pub fn convert_to_full_path(base_path: String, library_name: &String) -> (r: String)
    requires
        spec_coord_parts(library_name@).len() >= 3,
    ensures
        r@ == base_path@ + "/"@ + spec_maven_rel_path(library_name@),
{
    let mut out = base_path;
    out.append("/");
    let rel = maven_rel_path(library_name.as_str());
    out.append(rel.as_str());
    out
}

/// The "major.minor" prefix of a version id, split on '.'.
pub fn get_core_version(version_id: &String) -> (r: String)
    requires
        spec_split(version_id@, '.').len() >= 2,
    ensures
        r@ == spec_split(version_id@, '.')[0] + "."@ + spec_split(version_id@, '.')[1],
{
    let parts = split_char(version_id.as_str(), '.');
    proof {
        assert(seq_views(parts@)[0] == parts@[0]@);
        assert(seq_views(parts@)[1] == parts@[1]@);
    }
    let mut out = parts[0].clone();
    out.append(".");
    out.append(parts[1].as_str());
    out
}

/// Concatenation of `v1` and the entries of `v2` not already present,
/// left to right.
pub open spec fn spec_extend_once(v1: Seq<Seq<char>>, v2: Seq<Seq<char>>) -> Seq<Seq<char>>
    decreases v2.len(),
{
    if v2.len() == 0 {
        v1
    } else {
        let v1b = if v1.contains(v2[0]) {
            v1
        } else {
            v1.push(v2[0])
        };
        spec_extend_once(v1b, v2.skip(1))
    }
}

/// Appends to `vec1` every entry of `vec2` that `vec1` does not already
/// hold, keeping order and never duplicating an existing entry.
pub fn extend_once(vec1: Vec<String>, vec2: Vec<String>) -> (r: Vec<String>)
    ensures
        seq_views(r@) == spec_extend_once(seq_views(vec1@), seq_views(vec2@)),
{
    let ghost full = spec_extend_once(seq_views(vec1@), seq_views(vec2@));
    let mut out = vec1;
    let mut i: usize = 0;
    proof {
        assert(seq_views(vec2@).skip(0) =~= seq_views(vec2@));
    }
    while i < vec2.len()
        invariant
            i <= vec2@.len(),
            full == spec_extend_once(seq_views(out@), seq_views(vec2@).skip(i as int)),
            full == spec_extend_once(seq_views(vec1@), seq_views(vec2@)),
        decreases vec2@.len() - i,
    {
        let ghost rest = seq_views(vec2@).skip(i as int);
        proof {
            assert(rest.len() > 0);
            assert(rest[0] == vec2@[i as int]@);
            assert(rest.skip(1) =~= seq_views(vec2@).skip(i + 1));
        }
        let ghost prev = out@;
        let present = vec_contains_str(&out, vec2[i].as_str());
        proof {
            assert(present == seq_views(prev).contains(rest[0]));
            assert(spec_extend_once(seq_views(prev), rest) == spec_extend_once(
                if seq_views(prev).contains(rest[0]) {
                    seq_views(prev)
                } else {
                    seq_views(prev).push(rest[0])
                },
                rest.skip(1),
            ));
        }
        if !present {
            out.push(vec2[i].clone());
            proof {
                assert(seq_views(out@) =~= seq_views(prev).push(rest[0]));
            }
        }
        i += 1;
    }
    proof {
        assert(seq_views(vec2@).skip(vec2@.len() as int) =~= Seq::<Seq<char>>::empty());
    }
    out
}

} // verus!
