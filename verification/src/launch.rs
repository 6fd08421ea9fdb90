//! The launch assembler: turns a fully acquired build and its inherited base
//! into the external process invocation — JVM flags, classpath, main class,
//! and the argument template with every placeholder substituted.
use vstd::prelude::*;

use crate::descriptor::{ArgTemplate, VersionDescriptor};
use crate::errors::LauncherError;
use crate::text::{
    replace_all, seq_views, spec_joined, spec_replace, spec_split, spec_u64_str, split_char,
    u64_to_string, vec_to_string,
};
use crate::utils::{extend_once, spec_extend_once};

verus! {

/// Relies on uuid::Uuid::new_v4 and its hyphenated rendering: a freshly
/// generated random identifier, about which nothing is promised.
#[verifier::external_body]
pub fn fresh_client_id() -> String {
    uuid::Uuid::new_v4().to_string()
}

/// The values substituted into the argument template.
#[derive(Debug, Clone, PartialEq, Eq)]
pub struct LaunchContext {
    pub username: String,
    pub version_id: String,
    pub game_directory: String,
    pub assets_root: String,
    pub resources_directory: String,
    pub asset_index: String,
    pub player_uuid: String,
    pub access_token: String,
    pub user_properties: String,
    pub user_type: String,
    pub version_type: String,
    pub client_id: String,
    pub xuid: String,
}

impl LaunchContext {
    /// Builds the substitution table for one launch: the caller's identity
    /// and directories, the fixed offline placeholders, and a freshly drawn
    /// client id.
    pub fn with_fresh_client_id(
        username: String,
        version_id: String,
        game_directory: String,
        assets_root: String,
        resources_directory: String,
        asset_index: String,
        player_uuid: String,
        version_type: String,
    ) -> (r: LaunchContext)
        ensures
            r.username@ == username@,
            r.version_id@ == version_id@,
            r.game_directory@ == game_directory@,
            r.assets_root@ == assets_root@,
            r.resources_directory@ == resources_directory@,
            r.asset_index@ == asset_index@,
            r.player_uuid@ == player_uuid@,
            r.access_token@ == "accessToken123"@,
            r.user_properties@ == "{}"@,
            r.user_type@ == "legacy"@,
            r.version_type@ == version_type@,
            r.xuid@ == "0"@,
    {
        LaunchContext {
            username,
            version_id,
            game_directory,
            assets_root,
            resources_directory,
            asset_index,
            player_uuid,
            access_token: "accessToken123".to_owned(),
            user_properties: "{}".to_owned(),
            user_type: "legacy".to_owned(),
            version_type,
            client_id: fresh_client_id(),
            xuid: "0".to_owned(),
        }
    }
}

/// The tokens of an argument template: a legacy flat string splits on
/// spaces; a modern list contributes its plain strings; an absent template
/// contributes nothing.
pub open spec fn spec_template_args(t: ArgTemplate) -> Seq<Seq<char>> {
    match t {
        ArgTemplate::Legacy(s) => spec_split(s@, ' '),
        ArgTemplate::Modern(v) => seq_views(v@),
        ArgTemplate::Absent => Seq::empty(),
    }
}

/// Extracts the raw argument tokens of a descriptor's template.
pub fn get_launch_args(d: &VersionDescriptor) -> (r: Vec<String>)
    ensures
        seq_views(r@) == spec_template_args(d.arguments),
{
    match &d.arguments {
        ArgTemplate::Legacy(s) => split_char(s.as_str(), ' '),
        ArgTemplate::Modern(v) => {
            let mut out: Vec<String> = Vec::new();
            let mut i: usize = 0;
            while i < v.len()
                invariant
                    i <= v@.len(),
                    seq_views(out@) == seq_views(v@).take(i as int),
                decreases v@.len() - i,
            {
                let ghost prev = out@;
                out.push(v[i].clone());
                proof {
                    assert(seq_views(out@) =~= seq_views(prev).push(v@[i as int]@));
                    assert(seq_views(out@) =~= seq_views(v@).take(i + 1));
                }
                i += 1;
            }
            proof {
                assert(seq_views(v@).take(v@.len() as int) =~= seq_views(v@));
            }
            out
        },
        ArgTemplate::Absent => {
            let out: Vec<String> = Vec::new();
            proof {
                assert(seq_views(out@) =~= Seq::<Seq<char>>::empty());
            }
            out
        },
    }
}

/// One token with every placeholder substituted from the table, applied in
/// the fixed order below.
pub open spec fn spec_substitute(s: Seq<char>, c: LaunchContext) -> Seq<char> {
    let s1 = spec_replace(s, "${auth_player_name}"@, c.username@);
    let s2 = spec_replace(s1, "${version_name}"@, c.version_id@);
    let s3 = spec_replace(s2, "${game_directory}"@, c.game_directory@);
    let s4 = spec_replace(s3, "${assets_root}"@, c.assets_root@);
    let s5 = spec_replace(s4, "${game_assets}"@, c.resources_directory@);
    let s6 = spec_replace(s5, "${assets_index_name}"@, c.asset_index@);
    let s7 = spec_replace(s6, "${auth_uuid}"@, c.player_uuid@);
    let s8 = spec_replace(s7, "${auth_access_token}"@, c.access_token@);
    let s9 = spec_replace(s8, "${user_properties}"@, c.user_properties@);
    let s10 = spec_replace(s9, "${user_type}"@, c.user_type@);
    let s11 = spec_replace(s10, "${version_type}"@, c.version_type@);
    let s12 = spec_replace(s11, "${clientid}"@, c.client_id@);
    spec_replace(s12, "${auth_xuid}"@, c.xuid@)
}

/// Substitutes every placeholder of one token.
pub fn substitute_token(arg: &str, ctx: &LaunchContext) -> (r: String)
    ensures
        r@ == spec_substitute(arg@, *ctx),
{
    proof {
        reveal_strlit("${auth_player_name}");
        reveal_strlit("${version_name}");
        reveal_strlit("${game_directory}");
        reveal_strlit("${assets_root}");
        reveal_strlit("${game_assets}");
        reveal_strlit("${assets_index_name}");
        reveal_strlit("${auth_uuid}");
        reveal_strlit("${auth_access_token}");
        reveal_strlit("${user_properties}");
        reveal_strlit("${user_type}");
        reveal_strlit("${version_type}");
        reveal_strlit("${clientid}");
        reveal_strlit("${auth_xuid}");
    }
    let s1 = replace_all(arg, "${auth_player_name}", ctx.username.as_str());
    let s2 = replace_all(s1.as_str(), "${version_name}", ctx.version_id.as_str());
    let s3 = replace_all(s2.as_str(), "${game_directory}", ctx.game_directory.as_str());
    let s4 = replace_all(s3.as_str(), "${assets_root}", ctx.assets_root.as_str());
    let s5 = replace_all(s4.as_str(), "${game_assets}", ctx.resources_directory.as_str());
    let s6 = replace_all(s5.as_str(), "${assets_index_name}", ctx.asset_index.as_str());
    let s7 = replace_all(s6.as_str(), "${auth_uuid}", ctx.player_uuid.as_str());
    let s8 = replace_all(s7.as_str(), "${auth_access_token}", ctx.access_token.as_str());
    let s9 = replace_all(s8.as_str(), "${user_properties}", ctx.user_properties.as_str());
    let s10 = replace_all(s9.as_str(), "${user_type}", ctx.user_type.as_str());
    let s11 = replace_all(s10.as_str(), "${version_type}", ctx.version_type.as_str());
    let s12 = replace_all(s11.as_str(), "${clientid}", ctx.client_id.as_str());
    replace_all(s12.as_str(), "${auth_xuid}", ctx.xuid.as_str())
}

/// Substitutes every placeholder in a token list.
pub fn substitute_all(args: &Vec<String>, ctx: &LaunchContext) -> (r: Vec<String>)
    ensures
        r@.len() == args@.len(),
        forall|i: int|
            0 <= i < args@.len() ==> (#[trigger] r@[i])@ == spec_substitute(args@[i]@, *ctx),
{
    let mut out: Vec<String> = Vec::new();
    let mut i: usize = 0;
    while i < args.len()
        invariant
            i <= args@.len(),
            out@.len() == i,
            forall|j: int|
                0 <= j < i ==> (#[trigger] out@[j])@ == spec_substitute(args@[j]@, *ctx),
        decreases args@.len() - i,
    {
        out.push(substitute_token(args[i].as_str(), ctx));
        i += 1;
    }
    out
}

/// The classpath string: the build's own client jar, then every merged
/// library path, joined by the platform's path separator.
pub fn build_classpath(client_jar: String, libraries: Vec<String>, separator: String) -> (r:
    String)
    requires
        separator@.len() > 0,
        libraries@.len() > 0,
    ensures
        r@ == client_jar@ + separator@ + spec_joined(
            seq_views(libraries@),
            separator@,
        ).drop_last(),
{
    proof {
        crate::text::lemma_joined_len(seq_views(libraries@), separator@);
    }
    let libs = vec_to_string(libraries, separator.clone());
    let mut out = client_jar;
    out.append(separator.as_str());
    out.append(libs.as_str());
    out
}

/// A ready external process invocation.
#[derive(Debug, Clone, PartialEq, Eq)]
pub struct LaunchCommand {
    pub java_path: String,
    pub jvm_args: Vec<String>,
    pub main_class: String,
    pub program_args: Vec<String>,
    pub working_dir: String,
}

/// Assembles the final invocation for an acquired build: the JVM flags
/// (natives path, heap bounds, classpath), the declared main class, and the
/// substituted program arguments — the build's own tokens first, then its
/// inherited build's, each token appearing once. A build without a main
/// class cannot be launched and is reported with its id.
pub fn build_launch_command(
    own: &VersionDescriptor,
    inherited: &VersionDescriptor,
    ctx: &LaunchContext,
    java_path: String,
    natives_dir: &String,
    ram_mb: u64,
    classpath: &String,
    working_dir: String,
) -> (r: Result<LaunchCommand, LauncherError>)
    ensures
        match r {
            Ok(cmd) => {
                &&& own.main_class is Some
                &&& cmd.main_class@ == own.main_class->Some_0@
                &&& cmd.java_path@ == java_path@
                &&& cmd.working_dir@ == working_dir@
                &&& seq_views(cmd.jvm_args@) =~= seq![
                    "-Djava.library.path="@ + natives_dir@,
                    "-Xmx"@ + spec_u64_str(ram_mb as int) + "M"@,
                    "-Xms2048M"@,
                    "-cp"@,
                    classpath@,
                ]
                &&& {
                    let merged = spec_extend_once(
                        spec_template_args(own.arguments),
                        spec_template_args(inherited.arguments),
                    );
                    cmd.program_args@.len() == merged.len() && forall|i: int|
                        0 <= i < merged.len() ==> (#[trigger] cmd.program_args@[i])@
                            == spec_substitute(merged[i], *ctx)
                }
            },
            Err(e) => own.main_class is None && e == LauncherError::MissingRequiredField(own.id),
        },
{
    let main_class = match &own.main_class {
        Option::Some(mc) => mc.clone(),
        Option::None => {
            return Err(LauncherError::MissingRequiredField(own.id.clone()));
        },
    };
    let own_args = get_launch_args(own);
    let inherited_args = get_launch_args(inherited);
    let merged = extend_once(own_args, inherited_args);
    let program_args = substitute_all(&merged, ctx);
    let mut jvm_args: Vec<String> = Vec::new();
    let mut lib_flag = "-Djava.library.path=".to_owned();
    lib_flag.append(natives_dir.as_str());
    jvm_args.push(lib_flag);
    let mut xmx = "-Xmx".to_owned();
    let ram = u64_to_string(ram_mb);
    xmx.append(ram.as_str());
    xmx.append("M");
    jvm_args.push(xmx);
    jvm_args.push("-Xms2048M".to_owned());
    jvm_args.push("-cp".to_owned());
    jvm_args.push(classpath.clone());
    proof {
        assert(seq_views(jvm_args@) =~= seq![
            "-Djava.library.path="@ + natives_dir@,
            "-Xmx"@ + spec_u64_str(ram_mb as int) + "M"@,
            "-Xms2048M"@,
            "-cp"@,
            classpath@,
        ]);
    }
    Ok(
        LaunchCommand {
            java_path,
            jvm_args,
            main_class,
            program_args,
            working_dir,
        },
    )
}

} // verus!
