//! Managed Java runtime paths: the per-platform download URL of a runtime
//! of a given major version, and where its executable lands once unpacked.
use vstd::prelude::*;

use crate::text::str_eq;

verus! {

/// The runtime archive URL for platform `os` and major version `id`.
pub fn java_download_url(os: &str, id: &String) -> (r: String)
    ensures
        r@ == (if os@ == "windows"@ {
            "https://corretto.aws/downloads/latest/amazon-corretto-"@ + id@
                + "-x64-windows-jdk.zip"@
        } else if os@ == "linux"@ {
            "https://corretto.aws/downloads/latest/amazon-corretto-"@ + id@
                + "-x64-linux-jdk.tar.gz"@
        } else {
            "https://corretto.aws/downloads/latest/amazon-corretto-"@ + id@
                + "-x64-macos-jdk.tar.gz"@
        }),
{
    let mut out = "https://corretto.aws/downloads/latest/amazon-corretto-".to_owned();
    out.append(id.as_str());
    if str_eq(os, "windows") {
        out.append("-x64-windows-jdk.zip");
    } else if str_eq(os, "linux") {
        out.append("-x64-linux-jdk.tar.gz");
    } else {
        out.append("-x64-macos-jdk.tar.gz");
    }
    out
}

/// The Java executable inside an unpacked runtime: the windowless binary on
/// windows, the plain one elsewhere.
pub fn java_executable_path(java_dir: &str, id: &String, os: &str) -> (r: String)
    ensures
        r@ == (if os@ == "windows"@ {
            java_dir@ + "/"@ + id@ + "/bin/javaw.exe"@
        } else {
            java_dir@ + "/"@ + id@ + "/bin/java"@
        }),
{
    let mut out = java_dir.to_owned();
    out.append("/");
    out.append(id.as_str());
    if str_eq(os, "windows") {
        out.append("/bin/javaw.exe");
    } else {
        out.append("/bin/java");
    }
    out
}

} // verus!
