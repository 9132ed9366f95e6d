//! Provisioning decisions: which executables a platform expects, which
//! manifest entry serves the running platform, and whether a run needs any
//! download at all.
use vstd::prelude::*;
use vstd::string::*;
use crate::strutil::str_eq;
use crate::FFmpegPath;

verus! {

/// Download locations of the transcoder and the prober for one platform.
pub struct OsEntry {
    pub ffmpeg: String,
    pub ffprobe: String,
}

/// The per-platform download table of the version manifest.
pub struct OsTable {
    pub windows_64: OsEntry,
    pub linux_32: OsEntry,
    pub linux_64: OsEntry,
    pub linux_armhf: OsEntry,
    pub linux_armel: OsEntry,
    pub linux_arm64: OsEntry,
    pub osx_64: OsEntry,
}

/// The version manifest served by the version-index endpoint: the latest
/// version string and one download entry per platform.
pub struct VersionManifest {
    pub version: String,
    pub permalink: String,
    pub bin: OsTable,
}

/// The table entry that serves an operating system; an unrecognized one
/// falls back to the 64-bit Linux entry.
pub open spec fn entry_for_os(bin: OsTable, os: Seq<char>) -> OsEntry {
    if os == "windows"@ {
        bin.windows_64
    } else if os == "linux"@ {
        bin.linux_64
    } else if os == "macos"@ {
        bin.osx_64
    } else {
        bin.linux_64
    }
}

/// Picks the download entry of the running operating system.
pub fn select_platform<'a>(bin: &'a OsTable, os: &str) -> (e: &'a OsEntry)
    ensures
        *e == entry_for_os(*bin, os@),
{
    if str_eq(os, "windows") {
        &bin.windows_64
    } else if str_eq(os, "linux") {
        &bin.linux_64
    } else if str_eq(os, "macos") {
        &bin.osx_64
    } else {
        &bin.linux_64
    }
}

/// The file name of a tool under an operating system's executable-naming
/// convention.
pub open spec fn exe_name_spec(tool: Seq<char>, windows: bool) -> Seq<char> {
    if windows {
        tool + ".exe"@
    } else {
        tool
    }
}

/// Appends the executable suffix that the platform requires.
pub fn executable_name(tool: &str, windows: bool) -> (r: String)
    ensures
        r@ == exe_name_spec(tool@, windows),
{
    if windows {
        let mut r = tool.to_owned();
        r.append(".exe");
        r
    } else {
        tool.to_owned()
    }
}

/// The path where a provisioned tool is expected to sit:
/// `<tool_dir>/<tool>` with the platform's executable suffix.
pub fn expected_tool_path(tool_dir: &str, tool: &str, windows: bool) -> (r: String)
    ensures
        r@ == tool_dir@ + "/"@ + exe_name_spec(tool@, windows),
{
    let mut r = tool_dir.to_owned();
    r.append("/");
    let name = executable_name(tool, windows);
    r.append(name.as_str());
    proof {
        assert(r@ =~= tool_dir@ + "/"@ + exe_name_spec(tool@, windows));
    }
    r
}

/// The paths where the provisioned tools are expected to sit, under the
/// platform's executable-naming convention; the prober's path is built
/// only where a prober is required.
pub fn expected_paths(tool_dir: &str, windows: bool, need_prober: bool) -> (r: FFmpegPath)
    ensures
        r.ffmpeg@ == tool_dir@ + "/"@ + exe_name_spec("ffmpeg"@, windows),
        need_prober ==> (r.ffprobe matches Some(p)
            && p@ == tool_dir@ + "/"@ + exe_name_spec("ffprobe"@, windows)),
        !need_prober ==> r.ffprobe is None,
{
    let ffmpeg = expected_tool_path(tool_dir, "ffmpeg", windows);
    let ffprobe = if need_prober {
        Some(expected_tool_path(tool_dir, "ffprobe", windows))
    } else {
        None
    };
    FFmpegPath { ffmpeg, ffprobe }
}

/// What a provisioning run decides to do: keep executables already on
/// disk, or download an archive per required executable.
pub enum ProvisionPlan {
    UseExisting { paths: FFmpegPath },
    Download { ffmpeg_url: String, ffprobe_url: Option<String>, version: String },
}

/// How many network transfers a plan performs.
pub open spec fn downloads_of(p: ProvisionPlan) -> nat {
    match p {
        ProvisionPlan::UseExisting { .. } => 0,
        ProvisionPlan::Download { ffprobe_url, .. } => if ffprobe_url is Some {
            2
        } else {
            1
        },
    }
}

/// Decides how to provision the tools. Executables already present are
/// used as they are, with no network transfer at all; otherwise the plan
/// fetches exactly one archive per required executable, at the URL the
/// manifest gives for the platform, and reports the manifest's version.
pub fn plan_provisioning(
    existing: Option<FFmpegPath>,
    manifest: &VersionManifest,
    os: &str,
    need_prober: bool,
) -> (p: ProvisionPlan)
    ensures
        existing matches Some(e) ==> (p matches ProvisionPlan::UseExisting { paths }
            && paths == e),
        existing matches Some(e) ==> downloads_of(p) == 0,
        existing is None ==> (p matches ProvisionPlan::Download {
            ffmpeg_url,
            ffprobe_url,
            version,
        } && ffmpeg_url@ == entry_for_os(manifest.bin, os@).ffmpeg@
            && (need_prober ==> (ffprobe_url matches Some(u)
                && u@ == entry_for_os(manifest.bin, os@).ffprobe@))
            && (!need_prober ==> ffprobe_url is None)
            && version@ == manifest.version@),
        existing is None ==> downloads_of(p) == if need_prober { 2nat } else { 1nat },
{
    match existing {
        Some(paths) => ProvisionPlan::UseExisting { paths },
        None => {
            let entry = select_platform(&manifest.bin, os);
            let ffmpeg_url = entry.ffmpeg.clone();
            let ffprobe_url = if need_prober {
                Some(entry.ffprobe.clone())
            } else {
                None
            };
            ProvisionPlan::Download { ffmpeg_url, ffprobe_url, version: manifest.version.clone() }
        },
    }
}

} // verus!
