//! The compute side of locating the external tool: the candidate file
//! names per platform, the well-known installation directories per
//! operating system, and the not-found message. The filesystem probes
//! that walk these candidates stay outside the library.

use vstd::prelude::*;

verus! {

/// The operating systems the locator knows well-known directories for.
#[derive(Clone, Copy, Debug, PartialEq, Eq, Structural)]
pub enum OsKind {
    Windows,
    MacOs,
    Linux,
}

/// The candidate file names of the external tool, in probe order:
/// the Windows executables on Windows, else the Unix names.
pub fn ytdlp_candidate_names(windows: bool) -> (r: Vec<String>)
    ensures
        windows ==> r.deep_view() =~= seq![
            "yt-dlp.exe"@,
            "yt-dlp_x86.exe"@,
            "yt-dlp.exe_x86.exe"@,
        ],
        !windows ==> r.deep_view() =~= seq!["yt-dlp"@, "yt-dlp_linux"@, "yt-dlp_macos"@],
{
    let mut names: Vec<String> = Vec::new();
    if windows {
        names.push(String::from_str("yt-dlp.exe"));
        names.push(String::from_str("yt-dlp_x86.exe"));
        names.push(String::from_str("yt-dlp.exe_x86.exe"));
    } else {
        names.push(String::from_str("yt-dlp"));
        names.push(String::from_str("yt-dlp_linux"));
        names.push(String::from_str("yt-dlp_macos"));
    }
    names
}

/// The well-known installation paths probed after the search path, in
/// probe order, per operating system.
pub fn well_known_paths(os: OsKind) -> (r: Vec<String>)
    ensures
        os == OsKind::MacOs ==> r.deep_view() =~= seq![
            "/opt/homebrew/bin/yt-dlp"@,
            "/usr/local/bin/yt-dlp"@,
            "/opt/homebrew/bin/yt-dlp"@,
        ],
        os == OsKind::Linux ==> r.deep_view() =~= seq![
            "/usr/bin/yt-dlp"@,
            "/usr/local/bin/yt-dlp"@,
            "/snap/bin/yt-dlp"@,
        ],
        os == OsKind::Windows ==> r.deep_view() =~= seq![
            "C:\\ProgramData\\chocolatey\\bin\\yt-dlp.exe"@,
            "C:\\Program Files\\yt-dlp\\yt-dlp.exe"@,
            "C:\\Program Files (x86)\\yt-dlp\\yt-dlp.exe"@,
        ],
{
    let mut paths: Vec<String> = Vec::new();
    match os {
        OsKind::MacOs => {
            paths.push(String::from_str("/opt/homebrew/bin/yt-dlp"));
            paths.push(String::from_str("/usr/local/bin/yt-dlp"));
            paths.push(String::from_str("/opt/homebrew/bin/yt-dlp"));
        },
        OsKind::Linux => {
            paths.push(String::from_str("/usr/bin/yt-dlp"));
            paths.push(String::from_str("/usr/local/bin/yt-dlp"));
            paths.push(String::from_str("/snap/bin/yt-dlp"));
        },
        OsKind::Windows => {
            paths.push(String::from_str("C:\\ProgramData\\chocolatey\\bin\\yt-dlp.exe"));
            paths.push(String::from_str("C:\\Program Files\\yt-dlp\\yt-dlp.exe"));
            paths.push(String::from_str("C:\\Program Files (x86)\\yt-dlp\\yt-dlp.exe"));
        },
    }
    paths
}

/// The message of the not-found failure, with its remediation hint.
pub fn not_found_error() -> (r: String)
    ensures
        r@ == "未找到 yt-dlp 可执行文件。请确保 yt-dlp 已安装并在 PATH 中。"@,
{
    String::from_str("未找到 yt-dlp 可执行文件。请确保 yt-dlp 已安装并在 PATH 中。")
}

} // verus!
