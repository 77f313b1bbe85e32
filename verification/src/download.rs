//! The decision side of a download run: the caller-supplied request and
//! the terminal outcome derived from the child's exit status. The process
//! itself, its two stream readers and the notification sinks live outside
//! the library; each output line they read goes through
//! `parse_progress_line`.

use vstd::prelude::*;

verus! {

/// A download request: the target URL and the argument list handed to the
/// external tool verbatim, not validated here.
#[derive(Debug)]
pub struct DownloadConfig {
    pub url: String,
    pub args: Vec<String>,
}

/// The terminal result of a download run: success exactly on a zero exit
/// status; a non-zero exit gives the fixed failure message, never the
/// classified diagnostic.
pub fn download_outcome(exit_success: bool) -> (r: Result<(), String>)
    ensures
        exit_success <==> r is Ok,
        !exit_success ==> (r matches Err(e) && e@ == "下载失败: 进程返回非零退出码"@),
{
    if exit_success {
        Ok(())
    } else {
        Err(String::from_str("下载失败: 进程返回非零退出码"))
    }
}

} // verus!
