//! Classification of the external tool's diagnostic text: known failure
//! conditions get a remediation block appended, in a fixed priority order.

use vstd::prelude::*;
use crate::text::{contains_seq, contains_sub};

verus! {

/// The classified error text for a diagnostic: the raw text with the
/// remediation block of the first matching known condition appended, or
/// unchanged when none matches.
pub open spec fn error_text(stderr: Seq<char>) -> Seq<char> {
    let base = stderr;
    if contains_seq(stderr, "Sign in to confirm you're not a bot"@) {
        base
            + "\n\n🔧 解决方案:\n1. 确保您的 Chrome 浏览器已登录 YouTube\n2. 尝试使用不同的视频链接\n3. 在高级设置中调整反检测选项\n4. 如果问题持续，请等待一段时间后重试"@
    } else if contains_seq(stderr, "429"@) || contains_seq(stderr, "Too Many Requests"@) {
        base + "\n\n🔧 解决方案:\n1. 在高级设置中增加请求间隔时间\n2. 等待几分钟后重试\n3. 尝试使用代理连接"@
    } else if contains_seq(stderr, "cookies"@) || contains_seq(stderr, "login"@) {
        base
            + "\n\n🔧 解决方案:\n1. 确保浏览器中已登录相应账号\n2. 检查浏览器 Cookie 权限\n3. 尝试手动导出 Cookie 文件"@
    } else if contains_seq(stderr, "Impersonate target"@) && contains_seq(
        stderr,
        "not available"@,
    ) {
        base
            + "\n\n🔧 解决方案:\n1. 请运行: /opt/homebrew/bin/python3.10 -m pip install curl_cffi\n2. 或重新安装: /opt/homebrew/bin/python3.10 -m pip install --upgrade 'yt-dlp[curl-cffi]'\n3. 详细说明请参考项目文档"@
    } else if contains_seq(stderr, "ERROR: [youtube]"@) {
        base + "\n\n🔧 解决方案:\n1. 检查视频链接是否正确\n2. 尝试刷新网页获取最新链接\n3. 视频可能受地区限制或已被删除"@
    } else {
        base
    }
}

/// Appends to the raw diagnostic a remediation block for the first known
/// condition it contains; unrecognized text comes back unchanged. Pure:
/// the result is exactly `error_text` of the input.
pub fn format_ytdlp_error(stderr: &str) -> (r: String)
    ensures
        r@ == error_text(stderr@),
{
    let mut base = stderr.to_owned();
    if contains_sub(stderr, "Sign in to confirm you're not a bot") {
        base.append(
            "\n\n🔧 解决方案:\n1. 确保您的 Chrome 浏览器已登录 YouTube\n2. 尝试使用不同的视频链接\n3. 在高级设置中调整反检测选项\n4. 如果问题持续，请等待一段时间后重试",
        );
    } else if contains_sub(stderr, "429") || contains_sub(stderr, "Too Many Requests") {
        base.append(
            "\n\n🔧 解决方案:\n1. 在高级设置中增加请求间隔时间\n2. 等待几分钟后重试\n3. 尝试使用代理连接",
        );
    } else if contains_sub(stderr, "cookies") || contains_sub(stderr, "login") {
        base.append(
            "\n\n🔧 解决方案:\n1. 确保浏览器中已登录相应账号\n2. 检查浏览器 Cookie 权限\n3. 尝试手动导出 Cookie 文件",
        );
    } else if contains_sub(stderr, "Impersonate target") && contains_sub(stderr, "not available") {
        base.append(
            "\n\n🔧 解决方案:\n1. 请运行: /opt/homebrew/bin/python3.10 -m pip install curl_cffi\n2. 或重新安装: /opt/homebrew/bin/python3.10 -m pip install --upgrade 'yt-dlp[curl-cffi]'\n3. 详细说明请参考项目文档",
        );
    } else if contains_sub(stderr, "ERROR: [youtube]") {
        base.append(
            "\n\n🔧 解决方案:\n1. 检查视频链接是否正确\n2. 尝试刷新网页获取最新链接\n3. 视频可能受地区限制或已被删除",
        );
    }
    base
}

} // verus!
