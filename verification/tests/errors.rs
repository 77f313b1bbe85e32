use ytdlp_core::errors::format_ytdlp_error;

#[test]
fn bot_detection_gets_its_remediation_block() {
    let stderr = "ERROR: Sign in to confirm you're not a bot. Use --cookies.";
    let r = format_ytdlp_error(stderr);
    assert!(r.starts_with(stderr));
    assert!(r.contains("🔧 解决方案"));
    assert!(r.contains("确保您的 Chrome 浏览器已登录 YouTube"));
}

#[test]
fn unrelated_text_comes_back_unchanged() {
    let stderr = "some entirely different failure";
    let r = format_ytdlp_error(stderr);
    assert_eq!(r, stderr);
}

#[test]
fn bot_block_is_appended_exactly() {
    let stderr = "Sign in to confirm you're not a bot";
    let r = format_ytdlp_error(stderr);
    let expected = format!(
        "{}\n\n🔧 解决方案:\n1. 确保您的 Chrome 浏览器已登录 YouTube\n2. 尝试使用不同的视频链接\n3. 在高级设置中调整反检测选项\n4. 如果问题持续，请等待一段时间后重试",
        stderr
    );
    assert_eq!(r, expected);
}

#[test]
fn rate_limit_code_gets_its_remediation_block() {
    let r = format_ytdlp_error("HTTP Error 429: Too Many Requests");
    assert!(r.contains("429"));
    assert!(r.contains("增加请求间隔时间"));
}

#[test]
fn rate_limit_phrase_alone_matches_too() {
    let r = format_ytdlp_error("server said Too Many Requests");
    assert!(r.contains("增加请求间隔时间"));
}

#[test]
fn cookie_and_login_failures_get_their_block() {
    let r = format_ytdlp_error("could not read cookies from browser");
    assert!(r.contains("检查浏览器 Cookie 权限"));
    let r2 = format_ytdlp_error("login required for this video");
    assert!(r2.contains("检查浏览器 Cookie 权限"));
}

#[test]
fn impersonation_failure_needs_both_phrases() {
    let r = format_ytdlp_error("Impersonate target chrome is not available");
    assert!(r.contains("curl_cffi"));
    let r2 = format_ytdlp_error("Impersonate target chrome is fine");
    assert!(!r2.contains("curl_cffi"));
}

#[test]
fn site_extraction_error_gets_its_block() {
    let r = format_ytdlp_error("ERROR: [youtube] abc: Video unavailable");
    assert!(r.contains("视频可能受地区限制或已被删除"));
}

#[test]
fn first_matching_condition_wins() {
    let r = format_ytdlp_error("Sign in to confirm you're not a bot (HTTP Error 429)");
    assert!(r.contains("确保您的 Chrome 浏览器已登录 YouTube"));
    assert!(!r.contains("增加请求间隔时间"));
}
