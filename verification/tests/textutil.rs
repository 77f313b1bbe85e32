use ytdlp_core::download::download_outcome;
use ytdlp_core::locator::{not_found_error, well_known_paths, ytdlp_candidate_names, OsKind};
use ytdlp_core::text::{contains_sub, i64_to_string, is_float_str, split_lines, split_ws, u64_to_string};

#[test]
fn decimal_rendering_matches_std_formatting() {
    for n in [0i64, 7, 42, 144, 1080, -1, -5, 1000000, i64::MAX, i64::MIN] {
        assert_eq!(i64_to_string(n), format!("{}", n));
    }
    for n in [0u64, 9, 10, 99, 100, u64::MAX] {
        assert_eq!(u64_to_string(n), format!("{}", n));
    }
}

#[test]
fn float_recognition_matches_std_parsing() {
    let samples = [
        "42.0", "50", "12.5", "", "%", "abc", "inf", "Infinity", "NaN", "nan", "+3", "-3.5",
        "1e5", "1E-5", "5.", ".5", ".", "1.2.3", "+", "-", "e5", "1e", "0x10", " 1", "1 ",
        "99.9", "iNf", "nAn", "+infinity", "-inf", "1.5e+10", "3e", "12e+", "--5",
    ];
    for s in samples {
        assert_eq!(is_float_str(s), s.parse::<f64>().is_ok(), "sample {:?}", s);
    }
}

#[test]
fn substring_search_matches_std_contains() {
    let cases = [
        ("[download] 42%", "[download]"),
        ("[download] 42%", "%"),
        ("hello", "world"),
        ("", ""),
        ("abc", ""),
        ("", "a"),
        ("aaa", "aaa"),
        ("aab", "ab"),
        ("执行失败", "失败"),
    ];
    for (hay, needle) in cases {
        assert_eq!(contains_sub(hay, needle), hay.contains(needle), "{:?}/{:?}", hay, needle);
    }
}

#[test]
fn whitespace_splitting_matches_std() {
    let lines = [
        "[download]  42.0% of 125.89MiB at  5.82MiB/s ETA 00:12",
        "  leading and trailing  ",
        "",
        "one",
        "tabs\tand\nnewlines mixed",
    ];
    for line in lines {
        let ours: Vec<String> = split_ws(line);
        let std: Vec<&str> = line.split_whitespace().collect();
        assert_eq!(ours, std, "line {:?}", line);
    }
}

#[test]
fn line_splitting_matches_std() {
    let texts = ["a\nb\r\nc", "", "\n", "abc", "abc\r", "x\r\r\ny\n", "a\n\nb\n"];
    for text in texts {
        let ours: Vec<String> = split_lines(text);
        let std: Vec<&str> = text.lines().collect();
        assert_eq!(ours, std, "text {:?}", text);
    }
}

#[test]
fn candidate_names_per_platform() {
    assert_eq!(
        ytdlp_candidate_names(true),
        vec!["yt-dlp.exe", "yt-dlp_x86.exe", "yt-dlp.exe_x86.exe"]
    );
    assert_eq!(ytdlp_candidate_names(false), vec!["yt-dlp", "yt-dlp_linux", "yt-dlp_macos"]);
}

#[test]
fn well_known_paths_per_os() {
    assert_eq!(
        well_known_paths(OsKind::Linux),
        vec!["/usr/bin/yt-dlp", "/usr/local/bin/yt-dlp", "/snap/bin/yt-dlp"]
    );
    assert_eq!(well_known_paths(OsKind::MacOs).len(), 3);
    assert!(well_known_paths(OsKind::Windows)[0].contains("chocolatey"));
}

#[test]
fn not_found_error_names_the_tool() {
    let e = not_found_error();
    assert!(e.contains("yt-dlp"));
    assert!(e.contains("PATH"));
}

#[test]
fn download_outcome_follows_the_exit_status() {
    assert!(download_outcome(true).is_ok());
    let e = download_outcome(false).expect_err("failure");
    assert_eq!(e, "下载失败: 进程返回非零退出码");
}
