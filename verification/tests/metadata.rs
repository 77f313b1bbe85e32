use ytdlp_core::metadata::{video_info_from_output, ytdlp_metadata_args};

#[test]
fn one_json_line_gives_a_full_video_info() {
    let stdout = "{\"id\":\"abc123\",\"title\":\"A Video\",\"duration\":212.5,\"thumbnail\":\"http://t/x.jpg\",\"formats\":[{\"format_id\":\"18\",\"height\":360,\"width\":640,\"ext\":\"mp4\",\"filesize\":1000,\"vcodec\":\"avc1\",\"acodec\":\"mp4a\"},{\"format_id\":\"137\",\"height\":1080,\"ext\":\"mp4\",\"vcodec\":\"avc1\"},{\"format_id\":\"140\",\"ext\":\"m4a\",\"filesize\":2000,\"vcodec\":\"none\",\"acodec\":\"mp4a\"}]}\n";
    let info = video_info_from_output(true, stdout, "").expect("metadata parses");
    assert_eq!(info.id, "abc123");
    assert_eq!(info.title, "A Video");
    assert_eq!(info.duration, "212.5");
    assert_eq!(info.thumbnail, "http://t/x.jpg");
    assert_eq!(info.formats.len(), 3);
    assert_eq!(info.formats[0].format_id, "18");
    assert_eq!(info.formats[0].height, Some(360));
    assert_eq!(info.formats[0].width, Some(640));
    assert_eq!(info.formats[0].filesize, Some(1000));
    assert_eq!(info.formats[0].vcodec.as_deref(), Some("avc1"));
    assert_eq!(info.formats[1].filesize, None);
    let heights: Vec<i64> = info.available_resolutions.iter().map(|o| o.height).collect();
    assert_eq!(heights, vec![1080, 360]);
    assert_eq!(info.available_resolutions[0].label, "1080p");
}

#[test]
fn formats_length_matches_the_input_array() {
    let stdout = r#"{"formats":[{},{},{},{},{}]}"#;
    let info = video_info_from_output(true, stdout, "").expect("metadata parses");
    assert_eq!(info.formats.len(), 5);
}

#[test]
fn missing_fields_get_neutral_defaults() {
    let info = video_info_from_output(true, "{}", "").expect("metadata parses");
    assert_eq!(info.id, "");
    assert_eq!(info.title, "");
    assert_eq!(info.duration, "0");
    assert_eq!(info.thumbnail, "");
    assert!(info.formats.is_empty());
    assert!(info.available_resolutions.is_empty());
}

#[test]
fn missing_format_fields_get_neutral_defaults() {
    let info =
        video_info_from_output(true, r#"{"formats":[{}]}"#, "").expect("metadata parses");
    assert_eq!(info.formats[0].format_id, "unknown");
    assert_eq!(info.formats[0].ext, "unknown");
    assert_eq!(info.formats[0].height, None);
    assert_eq!(info.formats[0].vcodec, None);
}

#[test]
fn single_format_object_is_read_without_dimensions() {
    let stdout = r#"{"format":{"format_id":"best","ext":"webm","filesize":7}}"#;
    let info = video_info_from_output(true, stdout, "").expect("metadata parses");
    assert_eq!(info.formats.len(), 1);
    assert_eq!(info.formats[0].format_id, "best");
    assert_eq!(info.formats[0].ext, "webm");
    assert_eq!(info.formats[0].filesize, Some(7));
    assert_eq!(info.formats[0].height, None);
    assert!(info.available_resolutions.is_empty());
}

#[test]
fn failed_run_gives_the_classified_diagnostic() {
    let r = video_info_from_output(false, "", "HTTP Error 429: Too Many Requests");
    let e = r.expect_err("a failed run");
    assert!(e.contains("429"));
    assert!(e.contains("增加请求间隔时间"));
}

#[test]
fn empty_output_gives_the_no_data_error() {
    let e = video_info_from_output(true, "", "").expect_err("no data");
    assert_eq!(e, "无法获取视频信息: 无响应数据");
}

#[test]
fn output_without_valid_json_gives_the_parse_error() {
    let e = video_info_from_output(true, "WARNING: x\nnot json\n", "").expect_err("no record");
    assert_eq!(e, "无法解析视频信息");
}

#[test]
fn first_parsing_line_wins_over_earlier_noise() {
    let stdout = "WARNING: something\n{\"id\":\"later\"}\n{\"id\":\"ignored\"}\n";
    let info = video_info_from_output(true, stdout, "").expect("metadata parses");
    assert_eq!(info.id, "later");
}

#[test]
fn metadata_arguments_are_the_fixed_flag_list_plus_url() {
    let args = ytdlp_metadata_args("https://example.test/v");
    assert_eq!(args.len(), 10);
    assert_eq!(args[0], "--dump-json");
    assert_eq!(args[1], "--no-warnings");
    assert_eq!(args[2], "--flat-playlist");
    assert_eq!(args[3], "--impersonate");
    assert_eq!(args[4], "chrome");
    assert_eq!(args[5], "--user-agent");
    assert_eq!(args[7], "--cookies-from-browser");
    assert_eq!(args[8], "chrome");
    assert_eq!(args[9], "https://example.test/v");
}
