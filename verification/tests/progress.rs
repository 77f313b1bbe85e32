use ytdlp_core::progress::parse_progress_line;

#[test]
fn standard_progress_line_is_parsed() {
    let snap = parse_progress_line("[download]  42.0% of 125.89MiB at  5.82MiB/s ETA 00:12")
        .expect("a progress line");
    assert_eq!(snap.percent.parse::<f64>().unwrap(), 42.0);
    assert_eq!(snap.percent, "42.0");
    assert_eq!(snap.speed, "5.82MiB/s");
    assert_eq!(snap.eta, "00:12");
}

#[test]
fn line_without_marker_or_percent_is_ignored() {
    assert!(parse_progress_line("Deleting original file video.webm").is_none());
}

#[test]
fn marker_without_extractable_percent_is_ignored() {
    assert!(parse_progress_line("[download] Destination: video.mp4").is_none());
}

#[test]
fn percent_alone_gives_empty_speed_and_eta() {
    let snap = parse_progress_line("done 50% so far").expect("a progress line");
    assert_eq!(snap.percent, "50");
    assert_eq!(snap.speed, "");
    assert_eq!(snap.eta, "");
}

#[test]
fn speed_token_split_after_at_is_rejoined() {
    let snap =
        parse_progress_line("[download] 10.0% at 5.82 MiB/s ETA 00:01").expect("a progress line");
    assert_eq!(snap.speed, "5.82 MiB/s");
}

#[test]
fn speed_falls_back_to_a_unit_bearing_token() {
    let snap = parse_progress_line("[download] 10.5% 3.2MiB/s left").expect("a progress line");
    assert_eq!(snap.speed, "3.2MiB/s");
}

#[test]
fn eta_falls_back_to_a_two_colon_token() {
    let snap = parse_progress_line("12.5% remaining 01:02:03").expect("a progress line");
    assert_eq!(snap.eta, "01:02:03");
}

#[test]
fn unparseable_percent_token_is_skipped() {
    let snap = parse_progress_line("[download] %%% then 12.5% done").expect("a progress line");
    assert_eq!(snap.percent, "12.5");
}

#[test]
fn trailing_percent_signs_are_all_stripped() {
    let snap = parse_progress_line("[download] 99.9%% done").expect("a progress line");
    assert_eq!(snap.percent, "99.9");
}
