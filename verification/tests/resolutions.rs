use ytdlp_core::formats::{extract_available_resolutions, VideoFormat};

fn fmt(id: &str, height: Option<i64>, filesize: Option<i64>, vcodec: Option<&str>) -> VideoFormat {
    VideoFormat {
        format_id: String::from(id),
        height,
        width: None,
        ext: String::from("mp4"),
        filesize,
        vcodec: vcodec.map(String::from),
        acodec: None,
    }
}

#[test]
fn one_entry_per_height_sorted_descending() {
    let formats = vec![
        fmt("a", Some(720), None, Some("avc1")),
        fmt("b", Some(1080), None, Some("avc1")),
        fmt("c", Some(720), None, Some("vp9")),
        fmt("d", Some(360), None, Some("avc1")),
        fmt("e", Some(1080), None, Some("vp9")),
    ];
    let r = extract_available_resolutions(&formats);
    let heights: Vec<i64> = r.iter().map(|o| o.height).collect();
    assert_eq!(heights, vec![1080, 720, 360]);
}

#[test]
fn audio_only_and_codecless_formats_contribute_nothing() {
    let formats = vec![
        fmt("audio", Some(1080), Some(5), Some("none")),
        fmt("nocodec", Some(720), Some(5), None),
    ];
    let r = extract_available_resolutions(&formats);
    assert!(r.is_empty());
}

#[test]
fn heightless_format_contributes_nothing() {
    let formats = vec![fmt("x", None, Some(5), Some("avc1"))];
    let r = extract_available_resolutions(&formats);
    assert!(r.is_empty());
}

#[test]
fn sized_format_is_the_representative() {
    let formats = vec![
        fmt("unsized", Some(1080), None, Some("avc1")),
        fmt("sized", Some(1080), Some(123456), Some("vp9")),
    ];
    let r = extract_available_resolutions(&formats);
    assert_eq!(r.len(), 1);
    assert_eq!(r[0].height, 1080);
    assert_eq!(r[0].format_id, "sized");
}

#[test]
fn first_format_is_the_representative_without_sizes() {
    let formats = vec![
        fmt("first", Some(720), None, Some("avc1")),
        fmt("second", Some(720), None, Some("vp9")),
    ];
    let r = extract_available_resolutions(&formats);
    assert_eq!(r.len(), 1);
    assert_eq!(r[0].format_id, "first");
}

#[test]
fn first_sized_format_wins_among_sized() {
    let formats = vec![
        fmt("plain", Some(480), None, Some("avc1")),
        fmt("sized1", Some(480), Some(10), Some("avc1")),
        fmt("sized2", Some(480), Some(20), Some("vp9")),
    ];
    let r = extract_available_resolutions(&formats);
    assert_eq!(r.len(), 1);
    assert_eq!(r[0].format_id, "sized1");
}

#[test]
fn known_heights_get_conventional_labels() {
    let formats = vec![
        fmt("a", Some(4320), None, Some("v")),
        fmt("b", Some(2880), None, Some("v")),
        fmt("c", Some(2160), None, Some("v")),
        fmt("d", Some(1440), None, Some("v")),
        fmt("e", Some(1080), None, Some("v")),
        fmt("f", Some(720), None, Some("v")),
        fmt("g", Some(480), None, Some("v")),
        fmt("h", Some(360), None, Some("v")),
        fmt("i", Some(240), None, Some("v")),
        fmt("j", Some(144), None, Some("v")),
    ];
    let r = extract_available_resolutions(&formats);
    let labels: Vec<&str> = r.iter().map(|o| o.label.as_str()).collect();
    assert_eq!(
        labels,
        vec!["8K", "5K", "4K", "2K", "1080p", "720p", "480p", "360p", "240p", "144p"]
    );
}

#[test]
fn unknown_heights_get_numeric_labels() {
    let formats = vec![
        fmt("a", Some(333), None, Some("v")),
        fmt("b", Some(-5), None, Some("v")),
    ];
    let r = extract_available_resolutions(&formats);
    assert_eq!(r.len(), 2);
    assert_eq!(r[0].height, 333);
    assert_eq!(r[0].label, "333p");
    assert_eq!(r[1].height, -5);
    assert_eq!(r[1].label, "-5p");
}

#[test]
fn empty_format_list_gives_empty_summary() {
    let formats: Vec<VideoFormat> = Vec::new();
    let r = extract_available_resolutions(&formats);
    assert!(r.is_empty());
}
