//! Interpretation of a metadata fetch: the tool's captured output is
//! turned into a `VideoInfo`, reading the first output line that parses as
//! a JSON document and substituting a neutral default for every absent
//! field. The JSON reading itself is serde_json's, behind trusted wrappers
//! from the line text to plain values; each wrapper's result is a named
//! function of the text, so the contracts here say exactly which field of
//! the document each part of the result carries.

use vstd::prelude::*;
use crate::errors::{error_text, format_ytdlp_error};
use crate::formats::{
    extract_available_resolutions, resolution_summary_ok, ResolutionOption, VideoFormat,
};
use crate::text::{lines_of, split_lines};

verus! {

/// Aggregate result of one metadata fetch. The duration is carried as the
/// decimal text of the number of seconds, since the library holds no
/// floating-point values; it reads "0" when the record gives none.
#[derive(Debug)]
pub struct VideoInfo {
    pub id: String,
    pub title: String,
    pub duration: String,
    pub thumbnail: String,
    pub formats: Vec<VideoFormat>,
    pub available_resolutions: Vec<ResolutionOption>,
}

/// The text is one valid JSON document.
pub uninterp spec fn parses_as_json(s: Seq<char>) -> bool;

/// The text of the document's top-level string member under the key, or
/// nothing when the text does not parse, the document is no object, the
/// key is absent, or the member is no string.
pub uninterp spec fn json_top_str_of(s: Seq<char>, key: Seq<char>) -> Option<Seq<char>>;

/// The decimal text of the document's "duration" number read as a float,
/// or nothing when absent or not a number.
pub uninterp spec fn json_duration_text_of(s: Seq<char>) -> Option<Seq<char>>;

/// The length of the document's "formats" array, or nothing when the
/// member is absent or no array.
pub uninterp spec fn json_formats_len_of(s: Seq<char>) -> Option<int>;

/// The text of the string member under the key of element `i` of the
/// document's "formats" array, or nothing.
pub uninterp spec fn json_format_str_of(s: Seq<char>, i: int, key: Seq<char>) -> Option<Seq<char>>;

/// The value of the integer member under the key of element `i` of the
/// document's "formats" array, or nothing when absent or not an integer
/// that fits.
pub uninterp spec fn json_format_i64_of(s: Seq<char>, i: int, key: Seq<char>) -> Option<i64>;

/// The document's "format" member is an object.
pub uninterp spec fn json_single_format_of(s: Seq<char>) -> bool;

/// The text of the string member under the key of the document's "format"
/// object, or nothing.
pub uninterp spec fn json_single_str_of(s: Seq<char>, key: Seq<char>) -> Option<Seq<char>>;

/// The value of the integer member under the key of the document's
/// "format" object, or nothing.
pub uninterp spec fn json_single_i64_of(s: Seq<char>, key: Seq<char>) -> Option<i64>;

/// Relies on serde_json::from_str::<Value>: Ok exactly when the text is
/// one valid JSON document, a function of the text alone.
#[verifier::external_body]
fn parses_json_line(line: &str) -> (r: bool)
    ensures
        r == parses_as_json(line@),
{
    serde_json::from_str::<serde_json::Value>(line).is_ok()
}

/// Relies on serde_json (from_str, Value::get, Value::as_str): the
/// document's top-level string member under the key.
#[verifier::external_body]
fn json_top_str(line: &str, key: &str) -> (r: Option<String>)
    ensures
        r.deep_view() == json_top_str_of(line@, key@),
{
    serde_json::from_str::<serde_json::Value>(line).ok().and_then(
        |v| v.get(key)?.as_str().map(|s| s.to_owned()),
    )
}

/// Relies on serde_json (from_str, Value::get, Value::as_f64): the
/// document's "duration" number as a float, handed on as decimal text.
#[verifier::external_body]
fn json_duration_text(line: &str) -> (r: Option<String>)
    ensures
        r.deep_view() == json_duration_text_of(line@),
{
    serde_json::from_str::<serde_json::Value>(line).ok().and_then(
        |v| v.get("duration")?.as_f64().map(|f| format!("{}", f)),
    )
}

/// Relies on serde_json (from_str, Value::get, Value::as_array): the
/// length of the document's "formats" array.
#[verifier::external_body]
fn json_formats_len(line: &str) -> (r: Option<usize>)
    ensures
        (r is Some) == (json_formats_len_of(line@) is Some),
        r matches Some(n) ==> json_formats_len_of(line@) == Some(n as int),
{
    serde_json::from_str::<serde_json::Value>(line).ok().and_then(
        |v| v.get("formats")?.as_array().map(|a| a.len()),
    )
}

/// Relies on serde_json (from_str, Value::get, Value::as_array, Vec::get,
/// Value::as_str): the string member under the key of one element of the
/// document's "formats" array.
#[verifier::external_body]
fn json_format_str(line: &str, i: usize, key: &str) -> (r: Option<String>)
    ensures
        r.deep_view() == json_format_str_of(line@, i as int, key@),
{
    serde_json::from_str::<serde_json::Value>(line).ok().and_then(
        |v| v.get("formats")?.as_array()?.get(i)?.get(key)?.as_str().map(|s| s.to_owned()),
    )
}

/// Relies on serde_json (from_str, Value::get, Value::as_array, Vec::get,
/// Value::as_i64): the integer member under the key of one element of the
/// document's "formats" array.
#[verifier::external_body]
fn json_format_i64(line: &str, i: usize, key: &str) -> (r: Option<i64>)
    ensures
        r == json_format_i64_of(line@, i as int, key@),
{
    serde_json::from_str::<serde_json::Value>(line).ok().and_then(
        |v| v.get("formats")?.as_array()?.get(i)?.get(key)?.as_i64(),
    )
}

/// Relies on serde_json (from_str, Value::get, Value::is_object): whether
/// the document's "format" member is an object.
#[verifier::external_body]
fn json_has_single_format(line: &str) -> (r: bool)
    ensures
        r == json_single_format_of(line@),
{
    serde_json::from_str::<serde_json::Value>(line).ok().map_or(
        false,
        |v| v.get("format").map_or(false, |f| f.is_object()),
    )
}

/// Relies on serde_json (from_str, Value::get, Value::as_str): the string
/// member under the key of the document's "format" object.
#[verifier::external_body]
fn json_single_str(line: &str, key: &str) -> (r: Option<String>)
    ensures
        r.deep_view() == json_single_str_of(line@, key@),
{
    serde_json::from_str::<serde_json::Value>(line).ok().and_then(
        |v| v.get("format")?.get(key)?.as_str().map(|s| s.to_owned()),
    )
}

/// Relies on serde_json (from_str, Value::get, Value::as_i64): the
/// integer member under the key of the document's "format" object.
#[verifier::external_body]
fn json_single_i64(line: &str, key: &str) -> (r: Option<i64>)
    ensures
        r == json_single_i64_of(line@, key@),
{
    serde_json::from_str::<serde_json::Value>(line).ok().and_then(
        |v| v.get("format")?.get(key)?.as_i64(),
    )
}

/// The extracted text, or the default where none was extracted.
pub open spec fn str_or(o: Option<Seq<char>>, d: Seq<char>) -> Seq<char> {
    match o {
        Some(s) => s,
        None => d,
    }
}

/// The format record carries exactly the fields of element `i` of the
/// document's "formats" array: identifier and extension defaulted to
/// "unknown", the optional fields as extracted.
pub open spec fn format_matches(f: VideoFormat, s: Seq<char>, i: int) -> bool {
    &&& f.format_id@ == str_or(json_format_str_of(s, i, "format_id"@), "unknown"@)
    &&& f.ext@ == str_or(json_format_str_of(s, i, "ext"@), "unknown"@)
    &&& f.vcodec.deep_view() == json_format_str_of(s, i, "vcodec"@)
    &&& f.acodec.deep_view() == json_format_str_of(s, i, "acodec"@)
    &&& f.height == json_format_i64_of(s, i, "height"@)
    &&& f.width == json_format_i64_of(s, i, "width"@)
    &&& f.filesize == json_format_i64_of(s, i, "filesize"@)
}

/// The format record carries the identifier, extension and file size of
/// the document's single "format" object, without dimensions or codecs.
pub open spec fn single_format_matches(f: VideoFormat, s: Seq<char>) -> bool {
    &&& f.format_id@ == str_or(json_single_str_of(s, "format_id"@), "unknown"@)
    &&& f.ext@ == str_or(json_single_str_of(s, "ext"@), "unknown"@)
    &&& f.filesize == json_single_i64_of(s, "filesize"@)
    &&& f.height is None
    &&& f.width is None
    &&& f.vcodec is None
    &&& f.acodec is None
}

/// The format list carries the document's formats: one record per element
/// of its "formats" array, field-wise; else one record from its "format"
/// object; else none.
pub open spec fn formats_match(fs: Seq<VideoFormat>, s: Seq<char>) -> bool {
    match json_formats_len_of(s) {
        Some(n) => fs.len() == n && forall|i: int|
            0 <= i < fs.len() ==> format_matches(#[trigger] fs[i], s, i),
        None => if json_single_format_of(s) {
            fs.len() == 1 && single_format_matches(fs[0], s)
        } else {
            fs.len() == 0
        },
    }
}

/// The aggregate result carries the document's fields: id, title and
/// thumbnail defaulted to the empty string, the duration text defaulted
/// to "0", the format list field-wise, and the resolution summary derived
/// from that list.
pub open spec fn video_info_matches(v: VideoInfo, s: Seq<char>) -> bool {
    &&& v.id@ == str_or(json_top_str_of(s, "id"@), ""@)
    &&& v.title@ == str_or(json_top_str_of(s, "title"@), ""@)
    &&& v.duration@ == str_or(json_duration_text_of(s), "0"@)
    &&& v.thumbnail@ == str_or(json_top_str_of(s, "thumbnail"@), ""@)
    &&& formats_match(v.formats@, s)
    &&& resolution_summary_ok(v.available_resolutions@, v.formats@)
}

/// The first line of the sequence that is one valid JSON document.
pub open spec fn first_json_line(ls: Seq<Seq<char>>) -> Option<Seq<char>>
    decreases ls.len(),
{
    if ls.len() == 0 {
        None
    } else if parses_as_json(ls[0]) {
        Some(ls[0])
    } else {
        first_json_line(ls.drop_first())
    }
}

proof fn lemma_first_json_line_at(ls: Seq<Seq<char>>, i: int)
    requires
        0 <= i < ls.len(),
        parses_as_json(ls[i]),
        forall|k: int| 0 <= k < i ==> !parses_as_json(#[trigger] ls[k]),
    ensures
        first_json_line(ls) == Some(ls[i]),
    decreases i,
{
    if i > 0 {
        assert(ls.drop_first()[i - 1] == ls[i]);
        assert(forall|k: int| 0 <= k < i - 1 ==> #[trigger] ls.drop_first()[k] == ls[k + 1]);
        lemma_first_json_line_at(ls.drop_first(), i - 1);
    }
}

/// Builds one format record from its extracted fields, substituting the
/// neutral default "unknown" for an absent identifier or extension and
/// keeping every optional field as it came.
pub fn video_format_from_parts(
    format_id: Option<String>,
    height: Option<i64>,
    width: Option<i64>,
    ext: Option<String>,
    filesize: Option<i64>,
    vcodec: Option<String>,
    acodec: Option<String>,
) -> (r: VideoFormat)
    ensures
        r.format_id@ == str_or(format_id.deep_view(), "unknown"@),
        r.ext@ == str_or(ext.deep_view(), "unknown"@),
        r.height == height,
        r.width == width,
        r.filesize == filesize,
        r.vcodec == vcodec,
        r.acodec == acodec,
{
    let fid = match format_id {
        Some(s) => s,
        None => String::from_str("unknown"),
    };
    let e = match ext {
        Some(s) => s,
        None => String::from_str("unknown"),
    };
    VideoFormat { format_id: fid, height, width, ext: e, filesize, vcodec, acodec }
}

/// Reads the format list of a metadata document out of its line text: one
/// record per element of its "formats" array, or a single heightless
/// record from its "format" object, or none.
pub fn parse_formats(line: &str) -> (r: Vec<VideoFormat>)
    ensures
        formats_match(r@, line@),
{
    let mut out: Vec<VideoFormat> = Vec::new();
    if let Some(n) = json_formats_len(line) {
        let mut i: usize = 0;
        while i < n
            invariant
                i <= n,
                out@.len() == i,
                json_formats_len_of(line@) == Some(n as int),
                forall|k: int| 0 <= k < i ==> format_matches(#[trigger] out@[k], line@, k),
            decreases n - i,
        {
            let f = video_format_from_parts(
                json_format_str(line, i, "format_id"),
                json_format_i64(line, i, "height"),
                json_format_i64(line, i, "width"),
                json_format_str(line, i, "ext"),
                json_format_i64(line, i, "filesize"),
                json_format_str(line, i, "vcodec"),
                json_format_str(line, i, "acodec"),
            );
            out.push(f);
            i += 1;
        }
        return out;
    }
    if json_has_single_format(line) {
        out.push(
            video_format_from_parts(
                json_single_str(line, "format_id"),
                None,
                None,
                json_single_str(line, "ext"),
                json_single_i64(line, "filesize"),
                None,
                None,
            ),
        );
    }
    out
}

/// Builds the aggregate result from its extracted parts, substituting the
/// neutral defaults for absent fields (empty text for id, title and
/// thumbnail, "0" for the duration) and deriving the resolution summary
/// from the format list.
pub fn video_info_from_parts(
    id: Option<String>,
    title: Option<String>,
    duration: Option<String>,
    thumbnail: Option<String>,
    formats: Vec<VideoFormat>,
) -> (r: VideoInfo)
    ensures
        r.id@ == str_or(id.deep_view(), ""@),
        r.title@ == str_or(title.deep_view(), ""@),
        r.duration@ == str_or(duration.deep_view(), "0"@),
        r.thumbnail@ == str_or(thumbnail.deep_view(), ""@),
        r.formats == formats,
        resolution_summary_ok(r.available_resolutions@, r.formats@),
{
    proof {
        reveal_strlit("");
    }
    let available_resolutions = extract_available_resolutions(&formats);
    VideoInfo {
        id: match id {
            Some(s) => s,
            None => String::new(),
        },
        title: match title {
            Some(s) => s,
            None => String::new(),
        },
        duration: match duration {
            Some(s) => s,
            None => String::from_str("0"),
        },
        thumbnail: match thumbnail {
            Some(s) => s,
            None => String::new(),
        },
        formats,
        available_resolutions,
    }
}

/// Interprets one metadata document out of its line text: every field
/// read with its neutral default, the format list field-wise, and the
/// resolution summary derived from it — exactly `video_info_matches`.
pub fn parse_video_info(line: &str) -> (r: VideoInfo)
    ensures
        video_info_matches(r, line@),
{
    let id = json_top_str(line, "id");
    let title = json_top_str(line, "title");
    let duration = json_duration_text(line);
    let thumbnail = json_top_str(line, "thumbnail");
    let formats = parse_formats(line);
    video_info_from_parts(id, title, duration, thumbnail, formats)
}

/// Interprets the captured output of one metadata run. A failed run gives
/// the classified diagnostic; empty output gives the no-data error; else
/// the run succeeds exactly when some line is valid JSON, the result
/// carries the fields of the first such line, and the parse error comes
/// only when no line parses.
pub fn video_info_from_output(success: bool, stdout: &str, stderr: &str) -> (r: Result<
    VideoInfo,
    String,
>)
    ensures
        !success ==> (r matches Err(e) && e@ == error_text(stderr@)),
        success && lines_of(stdout@).len() == 0 ==> (r matches Err(e) && e@
            == "无法获取视频信息: 无响应数据"@),
        success && lines_of(stdout@).len() > 0 ==> ((r is Ok) <==> exists|i: int|
            0 <= i < lines_of(stdout@).len() && #[trigger] parses_as_json(lines_of(stdout@)[i])),
        r matches Ok(v) ==> success && (first_json_line(lines_of(stdout@)) matches Some(s)
            && video_info_matches(v, s)),
        success && lines_of(stdout@).len() > 0 ==> (r matches Err(e) ==> e@ == "无法解析视频信息"@),
{
    if !success {
        return Err(format_ytdlp_error(stderr));
    }
    let lines = split_lines(stdout);
    if lines.len() == 0 {
        return Err(String::from_str("无法获取视频信息: 无响应数据"));
    }
    let n = lines.len();
    let mut i: usize = 0;
    while i < n
        invariant
            i <= n,
            n == lines@.len(),
            success,
            lines.deep_view() == lines_of(stdout@),
            lines_of(stdout@).len() > 0,
            forall|k: int| 0 <= k < i ==> !parses_as_json(#[trigger] lines.deep_view()[k]),
        decreases n - i,
    {
        proof {
            assert(lines.deep_view()[i as int] == lines@[i as int]@);
        }
        if parses_json_line(lines[i].as_str()) {
            let info = parse_video_info(lines[i].as_str());
            proof {
                lemma_first_json_line_at(lines.deep_view(), i as int);
            }
            return Ok(info);
        }
        i += 1;
    }
    Err(String::from_str("无法解析视频信息"))
}

/// The fixed argument list of one synchronous metadata fetch: a single-
/// record JSON dump with warnings off, flat playlist traversal, browser
/// impersonation, a fixed user agent and browser cookies, then the URL.
pub fn ytdlp_metadata_args(url: &str) -> (r: Vec<String>)
    ensures
        r.deep_view() =~= seq![
            "--dump-json"@,
            "--no-warnings"@,
            "--flat-playlist"@,
            "--impersonate"@,
            "chrome"@,
            "--user-agent"@,
            "Mozilla/5.0 (Macintosh; Intel Mac OS X 10_15_7) AppleWebKit/537.36 (KHTML, like Gecko) Chrome/120.0.0.0 Safari/537.36"@,
            "--cookies-from-browser"@,
            "chrome"@,
            url@,
        ],
{
    let mut args: Vec<String> = Vec::new();
    args.push(String::from_str("--dump-json"));
    args.push(String::from_str("--no-warnings"));
    args.push(String::from_str("--flat-playlist"));
    args.push(String::from_str("--impersonate"));
    args.push(String::from_str("chrome"));
    args.push(String::from_str("--user-agent"));
    args.push(
        String::from_str(
            "Mozilla/5.0 (Macintosh; Intel Mac OS X 10_15_7) AppleWebKit/537.36 (KHTML, like Gecko) Chrome/120.0.0.0 Safari/537.36",
        ),
    );
    args.push(String::from_str("--cookies-from-browser"));
    args.push(String::from_str("chrome"));
    args.push(String::from_str(url));
    args
}

} // verus!
