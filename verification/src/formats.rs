//! Video format metadata and the resolution summary derived from it:
//! one entry per distinct height of the formats that carry video, ordered
//! by descending height, each with a conventional label and a representative
//! format identifier that prefers a format with a known file size.

use vstd::prelude::*;
use crate::text::{dec_int, i64_to_string, str_eq};

verus! {

/// One encoded rendition of a video, as the external tool reports it.
/// Absent fields of the tool's record stay absent here or hold the
/// neutral default the parser substitutes.
#[derive(Debug)]
pub struct VideoFormat {
    pub format_id: String,
    pub height: Option<i64>,
    pub width: Option<i64>,
    pub ext: String,
    pub filesize: Option<i64>,
    pub vcodec: Option<String>,
    pub acodec: Option<String>,
}

/// A deduplicated-by-height summary entry of the format list.
#[derive(Debug)]
pub struct ResolutionOption {
    pub height: i64,
    pub label: String,
    pub format_id: String,
}

/// A format counts toward the resolution summary: it names a video codec
/// other than the explicit "none" marker and carries a height.
pub open spec fn eligible(f: VideoFormat) -> bool {
    &&& f.vcodec is Some
    &&& f.vcodec->0@ != "none"@
    &&& f.height is Some
}

/// Some eligible format in the list has this height.
pub open spec fn height_listed(fs: Seq<VideoFormat>, h: i64) -> bool {
    exists|i: int| 0 <= i < fs.len() && eligible(#[trigger] fs[i]) && fs[i].height == Some(h)
}

/// The first format in the list that satisfies the predicate.
pub open spec fn first_match(fs: Seq<VideoFormat>, pred: spec_fn(VideoFormat) -> bool) -> Option<
    VideoFormat,
>
    decreases fs.len(),
{
    if fs.len() == 0 {
        None
    } else if pred(fs[0]) {
        Some(fs[0])
    } else {
        first_match(fs.drop_first(), pred)
    }
}

/// An eligible format at this height that also carries a known file size.
pub open spec fn sized_at(h: i64) -> spec_fn(VideoFormat) -> bool {
    (|f: VideoFormat| eligible(f) && f.height == Some(h) && f.filesize is Some)
}

/// Any eligible format at this height.
pub open spec fn any_at(h: i64) -> spec_fn(VideoFormat) -> bool {
    (|f: VideoFormat| eligible(f) && f.height == Some(h))
}

/// The representative format for a height: the first one with a known file
/// size if any format at that height has one, else the first one seen.
pub open spec fn rep_format(fs: Seq<VideoFormat>, h: i64) -> Option<VideoFormat> {
    if first_match(fs, sized_at(h)) is Some {
        first_match(fs, sized_at(h))
    } else {
        first_match(fs, any_at(h))
    }
}

/// The identifier of the representative format for a height.
pub open spec fn rep_id(fs: Seq<VideoFormat>, h: i64) -> Seq<char> {
    rep_format(fs, h)->0.format_id@
}

/// The conventional display label for a height.
pub open spec fn label_of(h: i64) -> Seq<char> {
    if h == 4320 {
        "8K"@
    } else if h == 2880 {
        "5K"@
    } else if h == 2160 {
        "4K"@
    } else if h == 1440 {
        "2K"@
    } else if h == 1080 {
        "1080p"@
    } else if h == 720 {
        "720p"@
    } else if h == 480 {
        "480p"@
    } else if h == 360 {
        "360p"@
    } else if h == 240 {
        "240p"@
    } else if h == 144 {
        "144p"@
    } else {
        dec_int(h as int) + "p"@
    }
}

/// Renders the display label for a height.
pub fn label_for(h: i64) -> (r: String)
    ensures
        r@ == label_of(h),
{
    if h == 4320 {
        String::from_str("8K")
    } else if h == 2880 {
        String::from_str("5K")
    } else if h == 2160 {
        String::from_str("4K")
    } else if h == 1440 {
        String::from_str("2K")
    } else if h == 1080 {
        String::from_str("1080p")
    } else if h == 720 {
        String::from_str("720p")
    } else if h == 480 {
        String::from_str("480p")
    } else if h == 360 {
        String::from_str("360p")
    } else if h == 240 {
        String::from_str("240p")
    } else if h == 144 {
        String::from_str("144p")
    } else {
        let mut s = i64_to_string(h);
        s.append("p");
        s
    }
}

/// Decides `eligible` for a format.
pub fn is_eligible(f: &VideoFormat) -> (r: bool)
    ensures
        r == eligible(*f),
{
    match (&f.vcodec, &f.height) {
        (Some(v), Some(_)) => !str_eq(v.as_str(), "none"),
        _ => false,
    }
}

/// The first match of a predicate is at the least index that satisfies it.
proof fn lemma_first_match_at(fs: Seq<VideoFormat>, pred: spec_fn(VideoFormat) -> bool, i: int)
    requires
        0 <= i < fs.len(),
        pred(fs[i]),
        forall|k: int| 0 <= k < i ==> !pred(#[trigger] fs[k]),
    ensures
        first_match(fs, pred) == Some(fs[i]),
    decreases i,
{
    if i == 0 {
    } else {
        assert(!pred(fs[0]));
        assert(fs.drop_first()[i - 1] == fs[i]);
        assert(forall|k: int| 0 <= k < i - 1 ==> fs.drop_first()[k] == fs[k + 1]);
        lemma_first_match_at(fs.drop_first(), pred, i - 1);
    }
}

/// Where nothing satisfies the predicate, there is no first match.
proof fn lemma_first_match_none(fs: Seq<VideoFormat>, pred: spec_fn(VideoFormat) -> bool)
    requires
        forall|k: int| 0 <= k < fs.len() ==> !pred(#[trigger] fs[k]),
    ensures
        first_match(fs, pred) is None,
    decreases fs.len(),
{
    if fs.len() > 0 {
        assert(forall|k: int|
            0 <= k < fs.drop_first().len() ==> #[trigger] fs.drop_first()[k] == fs[k + 1]);
        lemma_first_match_none(fs.drop_first(), pred);
    }
}

/// Where something satisfies the predicate, the first match exists and
/// satisfies it.
proof fn lemma_first_match_exists(fs: Seq<VideoFormat>, pred: spec_fn(VideoFormat) -> bool)
    requires
        exists|i: int| 0 <= i < fs.len() && pred(#[trigger] fs[i]),
    ensures
        first_match(fs, pred) is Some,
        pred(first_match(fs, pred)->0),
    decreases fs.len(),
{
    let i = choose|i: int| 0 <= i < fs.len() && pred(#[trigger] fs[i]);
    if pred(fs[0]) {
    } else {
        assert(fs.drop_first()[i - 1] == fs[i]);
        lemma_first_match_exists(fs.drop_first(), pred);
    }
}

/// Appending a format that the predicate rejects leaves the first match as
/// it was.
proof fn lemma_first_match_push(
    fs: Seq<VideoFormat>,
    pred: spec_fn(VideoFormat) -> bool,
    f: VideoFormat,
)
    requires
        !pred(f),
    ensures
        first_match(fs.push(f), pred) == first_match(fs, pred),
    decreases fs.len(),
{
    if fs.len() == 0 {
        assert(fs.push(f)[0] == f);
        assert(fs.push(f).drop_first() =~= Seq::<VideoFormat>::empty());
        assert(first_match(fs.push(f).drop_first(), pred) is None);
        assert(first_match(fs.push(f), pred) is None);
        assert(first_match(fs, pred) is None);
    } else {
        assert(fs.push(f)[0] == fs[0]);
        if !pred(fs[0]) {
            assert(fs.push(f).drop_first() =~= fs.drop_first().push(f));
            lemma_first_match_push(fs.drop_first(), pred, f);
        }
    }
}

/// A format without a video codec, or with the explicit "none" marker,
/// contributes nothing to the resolution summary: neither a height nor a
/// change of any representative.
pub proof fn lemma_no_video_codec_adds_nothing(fs: Seq<VideoFormat>, f: VideoFormat, h: i64)
    requires
        f.vcodec is None || f.vcodec->0@ == "none"@,
    ensures
        height_listed(fs.push(f), h) == height_listed(fs, h),
        rep_format(fs.push(f), h) == rep_format(fs, h),
{
    assert(!eligible(f));
    lemma_first_match_push(fs, sized_at(h), f);
    lemma_first_match_push(fs, any_at(h), f);
    if height_listed(fs.push(f), h) {
        let i = choose|i: int|
            0 <= i < fs.push(f).len() && eligible(#[trigger] fs.push(f)[i]) && fs.push(f)[i].height
                == Some(h);
        assert(i < fs.len() && fs.push(f)[i] == fs[i]);
        assert(height_listed(fs, h));
    }
    if height_listed(fs, h) {
        let i = choose|i: int|
            0 <= i < fs.len() && eligible(#[trigger] fs[i]) && fs[i].height == Some(h);
        assert(fs.push(f)[i] == fs[i]);
        assert(height_listed(fs.push(f), h));
    }
}

/// Inserts a height into a strictly descending list, keeping it a set.
fn insert_height(hs: &mut Vec<i64>, h: i64)
    requires
        forall|i: int, j: int| 0 <= i < j < old(hs)@.len() ==> old(hs)@[i] > old(hs)@[j],
    ensures
        forall|i: int, j: int| 0 <= i < j < final(hs)@.len() ==> final(hs)@[i] > final(hs)@[j],
        forall|x: i64| final(hs)@.contains(x) <==> (old(hs)@.contains(x) || x == h),
{
    let n = hs.len();
    let mut p: usize = 0;
    while p < n && hs[p] > h
        invariant
            n == hs@.len(),
            p <= n,
            forall|k: int| 0 <= k < p ==> hs@[k] > h,
            hs@ == old(hs)@,
        decreases n - p,
    {
        p += 1;
    }
    if p < n && hs[p] == h {
        return ;
    }
    hs.insert(p, h);
    proof {
        assert forall|i: int, j: int| 0 <= i < j < hs@.len() implies hs@[i] > hs@[j] by {
            if j < p {
            } else if i < p && j == p {
            } else if i < p && j > p {
                assert(hs@[j] == old(hs)@[j - 1]);
                if p < old(hs)@.len() {
                    assert(old(hs)@[p as int] < h || old(hs)@[p as int] == h);
                }
            } else if i == p {
                assert(hs@[j] == old(hs)@[j - 1]);
                assert(old(hs)@[p as int] != h);
                assert(!(old(hs)@[p as int] > h));
            } else {
                assert(hs@[i] == old(hs)@[i - 1]);
                assert(hs@[j] == old(hs)@[j - 1]);
            }
        }
        assert forall|x: i64| hs@.contains(x) <==> (old(hs)@.contains(x) || x == h) by {
            if hs@.contains(x) {
                let i = choose|i: int| 0 <= i < hs@.len() && hs@[i] == x;
                if i < p {
                    assert(old(hs)@[i] == x);
                } else if i > p {
                    assert(old(hs)@[i - 1] == x);
                }
            }
            if old(hs)@.contains(x) {
                let i = choose|i: int| 0 <= i < old(hs)@.len() && old(hs)@[i] == x;
                if i < p {
                    assert(hs@[i] == x);
                } else {
                    assert(hs@[i + 1] == x);
                }
            }
            assert(hs@[p as int] == h);
        }
    }
}

/// The identifier of the representative format for a listed height: the
/// first format at that height with a known file size, else the first one.
fn find_rep_id(formats: &Vec<VideoFormat>, h: i64) -> (r: String)
    requires
        height_listed(formats@, h),
    ensures
        r@ == rep_id(formats@, h),
{
    let n = formats.len();
    let mut i: usize = 0;
    while i < n
        invariant
            n == formats@.len(),
            i <= n,
            forall|k: int| 0 <= k < i ==> !sized_at(h)(#[trigger] formats@[k]),
        decreases n - i,
    {
        let f = &formats[i];
        if is_eligible(f) {
            if let (Some(fh), Some(_)) = (&f.height, &f.filesize) {
                if *fh == h {
                    proof {
                        assert(sized_at(h)(formats@[i as int]));
                        lemma_first_match_at(formats@, sized_at(h), i as int);
                    }
                    return f.format_id.clone();
                }
            }
        }
        i += 1;
    }
    proof {
        lemma_first_match_none(formats@, sized_at(h));
    }
    let mut j: usize = 0;
    while j < n
        invariant
            n == formats@.len(),
            j <= n,
            height_listed(formats@, h),
            first_match(formats@, sized_at(h)) is None,
            forall|k: int| 0 <= k < j ==> !any_at(h)(#[trigger] formats@[k]),
        decreases n - j,
    {
        let f = &formats[j];
        if is_eligible(f) {
            if let Some(fh) = &f.height {
                if *fh == h {
                    proof {
                        assert(any_at(h)(formats@[j as int]));
                        lemma_first_match_at(formats@, any_at(h), j as int);
                    }
                    return f.format_id.clone();
                }
            }
        }
        j += 1;
    }
    proof {
        lemma_first_match_none(formats@, any_at(h));
        let i = choose|i: int|
            0 <= i < formats@.len() && eligible(#[trigger] formats@[i]) && formats@[i].height
                == Some(h);
        assert(any_at(h)(formats@[i]));
        assert(false);
    }
    String::new()
}

/// The sequence is the resolution summary of the format list: exactly one
/// entry for each height of an eligible format, in strictly descending
/// order of height, each labelled by `label_of` and carrying the
/// identifier of the representative format for its height.
pub open spec fn resolution_summary_ok(r: Seq<ResolutionOption>, fs: Seq<VideoFormat>) -> bool {
    &&& forall|i: int, j: int| 0 <= i < j < r.len() ==> r[i].height > r[j].height
    &&& forall|i: int|
        0 <= i < r.len() ==> height_listed(fs, (#[trigger] r[i]).height) && r[i].label@ == label_of(
            r[i].height,
        ) && r[i].format_id@ == rep_id(fs, r[i].height)
    &&& forall|h: i64|
        height_listed(fs, h) ==> exists|i: int| 0 <= i < r.len() && (#[trigger] r[i]).height == h
}

/// Derives the resolution summary of a format list, as
/// `resolution_summary_ok` pins it down.
pub fn extract_available_resolutions(formats: &Vec<VideoFormat>) -> (r: Vec<ResolutionOption>)
    ensures
        resolution_summary_ok(r@, formats@),
{
    let n = formats.len();
    let mut heights: Vec<i64> = Vec::new();
    let mut k: usize = 0;
    while k < n
        invariant
            n == formats@.len(),
            k <= n,
            forall|i: int, j: int| 0 <= i < j < heights@.len() ==> heights@[i] > heights@[j],
            forall|x: i64| heights@.contains(x) <==> height_listed(formats@.take(k as int), x),
        decreases n - k,
    {
        let f = &formats[k];
        proof {
            assert(formats@.take(k + 1).drop_last() =~= formats@.take(k as int));
            assert(formats@.take(k + 1).last() == formats@[k as int]);
        }
        if is_eligible(f) {
            let fh = match &f.height {
                Some(v) => *v,
                None => 0,
            };
            insert_height(&mut heights, fh);
            proof {
                assert forall|x: i64| heights@.contains(x) <==> height_listed(
                    formats@.take(k + 1),
                    x,
                ) by {
                    if heights@.contains(x) {
                        if x == fh {
                            assert(formats@.take(k + 1)[k as int] == formats@[k as int]);
                            assert(height_listed(formats@.take(k + 1), x));
                        } else {
                            let i = choose|i: int|
                                0 <= i < formats@.take(k as int).len() && eligible(
                                    #[trigger] formats@.take(k as int)[i],
                                ) && formats@.take(k as int)[i].height == Some(x);
                            assert(formats@.take(k + 1)[i] == formats@.take(k as int)[i]);
                            assert(height_listed(formats@.take(k + 1), x));
                        }
                    }
                    if height_listed(formats@.take(k + 1), x) {
                        let i = choose|i: int|
                            0 <= i < formats@.take(k + 1).len() && eligible(
                                #[trigger] formats@.take(k + 1)[i],
                            ) && formats@.take(k + 1)[i].height == Some(x);
                        if i < k {
                            assert(formats@.take(k as int)[i] == formats@.take(k + 1)[i]);
                            assert(height_listed(formats@.take(k as int), x));
                        } else {
                            assert(formats@.take(k + 1)[i] == formats@[k as int]);
                            assert(x == fh);
                        }
                    }
                }
            }
        } else {
            proof {
                assert forall|x: i64| heights@.contains(x) <==> height_listed(
                    formats@.take(k + 1),
                    x,
                ) by {
                    if heights@.contains(x) {
                        let i = choose|i: int|
                            0 <= i < formats@.take(k as int).len() && eligible(
                                #[trigger] formats@.take(k as int)[i],
                            ) && formats@.take(k as int)[i].height == Some(x);
                        assert(formats@.take(k + 1)[i] == formats@.take(k as int)[i]);
                        assert(height_listed(formats@.take(k + 1), x));
                    }
                    if height_listed(formats@.take(k + 1), x) {
                        let i = choose|i: int|
                            0 <= i < formats@.take(k + 1).len() && eligible(
                                #[trigger] formats@.take(k + 1)[i],
                            ) && formats@.take(k + 1)[i].height == Some(x);
                        if i < k {
                            assert(formats@.take(k as int)[i] == formats@.take(k + 1)[i]);
                            assert(height_listed(formats@.take(k as int), x));
                        } else {
                            assert(formats@.take(k + 1)[i] == formats@[k as int]);
                            assert(false);
                        }
                    }
                }
            }
        }
        k += 1;
    }
    proof {
        assert(formats@.take(n as int) =~= formats@);
    }
    let m = heights.len();
    let mut result: Vec<ResolutionOption> = Vec::new();
    let mut t: usize = 0;
    while t < m
        invariant
            m == heights@.len(),
            t <= m,
            result@.len() == t,
            n == formats@.len(),
            forall|i: int, j: int| 0 <= i < j < heights@.len() ==> heights@[i] > heights@[j],
            forall|x: i64| heights@.contains(x) <==> height_listed(formats@, x),
            forall|i: int| 0 <= i < t ==> (#[trigger] result@[i]).height == heights@[i],
            forall|i: int|
                0 <= i < t ==> (#[trigger] result@[i]).label@ == label_of(result@[i].height)
                    && result@[i].format_id@ == rep_id(formats@, result@[i].height),
        decreases m - t,
    {
        let h = heights[t];
        proof {
            assert(heights@[t as int] == h);
            assert(heights@.contains(h));
        }
        let rep = find_rep_id(formats, h);
        let lab = label_for(h);
        result.push(ResolutionOption { height: h, label: lab, format_id: rep });
        t += 1;
    }
    proof {
        assert forall|h: i64| height_listed(formats@, h) implies exists|i: int|
            0 <= i < result@.len() && (#[trigger] result@[i]).height == h by {
            assert(heights@.contains(h));
            let i = choose|i: int| 0 <= i < heights@.len() && heights@[i] == h;
            assert(result@[i].height == h);
        }
        assert forall|i: int| 0 <= i < result@.len() implies height_listed(
            formats@,
            (#[trigger] result@[i]).height,
        ) by {
            assert(heights@[i] == result@[i].height);
            assert(heights@.contains(result@[i].height));
        }
    }
    result
}

/// A resolution summary holds at most one entry per distinct height.
pub proof fn lemma_heights_unique(r: Seq<ResolutionOption>, fs: Seq<VideoFormat>)
    requires
        resolution_summary_ok(r, fs),
    ensures
        forall|i: int, j: int|
            0 <= i < r.len() && 0 <= j < r.len() && i != j ==> (#[trigger] r[i]).height != (
            #[trigger] r[j]).height,
{
}

/// Where some format at a height carries a known file size, the
/// representative for that height is such a format.
pub proof fn lemma_sized_representative(fs: Seq<VideoFormat>, h: i64)
    requires
        exists|i: int|
            0 <= i < fs.len() && eligible(#[trigger] fs[i]) && fs[i].height == Some(h)
                && fs[i].filesize is Some,
    ensures
        rep_format(fs, h) is Some,
        rep_format(fs, h)->0.filesize is Some,
        rep_format(fs, h)->0.height == Some(h),
        eligible(rep_format(fs, h)->0),
{
    let i = choose|i: int|
        0 <= i < fs.len() && eligible(#[trigger] fs[i]) && fs[i].height == Some(h)
            && fs[i].filesize is Some;
    assert(sized_at(h)(fs[i]));
    lemma_first_match_exists(fs, sized_at(h));
}

} // verus!
