//! Recognition of progress lines in the external tool's live output:
//! a candidate line carries the download marker or a percent sign; the
//! percent is the first token with '%' whose stripped text parses as a
//! float, the speed follows an "at" token or carries a throughput unit,
//! and the estimated time remaining follows an "ETA" token or shows two
//! colons.

use vstd::prelude::*;
use crate::text::{
    contains_seq, contains_sub, count_char, count_char_in, is_float_str, is_float_text, split_ws,
    str_eq, strip_trailing, strip_trailing_char, tokens_of,
};

verus! {

/// A point-in-time progress reading parsed from one output line. The
/// percent is kept as its decimal text, already checked to parse as a
/// float; speed and estimated time remaining are display strings.
#[derive(Debug)]
pub struct ProgressSnapshot {
    pub percent: String,
    pub speed: String,
    pub eta: String,
}

/// The percent text taken from the tokens at or after `i`: the first token
/// containing '%' whose text, trailing percent signs stripped, parses as a
/// float.
pub open spec fn percent_from(toks: Seq<Seq<char>>, i: int) -> Option<Seq<char>>
    decreases toks.len() - i,
{
    if i < 0 || i >= toks.len() {
        None
    } else if contains_seq(toks[i], "%"@) && is_float_text(strip_trailing(toks[i], '%')) {
        Some(strip_trailing(toks[i], '%'))
    } else {
        percent_from(toks, i + 1)
    }
}

/// The speed text taken from the tokens at or after `i`: what follows the
/// first "at" token, extended by the next token when that carries a "/s"
/// suffix; else the first token holding a known throughput unit; else
/// empty.
pub open spec fn speed_from(toks: Seq<Seq<char>>, i: int) -> Seq<char>
    decreases toks.len() - i,
{
    if i < 0 || i >= toks.len() {
        Seq::empty()
    } else if toks[i] == "at"@ && i + 1 < toks.len() {
        if i + 2 < toks.len() && contains_seq(toks[i + 2], "/s"@) {
            toks[i + 1] + " "@ + toks[i + 2]
        } else {
            toks[i + 1]
        }
    } else if contains_seq(toks[i], "MiB/s"@) || contains_seq(toks[i], "KiB/s"@) || contains_seq(
        toks[i],
        "MB/s"@,
    ) || contains_seq(toks[i], "KB/s"@) {
        toks[i]
    } else {
        speed_from(toks, i + 1)
    }
}

/// The estimated-time-remaining text taken from the tokens at or after
/// `i`: what follows the first "ETA" token, else the first token holding
/// exactly two colons, else empty.
pub open spec fn eta_from(toks: Seq<Seq<char>>, i: int) -> Seq<char>
    decreases toks.len() - i,
{
    if i < 0 || i >= toks.len() {
        Seq::empty()
    } else if toks[i] == "ETA"@ && i + 1 < toks.len() {
        toks[i + 1]
    } else if count_char(toks[i], ':') == 2 {
        toks[i]
    } else {
        eta_from(toks, i + 1)
    }
}

/// The progress reading of one output line, if the line is a progress
/// line: `None` unless the line carries the download marker or a percent
/// sign and a percent token is extractable; else the percent, speed and
/// estimated-time-remaining texts.
pub open spec fn progress_of(line: Seq<char>) -> Option<(Seq<char>, Seq<char>, Seq<char>)> {
    if !contains_seq(line, "[download]"@) && !contains_seq(line, "%"@) {
        None
    } else {
        let toks = tokens_of(line);
        match percent_from(toks, 0) {
            None => None,
            Some(p) => Some((p, speed_from(toks, 0), eta_from(toks, 0))),
        }
    }
}

fn find_percent(toks: &Vec<String>) -> (r: Option<String>)
    ensures
        match r {
            Some(p) => percent_from(toks.deep_view(), 0) == Some(p@),
            None => percent_from(toks.deep_view(), 0) is None,
        },
{
    let n = toks.len();
    let mut i: usize = 0;
    while i < n
        invariant
            n == toks@.len(),
            i <= n,
            percent_from(toks.deep_view(), 0) == percent_from(toks.deep_view(), i as int),
        decreases n - i,
    {
        proof {
            assert(toks.deep_view()[i as int] == toks@[i as int]@);
        }
        let t = &toks[i];
        if contains_sub(t.as_str(), "%") {
            let stripped = strip_trailing_char(t.as_str(), '%');
            if is_float_str(stripped.as_str()) {
                return Some(stripped);
            }
        }
        i += 1;
    }
    None
}

fn find_speed(toks: &Vec<String>) -> (r: String)
    ensures
        r@ == speed_from(toks.deep_view(), 0),
{
    let n = toks.len();
    let mut i: usize = 0;
    while i < n
        invariant
            n == toks@.len(),
            i <= n,
            speed_from(toks.deep_view(), 0) == speed_from(toks.deep_view(), i as int),
        decreases n - i,
    {
        proof {
            assert(toks.deep_view()[i as int] == toks@[i as int]@);
            if i + 1 < n {
                assert(toks.deep_view()[i + 1] == toks@[i + 1]@);
            }
            if i + 2 < n {
                assert(toks.deep_view()[i + 2] == toks@[i + 2]@);
            }
        }
        let t = &toks[i];
        if str_eq(t.as_str(), "at") && i + 1 < n {
            let mut sp = toks[i + 1].clone();
            if i + 2 < n && contains_sub(toks[i + 2].as_str(), "/s") {
                sp.append(" ");
                sp.append(toks[i + 2].as_str());
            }
            return sp;
        }
        if contains_sub(t.as_str(), "MiB/s") || contains_sub(t.as_str(), "KiB/s") || contains_sub(
            t.as_str(),
            "MB/s",
        ) || contains_sub(t.as_str(), "KB/s") {
            return t.clone();
        }
        i += 1;
    }
    String::new()
}

fn find_eta(toks: &Vec<String>) -> (r: String)
    ensures
        r@ == eta_from(toks.deep_view(), 0),
{
    let n = toks.len();
    let mut i: usize = 0;
    while i < n
        invariant
            n == toks@.len(),
            i <= n,
            eta_from(toks.deep_view(), 0) == eta_from(toks.deep_view(), i as int),
        decreases n - i,
    {
        proof {
            assert(toks.deep_view()[i as int] == toks@[i as int]@);
            if i + 1 < n {
                assert(toks.deep_view()[i + 1] == toks@[i + 1]@);
            }
        }
        let t = &toks[i];
        if str_eq(t.as_str(), "ETA") && i + 1 < n {
            return toks[i + 1].clone();
        }
        if count_char_in(t.as_str(), ':') == 2 {
            return t.clone();
        }
        i += 1;
    }
    String::new()
}

/// Parses one output line into a progress snapshot, exactly when
/// `progress_of` recognizes one: the percent is the stripped text of the
/// first float-parsable percent token, never absent from a returned
/// snapshot.
pub fn parse_progress_line(line: &str) -> (r: Option<ProgressSnapshot>)
    ensures
        (r is Some) == (progress_of(line@) is Some),
        r matches Some(snap) ==> progress_of(line@) == Some(
            (snap.percent@, snap.speed@, snap.eta@),
        ),
{
    if !contains_sub(line, "[download]") && !contains_sub(line, "%") {
        return None;
    }
    let toks = split_ws(line);
    match find_percent(&toks) {
        None => None,
        Some(p) => {
            let speed = find_speed(&toks);
            let eta = find_eta(&toks);
            Some(ProgressSnapshot { percent: p, speed, eta })
        },
    }
}

/// A line without the download marker and without a percent sign is not a
/// progress line: no snapshot comes from it.
pub proof fn lemma_unmarked_line_yields_none(line: Seq<char>)
    requires
        !contains_seq(line, "[download]"@),
        !contains_seq(line, "%"@),
    ensures
        progress_of(line) is None,
{
}

} // verus!
