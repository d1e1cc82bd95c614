//! Page-level helpers: telling series URLs from single-video URLs, reading
//! the video code out of a video URL, the login indicator, and the task a
//! single video yields.

use vstd::prelude::*;

use crate::download::{Ordinal, Task};
use crate::text::{contains_sub, lemma_first_occurrence_from, occurs, occurs_at, find_sub_from};
use crate::urlpath::{norm_path, normalize_path, parsed_url_path, url_path};

verus! {

/// Platform-reported metadata of one standalone video.
#[derive(Debug, PartialEq, Eq)]
pub struct VideoInfo {
    pub state: i32,
    pub bvid: String,
    pub title: String,
    pub desc: String,
    pub duration: i32,
}

/// What kind of page a URL names.
#[derive(Debug, Clone, Copy, PartialEq, Eq, Structural)]
pub enum VideoType {
    Bangumi,
    Video,
}

/// Classifies a URL: a series page exactly when the URL mentions the
/// series-section name anywhere.
pub fn process_url(url: &str) -> (t: VideoType)
    ensures
        t is Bangumi <==> occurs(url@, "bangumi"@),
{
    if contains_sub(url, "bangumi") {
        VideoType::Bangumi
    } else {
        VideoType::Video
    }
}

/// Whether a page body carries the platform's logged-in indicator.
pub fn has_login_indicator(body: &str) -> (r: bool)
    ensures
        r == occurs(body@, "\"isLogin\":true"@),
{
    contains_sub(body, "\"isLogin\":true")
}

/// The single task a standalone video yields: its page URL and the
/// platform-reported title.
pub fn video_task_list(url: &str, info: &VideoInfo) -> (r: Vec<Task>)
    ensures
        r@.len() == 1,
        r@[0].link@ == url@,
        r@[0].title == info.title,
        r@[0].id == Ordinal::Num(1),
        r@[0].input_path is None,
{
    let t = Task::new(url.to_owned(), info.title.clone(), Ordinal::Num(1));
    let mut v: Vec<Task> = Vec::new();
    v.push(t);
    v
}

/// `c` counts as whitespace for the video-code scan.
pub open spec fn is_space(c: char) -> bool {
    c == ' ' || c == '\t' || c == '\n' || c == '\r' || c == '\u{000B}' || c == '\u{000C}'
}

/// The end of the run of non-whitespace characters that starts at `k`.
pub open spec fn nonspace_run_end(p: Seq<char>, k: int) -> int
    decreases p.len() - k,
{
    if k < 0 || k >= p.len() {
        k
    } else if !is_space(p[k]) {
        nonspace_run_end(p, k + 1)
    } else {
        k
    }
}

/// The last slash strictly between `k` and `m` in `p`, if any.
pub open spec fn last_slash_in(p: Seq<char>, k: int, m: int) -> Option<int>
    decreases m - k,
{
    if m <= k + 1 || m > p.len() {
        None
    } else if p[m - 1] == '/' {
        Some(m - 1)
    } else {
        last_slash_in(p, k, m - 1)
    }
}

/// A video code stands at position `i` of `p`: the code tag, then at least
/// one non-whitespace character, then a slash within the same run. The code
/// is taken greedily, up to the last such slash.
pub open spec fn bv_match_at(p: Seq<char>, i: int) -> bool {
    occurs_at(p, "/BV"@, i) && last_slash_in(p, i + "/BV"@.len(), nonspace_run_end(
        p,
        i + "/BV"@.len(),
    )) is Some
}

/// The video code standing at position `i` of `p`.
pub open spec fn bv_capture(p: Seq<char>, i: int) -> Seq<char> {
    p.subrange(
        i + "/BV"@.len(),
        last_slash_in(p, i + "/BV"@.len(), nonspace_run_end(p, i + "/BV"@.len()))->0,
    )
}

/// The position of the leftmost video code at or after `from`, if any.
pub open spec fn first_bv_match_from(p: Seq<char>, from: int) -> Option<int>
    decreases p.len() - from,
{
    if from < 0 || from + 3 > p.len() {
        None
    } else if bv_match_at(p, from) {
        Some(from)
    } else {
        first_bv_match_from(p, from + 1)
    }
}

/// The position of the leftmost video code in `p`, if any.
pub open spec fn first_bv_match(p: Seq<char>) -> Option<int> {
    first_bv_match_from(p, 0)
}

/// The video code a URL carries: the leftmost code in its normalized path,
/// or nothing when the URL does not parse or its path holds no code.
pub open spec fn spec_bv_code(url: Seq<char>) -> Option<Seq<char>> {
    match parsed_url_path(url) {
        Option::None => None,
        Option::Some(p0) => {
            let p = norm_path(p0);
            match first_bv_match(p) {
                Option::Some(i) => Some(bv_capture(p, i)),
                Option::None => None,
            }
        },
    }
}

proof fn lemma_first_bv_match_from(p: Seq<char>, from: int)
    requires
        0 <= from,
    ensures
        match first_bv_match_from(p, from) {
            Some(i) => from <= i && bv_match_at(p, i) && forall|j: int|
                from <= j < i ==> !bv_match_at(p, j),
            None => forall|j: int| from <= j ==> !bv_match_at(p, j),
        },
    decreases p.len() - from,
{
    reveal_strlit("/BV");
    if from + 3 > p.len() {
        assert forall|j: int| from <= j implies !bv_match_at(p, j) by {}
    } else if bv_match_at(p, from) {
    } else {
        lemma_first_bv_match_from(p, from + 1);
    }
}

/// Whether position `j` of `p` holds a non-whitespace character.
fn at_nonspace(p: &str, j: usize, len: usize) -> (r: bool)
    requires
        len == p@.len(),
        j <= len,
    ensures
        r == (j < len && !is_space(p@[j as int])),
{
    if j < len {
        let c = p.get_char(j);
        !(c == ' ' || c == '\t' || c == '\n' || c == '\r' || c == '\u{000B}' || c == '\u{000C}')
    } else {
        false
    }
}

/// Finds where the non-whitespace run beginning at `k` ends.
fn scan_nonspace_run(p: &str, k: usize) -> (r: usize)
    requires
        k <= p@.len(),
        p@.len() <= usize::MAX,
    ensures
        r == nonspace_run_end(p@, k as int),
        k <= r <= p@.len(),
{
    let len = p.unicode_len();
    let mut j: usize = k;
    while at_nonspace(p, j, len)
        invariant
            len == p@.len(),
            k <= j <= len,
            nonspace_run_end(p@, k as int) == nonspace_run_end(p@, j as int),
        decreases len - j,
    {
        j = j + 1;
    }
    j
}

/// Finds the last slash strictly between `k` and `m`, if any.
fn scan_last_slash(p: &str, k: usize, m: usize) -> (r: Option<usize>)
    requires
        m <= p@.len(),
        p@.len() <= usize::MAX,
    ensures
        match r {
            Some(j) => last_slash_in(p@, k as int, m as int) == Some(j as int) && k < j && j < m,
            None => last_slash_in(p@, k as int, m as int) is None,
        },
{
    let mut j: usize = m;
    while j > 0 && j - 1 > k
        invariant
            m <= p@.len(),
            0 <= j <= m,
            last_slash_in(p@, k as int, m as int) == last_slash_in(p@, k as int, j as int),
        decreases j,
    {
        if p.get_char(j - 1) == '/' {
            return Some(j - 1);
        }
        j = j - 1;
    }
    None
}

/// The leftmost video code in `p`, if any.
fn find_bv(p: &str) -> (r: Option<String>)
    ensures
        r is Some <==> first_bv_match(p@) is Some,
        r matches Some(d) ==> d@ == bv_capture(p@, first_bv_match(p@)->0),
{
    proof {
        reveal_strlit("/BV");
    }
    let p_len = p.unicode_len();
    let mut from: usize = 0;
    loop
        invariant
            p_len == p@.len(),
            "/BV"@.len() == 3,
            0 <= from <= p_len + 1,
            forall|j: int| 0 <= j < from ==> !bv_match_at(p@, j),
        decreases p_len + 1 - from,
    {
        proof {
            lemma_first_bv_match_from(p@, 0);
        }
        let occ = match find_sub_from(p, "/BV", from) {
            Some(o) => o,
            None => {
                proof {
                    lemma_first_occurrence_from(p@, "/BV"@, from as int);
                    let fi = first_bv_match(p@);
                    if fi is Some {
                        assert(bv_match_at(p@, fi->0));
                        assert(occurs_at(p@, "/BV"@, fi->0));
                    }
                }
                return None;
            },
        };
        proof {
            lemma_first_occurrence_from(p@, "/BV"@, from as int);
            assert(occurs_at(p@, "/BV"@, occ as int));
            assert forall|j: int| 0 <= j < occ implies !bv_match_at(p@, j) by {
                if j >= from {
                    assert(!occurs_at(p@, "/BV"@, j));
                }
            }
        }
        let k = occ + 3;
        let m = scan_nonspace_run(p, k);
        match scan_last_slash(p, k, m) {
            Some(j) => {
                proof {
                    assert(bv_match_at(p@, occ as int));
                    let fi = first_bv_match(p@);
                    assert(fi is Some);
                    let w = fi->0;
                    assert(!(w < occ) && !(w > occ));
                }
                return Some(p.substring_char(k, j).to_owned());
            },
            None => {
                proof {
                    assert(!bv_match_at(p@, occ as int));
                }
            },
        }
        from = occ + 1;
    }
}

/// The video code of a standalone-video URL, read greedily from the
/// normalized URL path.
pub fn parse_bv_code(url: &str) -> (r: Option<String>)
    ensures
        r is Some <==> spec_bv_code(url@) is Some,
        r matches Some(d) ==> Some(d@) == spec_bv_code(url@),
{
    let path = match url_path(url) {
        Some(p) => p,
        None => {
            return None;
        },
    };
    let p = normalize_path(path.as_str());
    find_bv(p.as_str())
}

} // verus!
