//! The play-information structures of one page, extraction of the embedded
//! play-info document out of page text, bandwidth-ranked stream selection,
//! and remote-filename extraction.

use vstd::prelude::*;

use crate::errors::DlError;
use crate::text::{
    first_occurrence, first_occurrence_from, lemma_first_occurrence_from, lemma_occurs_first,
    occurs, occurs_at, find_sub, find_sub_from,
};
use crate::urlpath::{parsed_url_path, url_path};

verus! {

/// The byte-range descriptor of a representation's init segment.
#[derive(Debug, PartialEq, Eq)]
pub struct SegmentBase {
    pub initialization: String,
    pub index_range: String,
}

/// One encoded alternative of a track: its URLs, declared bandwidth, codec
/// and container tags, and dimensions.
#[derive(Debug, PartialEq, Eq)]
pub struct MediaInfo {
    pub id: i32,
    pub base_url: String,
    pub backup_url: Vec<String>,
    pub bandwidth: i32,
    pub codecs: String,
    pub mime_type: String,
    pub width: i32,
    pub height: i32,
    pub segment_base: SegmentBase,
}

/// The Dolby-tagged audio alternatives of a page, when it has any.
#[derive(Debug, PartialEq, Eq)]
pub struct Dolby {
    pub type_: i32,
    pub audio: Option<Vec<MediaInfo>>,
}

/// The lossless audio alternative of a page, when it has one.
#[derive(Debug, PartialEq, Eq)]
pub struct Flac {
    pub display: bool,
    pub audio: Option<MediaInfo>,
}

/// The track alternatives of one page: the video ladder and up to three
/// audio sources.
#[derive(Debug, PartialEq, Eq)]
pub struct Dash {
    pub audio: Vec<MediaInfo>,
    pub video: Vec<MediaInfo>,
    pub dolby: Dolby,
    pub flac: Option<Flac>,
}

/// The decoded per-page media description.
#[derive(Debug, PartialEq, Eq)]
pub struct PlayInfo {
    pub accept_description: Vec<String>,
    pub accept_format: String,
    pub dash: Dash,
}

/// A deep copy of a vector of strings.
fn clone_string_vec(v: &Vec<String>) -> (r: Vec<String>)
    ensures
        r@ == v@,
{
    let r = v.clone();
    proof {
        assert forall|i: int| 0 <= i < v@.len() implies r@[i] == v@[i] by {
            assert(vstd::pervasive::cloned::<String>(v@[i], r@[i]));
        }
        assert(r@ =~= v@);
    }
    r
}

impl SegmentBase {
    /// A copy equal to the original.
    pub fn dup(&self) -> (r: SegmentBase)
        ensures
            r == *self,
    {
        SegmentBase {
            initialization: self.initialization.clone(),
            index_range: self.index_range.clone(),
        }
    }
}

/// `a` carries the same representation as `b`: every field agrees, the
/// backup list element by element.
pub open spec fn media_eq(a: MediaInfo, b: MediaInfo) -> bool {
    &&& a.id == b.id
    &&& a.base_url == b.base_url
    &&& a.backup_url@ == b.backup_url@
    &&& a.bandwidth == b.bandwidth
    &&& a.codecs == b.codecs
    &&& a.mime_type == b.mime_type
    &&& a.width == b.width
    &&& a.height == b.height
    &&& a.segment_base == b.segment_base
}

impl MediaInfo {
    /// A copy carrying the same representation as the original.
    pub fn dup(&self) -> (r: MediaInfo)
        ensures
            media_eq(r, *self),
    {
        MediaInfo {
            id: self.id,
            base_url: self.base_url.clone(),
            backup_url: clone_string_vec(&self.backup_url),
            bandwidth: self.bandwidth,
            codecs: self.codecs.clone(),
            mime_type: self.mime_type.clone(),
            width: self.width,
            height: self.height,
            segment_base: self.segment_base.dup(),
        }
    }
}

/// Position `k` holds the stable maximum of `pool` by bandwidth: nothing is
/// larger, and everything before it is strictly smaller.
pub open spec fn first_max_at(pool: Seq<MediaInfo>, k: int) -> bool {
    &&& 0 <= k < pool.len()
    &&& forall|j: int| 0 <= j < pool.len() ==> (#[trigger] pool[j]).bandwidth <= pool[k].bandwidth
    &&& forall|j: int| 0 <= j < k ==> (#[trigger] pool[j]).bandwidth < pool[k].bandwidth
}

/// Two positions that both hold the stable maximum are the same position:
/// the selection rule is deterministic.
pub proof fn lemma_first_max_unique(pool: Seq<MediaInfo>, k1: int, k2: int)
    requires
        first_max_at(pool, k1),
        first_max_at(pool, k2),
    ensures
        k1 == k2,
{
    if k1 < k2 {
        assert(pool[k1].bandwidth < pool[k2].bandwidth);
        assert(pool[k2].bandwidth <= pool[k1].bandwidth);
    }
    if k2 < k1 {
        assert(pool[k2].bandwidth < pool[k1].bandwidth);
        assert(pool[k1].bandwidth <= pool[k2].bandwidth);
    }
}

/// Law: selection is a pure function of bandwidth. Two pools that agree on
/// every declared bandwidth put the stable maximum at the same position,
/// whatever else their representations hold.
pub proof fn lemma_selection_by_bandwidth_alone(p1: Seq<MediaInfo>, p2: Seq<MediaInfo>, k: int)
    requires
        p1.len() == p2.len(),
        forall|j: int| 0 <= j < p1.len() ==> (#[trigger] p1[j]).bandwidth == (#[trigger]
        p2[j]).bandwidth,
        first_max_at(p1, k),
    ensures
        first_max_at(p2, k),
{
    assert forall|j: int| 0 <= j < p2.len() implies (#[trigger] p2[j]).bandwidth
        <= p2[k].bandwidth by {
        assert(p1[j].bandwidth <= p1[k].bandwidth);
    }
    assert forall|j: int| 0 <= j < k implies (#[trigger] p2[j]).bandwidth < p2[k].bandwidth by {
        assert(p1[j].bandwidth < p1[k].bandwidth);
    }
}

/// Picks the video representation with the greatest declared bandwidth;
/// ties go to the first-encountered one. Fails exactly on an empty ladder.
pub fn choose_video_stream(video_data: &Vec<MediaInfo>) -> (r: Option<MediaInfo>)
    ensures
        r is Some <==> video_data@.len() > 0,
        r matches Some(m) ==> exists|k: int| #[trigger]
            first_max_at(video_data@, k) && media_eq(m, video_data@[k]),
{
    let n = video_data.len();
    if n == 0 {
        return None;
    }
    let mut best: usize = 0;
    let mut i: usize = 1;
    while i < n
        invariant
            n == video_data@.len(),
            0 <= best < i <= n,
            forall|j: int| 0 <= j < i ==> (#[trigger] video_data@[j]).bandwidth
                <= video_data@[best as int].bandwidth,
            forall|j: int| 0 <= j < best ==> (#[trigger] video_data@[j]).bandwidth
                < video_data@[best as int].bandwidth,
        decreases n - i,
    {
        if video_data[i].bandwidth > video_data[best].bandwidth {
            best = i;
        }
        i = i + 1;
    }
    proof {
        assert(first_max_at(video_data@, best as int));
    }
    Some(video_data[best].dup())
}

/// The flat audio candidate pool of a page: the normal list, then the
/// Dolby list if present, then the lossless singleton if present (its
/// display flag is not consulted).
pub open spec fn audio_pool(d: Dash) -> Seq<MediaInfo> {
    d.audio@ + (match d.dolby.audio {
        Some(v) => v@,
        None => Seq::<MediaInfo>::empty(),
    }) + (match d.flac {
        Some(f) => match f.audio {
            Some(a) => seq![a],
            None => Seq::<MediaInfo>::empty(),
        },
        None => Seq::<MediaInfo>::empty(),
    })
}

/// How many audio candidates the page pools.
fn audio_pool_len(d: &Dash) -> (r: usize)
    requires
        audio_pool(*d).len() <= usize::MAX,
    ensures
        r == audio_pool(*d).len(),
{
    let mut n = d.audio.len();
    match &d.dolby.audio {
        Some(v) => {
            n = n + v.len();
        },
        None => {},
    }
    match &d.flac {
        Some(f) => {
            match &f.audio {
                Some(_) => {
                    n = n + 1;
                },
                None => {},
            }
        },
        None => {},
    }
    n
}

/// The audio candidate at pool position `j`.
fn audio_pool_at<'a>(d: &'a Dash, j: usize) -> (r: &'a MediaInfo)
    requires
        j < audio_pool(*d).len(),
        audio_pool(*d).len() <= usize::MAX,
    ensures
        *r == audio_pool(*d)[j as int],
{
    let a_len = d.audio.len();
    if j < a_len {
        return &d.audio[j];
    }
    let dolby_len: usize = match &d.dolby.audio {
        Some(v) => v.len(),
        None => 0,
    };
    if j < a_len + dolby_len {
        match &d.dolby.audio {
            Some(v) => {
                return &v[j - a_len];
            },
            None => {
                return vstd::pervasive::unreached();
            },
        }
    }
    match &d.flac {
        Some(f) => {
            match &f.audio {
                Some(a) => a,
                None => vstd::pervasive::unreached(),
            }
        },
        None => vstd::pervasive::unreached(),
    }
}

/// Picks the audio representation with the greatest declared bandwidth out
/// of the pooled candidates; ties go to the first-encountered one in pool
/// order. Fails exactly on an empty pool.
pub fn choose_audio_stream(play_info: &PlayInfo) -> (r: Option<MediaInfo>)
    requires
        audio_pool(play_info.dash).len() <= usize::MAX,
    ensures
        r is Some <==> audio_pool(play_info.dash).len() > 0,
        r matches Some(m) ==> exists|k: int| #[trigger]
            first_max_at(audio_pool(play_info.dash), k) && media_eq(
                m,
                audio_pool(play_info.dash)[k],
            ),
{
    let ghost pool = audio_pool(play_info.dash);
    let n = audio_pool_len(&play_info.dash);
    if n == 0 {
        return None;
    }
    let mut best: usize = 0;
    let mut i: usize = 1;
    while i < n
        invariant
            pool == audio_pool(play_info.dash),
            n == pool.len(),
            0 <= best < i <= n,
            forall|j: int| 0 <= j < i ==> (#[trigger] pool[j]).bandwidth
                <= pool[best as int].bandwidth,
            forall|j: int| 0 <= j < best ==> (#[trigger] pool[j]).bandwidth
                < pool[best as int].bandwidth,
        decreases n - i,
    {
        let cand = audio_pool_at(&play_info.dash, i);
        let cur = audio_pool_at(&play_info.dash, best);
        if cand.bandwidth > cur.bandwidth {
            best = i;
        }
        i = i + 1;
    }
    proof {
        assert(first_max_at(pool, best as int));
    }
    Some(audio_pool_at(&play_info.dash, best).dup())
}

/// Picks the video and audio representation of one page in one step, as a
/// task's stream resolution does. Fails exactly when either candidate pool
/// is empty, and that failure is the selection error of the taxonomy.
pub fn choose_streams(play_info: &PlayInfo) -> (r: Result<(MediaInfo, MediaInfo), DlError>)
    requires
        audio_pool(play_info.dash).len() <= usize::MAX,
    ensures
        r is Ok <==> audio_pool(play_info.dash).len() > 0 && play_info.dash.video@.len() > 0,
        r matches Ok(p) ==> (exists|k: int| #[trigger]
            first_max_at(play_info.dash.video@, k) && media_eq(p.0, play_info.dash.video@[k]))
            && (exists|k: int| #[trigger]
            first_max_at(audio_pool(play_info.dash), k) && media_eq(
                p.1,
                audio_pool(play_info.dash)[k],
            )),
        r is Err ==> r == Err::<(MediaInfo, MediaInfo), DlError>(DlError::StreamSelection),
{
    let audio = match choose_audio_stream(play_info) {
        Some(a) => a,
        None => {
            return Err(DlError::StreamSelection);
        },
    };
    let video = match choose_video_stream(&play_info.dash.video) {
        Some(v) => v,
        None => {
            return Err(DlError::StreamSelection);
        },
    };
    Ok((video, audio))
}

/// The two conventions under which a page embeds its play-info document.
#[derive(Debug, Clone, Copy, PartialEq, Eq, Structural)]
pub enum Convention {
    /// An inline script assigning the document to a page global.
    WindowPlayinfo,
    /// A server-side-rendered constant holding the document.
    PlayurlSsr,
}

/// The text that opens an embedded play-info document.
pub open spec fn start_marker(c: Convention) -> Seq<char> {
    match c {
        Convention::WindowPlayinfo => "<script>window.__playinfo__="@,
        Convention::PlayurlSsr => "const playurlSSRData = "@,
    }
}

/// The text that closes an embedded play-info document.
pub open spec fn end_marker(c: Convention) -> Seq<char> {
    match c {
        Convention::WindowPlayinfo => "</script>"@,
        Convention::PlayurlSsr => "if"@,
    }
}

fn start_marker_str(c: Convention) -> (r: &'static str)
    ensures
        r@ == start_marker(c),
{
    match c {
        Convention::WindowPlayinfo => "<script>window.__playinfo__=",
        Convention::PlayurlSsr => "const playurlSSRData = ",
    }
}

fn end_marker_str(c: Convention) -> (r: &'static str)
    ensures
        r@ == end_marker(c),
{
    match c {
        Convention::WindowPlayinfo => "</script>",
        Convention::PlayurlSsr => "if",
    }
}

/// The convention a page is read under: the first convention, in fixed
/// order, whose start marker occurs anywhere in the page.
pub open spec fn chosen_convention(body: Seq<char>) -> Option<Convention> {
    if occurs(body, start_marker(Convention::WindowPlayinfo)) {
        Some(Convention::WindowPlayinfo)
    } else if occurs(body, start_marker(Convention::PlayurlSsr)) {
        Some(Convention::PlayurlSsr)
    } else {
        None
    }
}

/// Finds the convention a page embeds its play info under, and where that
/// convention's start marker first occurs.
pub fn find_start_token(body: &str) -> (r: Option<(Convention, usize)>)
    ensures
        r is Some <==> chosen_convention(body@) is Some,
        r matches Some(ci) ==> Some(ci.0) == chosen_convention(body@) && Some(ci.1 as int)
            == first_occurrence(body@, start_marker(ci.0)),
{
    proof {
        lemma_occurs_first(body@, start_marker(Convention::WindowPlayinfo));
        lemma_occurs_first(body@, start_marker(Convention::PlayurlSsr));
    }
    match find_sub(body, start_marker_str(Convention::WindowPlayinfo)) {
        Some(i) => Some((Convention::WindowPlayinfo, i)),
        None => {
            match find_sub(body, start_marker_str(Convention::PlayurlSsr)) {
                Some(i) => Some((Convention::PlayurlSsr, i)),
                None => None,
            }
        },
    }
}

/// The play-info document a page embeds: the text strictly between the end
/// of the chosen convention's first start marker and the next occurrence of
/// that convention's end marker, when both exist.
pub open spec fn play_slice(body: Seq<char>) -> Option<(Convention, Seq<char>)> {
    match chosen_convention(body) {
        Option::None => None,
        Option::Some(c) => {
            let start = first_occurrence(body, start_marker(c))->0 + start_marker(c).len();
            match first_occurrence_from(body, end_marker(c), start) {
                Option::None => None,
                Option::Some(e) => Some((c, body.subrange(start, e))),
            }
        },
    }
}

/// Slices the embedded play-info document out of a page. Fails exactly when
/// no start marker is found, or no matching end marker follows it.
pub fn extract_play_info(body: &str) -> (r: Result<(Convention, String), DlError>)
    ensures
        r is Ok <==> play_slice(body@) is Some,
        r matches Ok(p) ==> Some((p.0, p.1@)) == play_slice(body@),
        r is Err ==> r == Err::<(Convention, String), DlError>(DlError::Extraction),
{
    let _blen = body.unicode_len();
    let (conv, idx) = match find_start_token(body) {
        Some(ci) => ci,
        None => {
            return Err(DlError::Extraction);
        },
    };
    let m = start_marker_str(conv);
    proof {
        lemma_first_occurrence_from(body@, start_marker(conv), 0);
    }
    let start = idx + m.unicode_len();
    let e = match find_sub_from(body, end_marker_str(conv), start) {
        Some(e) => e,
        None => {
            return Err(DlError::Extraction);
        },
    };
    proof {
        lemma_first_occurrence_from(body@, end_marker(conv), start as int);
    }
    let slice = body.substring_char(start, e).to_owned();
    Ok((conv, slice))
}

/// Law: extraction round-trips over embedding. A page made of anything,
/// then a convention's start marker, then a document, then that
/// convention's end marker, then anything, yields exactly that document
/// under that convention — as long as the embedding is clean: the start
/// marker is first found where it was put, the first convention's marker is
/// absent when the second convention is used, and no end marker occurs in
/// the document or straddles its right edge.
pub proof fn lemma_extract_embed_roundtrip(
    pre: Seq<char>,
    doc: Seq<char>,
    post: Seq<char>,
    c: Convention,
)
    requires
        first_occurrence(pre + start_marker(c) + doc + end_marker(c) + post, start_marker(c))
            == Some(pre.len() as int),
        c is PlayurlSsr ==> !occurs(
            pre + start_marker(c) + doc + end_marker(c) + post,
            start_marker(Convention::WindowPlayinfo),
        ),
        forall|j: int| 0 <= j < doc.len() ==> !occurs_at(
            doc + end_marker(c),
            end_marker(c),
            j,
        ),
    ensures
        play_slice(pre + start_marker(c) + doc + end_marker(c) + post) == Some((c, doc)),
{
    let body = pre + start_marker(c) + doc + end_marker(c) + post;
    let m = start_marker(c);
    let e = end_marker(c);
    let start = pre.len() + m.len();
    let eidx = start + doc.len();

    lemma_occurs_first(body, m);
    assert(occurs(body, m));
    assert(chosen_convention(body) == Some(c));

    assert forall|y: int| 0 <= y < doc.len() + e.len() implies body[start + y] == (doc + e)[y] by {}

    assert(occurs_at(body, e, eidx as int)) by {
        assert forall|x: int| 0 <= x < e.len() implies body.subrange(
            eidx as int,
            eidx + e.len() as int,
        )[x] == e[x] by {
            assert(body[eidx + x] == (doc + e)[doc.len() + x]);
        }
        assert(body.subrange(eidx as int, eidx + e.len() as int) =~= e);
    }

    lemma_first_occurrence_from(body, e, start as int);
    let fo = first_occurrence_from(body, e, start as int);
    if fo is None {
        assert(!occurs_at(body, e, eidx as int));
        assert(false);
    }
    let i = fo->0;
    if i < eidx {
        assert(occurs_at(doc + e, e, i - start)) by {
            assert forall|x: int| 0 <= x < e.len() implies (doc + e).subrange(
                i - start,
                i - start + e.len() as int,
            )[x] == e[x] by {
                assert((doc + e)[i - start + x] == body[i + x]);
                assert(body.subrange(i, i + e.len() as int)[x] == e[x]);
            }
            assert((doc + e).subrange(i - start, i - start + e.len() as int) =~= e);
        }
        assert(!occurs_at(doc + e, e, i - start));
        assert(false);
    }
    if i > eidx {
        assert(!occurs_at(body, e, eidx as int));
        assert(false);
    }
    assert(i == eidx);

    assert(body.subrange(start as int, eidx as int) =~= doc) by {
        assert forall|x: int| 0 <= x < doc.len() implies body.subrange(
            start as int,
            eidx as int,
        )[x] == doc[x] by {
            assert(body[start + x] == (doc + e)[x]);
        }
    }
}

/// Where the last path segment of `p` begins: just after the last slash,
/// or at the start when there is none.
pub open spec fn last_seg_start(p: Seq<char>) -> int
    decreases p.len(),
{
    if p.len() == 0 {
        0
    } else if p.last() == '/' {
        p.len() as int
    } else {
        last_seg_start(p.drop_last())
    }
}

/// Where the last dot of `seg` stands, if any.
pub open spec fn last_dot(seg: Seq<char>) -> Option<int>
    decreases seg.len(),
{
    if seg.len() == 0 {
        None
    } else if seg.last() == '.' {
        Some(seg.len() - 1)
    } else {
        last_dot(seg.drop_last())
    }
}

/// A segment names a usable file: it has a dot with a non-empty stem
/// before it and a non-empty extension after it.
pub open spec fn usable_filename(seg: Seq<char>) -> bool {
    match last_dot(seg) {
        Some(d) => 0 < d < seg.len() - 1,
        None => false,
    }
}

/// The filename a path yields: its last segment when that names a usable
/// file, the fallback stem otherwise.
pub open spec fn filename_of(p: Seq<char>, default: Seq<char>) -> Seq<char> {
    let seg = p.subrange(last_seg_start(p), p.len() as int);
    if usable_filename(seg) {
        seg
    } else {
        default
    }
}

proof fn lemma_last_seg_start_bound(p: Seq<char>)
    ensures
        0 <= last_seg_start(p) <= p.len(),
    decreases p.len(),
{
    if p.len() > 0 && p.last() != '/' {
        lemma_last_seg_start_bound(p.drop_last());
    }
}

/// A found dot stands inside the segment.
pub proof fn lemma_last_dot_bound(seg: Seq<char>)
    ensures
        last_dot(seg) matches Some(d) ==> 0 <= d < seg.len(),
    decreases seg.len(),
{
    if seg.len() > 0 && seg.last() != '.' {
        lemma_last_dot_bound(seg.drop_last());
    }
}

/// Finds where the last path segment of `p` begins.
fn last_seg_start_exec(p: &str) -> (r: usize)
    ensures
        r == last_seg_start(p@),
{
    let len = p.unicode_len();
    proof {
        assert(p@.subrange(0, len as int) =~= p@);
    }
    let mut e: usize = len;
    while e > 0 && p.get_char(e - 1) != '/'
        invariant
            len == p@.len(),
            0 <= e <= len,
            last_seg_start(p@) == last_seg_start(p@.subrange(0, e as int)),
        decreases e,
    {
        proof {
            let sub = p@.subrange(0, e as int);
            assert(sub.last() == p@[e - 1]);
            assert(sub.drop_last() =~= p@.subrange(0, e - 1));
        }
        e = e - 1;
    }
    proof {
        assert(p@.subrange(0, len as int) =~= p@);
        let sub = p@.subrange(0, e as int);
        if e == 0 {
            assert(last_seg_start(sub) == 0);
        } else {
            assert(sub.last() == p@[e - 1]);
            assert(last_seg_start(sub) == e);
        }
    }
    e
}

/// Finds where the last dot of `seg` stands, if anywhere.
pub(crate) fn last_dot_exec(seg: &str) -> (r: Option<usize>)
    ensures
        match r {
            Some(d) => last_dot(seg@) == Some(d as int),
            None => last_dot(seg@) is None,
        },
{
    let len = seg.unicode_len();
    proof {
        assert(seg@.subrange(0, len as int) =~= seg@);
    }
    let mut e: usize = len;
    while e > 0 && seg.get_char(e - 1) != '.'
        invariant
            len == seg@.len(),
            0 <= e <= len,
            last_dot(seg@) == last_dot(seg@.subrange(0, e as int)),
        decreases e,
    {
        proof {
            let sub = seg@.subrange(0, e as int);
            assert(sub.last() == seg@[e - 1]);
            assert(sub.drop_last() =~= seg@.subrange(0, e - 1));
        }
        e = e - 1;
    }
    proof {
        assert(seg@.subrange(0, len as int) =~= seg@);
        let sub = seg@.subrange(0, e as int);
        if e > 0 {
            assert(sub.last() == seg@[e - 1]);
        }
    }
    if e == 0 {
        None
    } else {
        Some(e - 1)
    }
}

/// The filename of the last segment of path `p`, or `default` when the
/// segment names no usable file.
fn filename_from_path(p: &str, default: &str) -> (r: String)
    ensures
        r@ == filename_of(p@, default@),
{
    proof {
        lemma_last_seg_start_bound(p@);
    }
    let len = p.unicode_len();
    let seg_start = last_seg_start_exec(p);
    let seg = p.substring_char(seg_start, len);
    let usable = match last_dot_exec(seg) {
        Some(d) => {
            proof {
                lemma_last_dot_bound(seg@);
            }
            let seg_len = seg.unicode_len();
            0 < d && d < seg_len - 1
        },
        None => false,
    };
    if usable {
        seg.to_owned()
    } else {
        default.to_owned()
    }
}

/// The local filename derived from a remote URL: the last path segment when
/// it names a usable file, `default` when it does not or the URL itself
/// does not parse.
pub fn extract_filename(url: &str, default: &str) -> (r: String)
    ensures
        r@ == (match parsed_url_path(url@) {
            Option::Some(p) => filename_of(p, default@),
            Option::None => default@,
        }),
{
    match url_path(url) {
        Some(p) => filename_from_path(p.as_str(), default),
        None => default.to_owned(),
    }
}

} // verus!
