//! Series resolution: mapping a series URL to a platform identifier, and a
//! fetched series description to the ordered list of download tasks.

use vstd::prelude::*;

use crate::download::{Ordinal, Task};
use crate::errors::DlError;
use crate::text::{digits_val, pad2, parse_i32, parsed_i32, parses_as_i32, parse_digits_i64};
use crate::urlpath::{
    first_id_match, id_capture, id_match_at, find_id, lemma_digit_run_end,
    lemma_first_id_match_from, norm_path, normalize_path, parsed_url_path, url_path,
};

verus! {

/// A platform identifier parsed out of a URL: a media id, a season id, or a
/// single episode id.
#[derive(Debug, PartialEq, Eq)]
pub enum BangumiID {
    MediaID(i64),
    SeasonID(i64),
    EpisodeID(i64),
}

/// One platform-reported episode record.
#[derive(Debug, PartialEq, Eq)]
pub struct Episode {
    pub ep_id: i64,
    pub long_title: String,
    pub link: String,
    pub ep_num: String,
    pub badge_type: i32,
    pub status: i32,
}

/// A platform-reported series description: its title, ids, and the ordered
/// episode records.
#[derive(Debug, PartialEq, Eq)]
pub struct BangumiInfo {
    pub title: String,
    pub link: String,
    pub season_id: i64,
    pub media_id: i64,
    pub episodes: Vec<Episode>,
    pub season_title: String,
    pub total: i32,
}

/// The identifier a series URL resolves to. The URL's path, with trailing
/// slashes normalized, is scanned for the media-id shape first, then the
/// season-id shape, then the episode-id shape; the first shape found wins.
/// An unparsable URL, a path with none of the shapes, and an identifier
/// beyond the platform's numeric range all fail the resolution.
pub open spec fn spec_bangumi_id(url: Seq<char>) -> Result<BangumiID, DlError> {
    match parsed_url_path(url) {
        Option::None => Err(DlError::IdentifierParse),
        Option::Some(p0) => {
            let p = norm_path(p0);
            if first_id_match(p, "/md"@) is Some {
                let d = id_capture(p, "/md"@, first_id_match(p, "/md"@)->0);
                if digits_val(d) <= i64::MAX {
                    Ok(BangumiID::MediaID(digits_val(d) as i64))
                } else {
                    Err(DlError::IdentifierParse)
                }
            } else if first_id_match(p, "/ss"@) is Some {
                let d = id_capture(p, "/ss"@, first_id_match(p, "/ss"@)->0);
                if digits_val(d) <= i64::MAX {
                    Ok(BangumiID::SeasonID(digits_val(d) as i64))
                } else {
                    Err(DlError::IdentifierParse)
                }
            } else if first_id_match(p, "/ep"@) is Some {
                let d = id_capture(p, "/ep"@, first_id_match(p, "/ep"@)->0);
                if digits_val(d) <= i64::MAX {
                    Ok(BangumiID::EpisodeID(digits_val(d) as i64))
                } else {
                    Err(DlError::IdentifierParse)
                }
            } else {
                Err(DlError::IdentifierParse)
            }
        },
    }
}

/// Law: identifier-shape precedence is media, then season, then episode.
/// Whenever the normalized path holds a media-id shape, resolution never
/// yields a season or episode identifier, however many shapes occur; a
/// season-id shape wins over an episode-id shape the same way, and with no
/// shape at all the resolution fails.
pub proof fn lemma_identifier_precedence(url: Seq<char>)
    requires
        parsed_url_path(url) is Some,
    ensures
        ({
            let p = norm_path(parsed_url_path(url)->0);
            let r = spec_bangumi_id(url);
            &&& first_id_match(p, "/md"@) is Some ==> (r == Err::<BangumiID, DlError>(
                DlError::IdentifierParse,
            ) || (r matches Ok(id) && id is MediaID))
            &&& (first_id_match(p, "/md"@) is None && first_id_match(p, "/ss"@) is Some) ==> (r
                == Err::<BangumiID, DlError>(DlError::IdentifierParse) || (r matches Ok(id)
                && id is SeasonID))
            &&& (first_id_match(p, "/md"@) is None && first_id_match(p, "/ss"@) is None
                && first_id_match(p, "/ep"@) is Some) ==> (r == Err::<BangumiID, DlError>(
                DlError::IdentifierParse,
            ) || (r matches Ok(id) && id is EpisodeID))
            &&& (first_id_match(p, "/md"@) is None && first_id_match(p, "/ss"@) is None
                && first_id_match(p, "/ep"@) is None) ==> r == Err::<BangumiID, DlError>(
                DlError::IdentifierParse,
            )
        }),
{
}

/// Parses one identifier shape out of the normalized path and maps its
/// digits to a platform id; distinguishes "shape absent" from "value out of
/// range".
fn parse_one_id(p: &str, tag: &str) -> (r: Option<Result<i64, DlError>>)
    requires
        tag@.len() > 0,
    ensures
        r is Some <==> first_id_match(p@, tag@) is Some,
        r matches Some(v) ==> ({
            let d = id_capture(p@, tag@, first_id_match(p@, tag@)->0);
            if digits_val(d) <= i64::MAX {
                v matches Ok(n) && n == digits_val(d)
            } else {
                v == Err::<i64, DlError>(DlError::IdentifierParse)
            }
        }),
{
    let digits = match find_id(p, tag) {
        Some(d) => d,
        None => {
            return None;
        },
    };
    proof {
        lemma_first_id_match_from(p@, tag@, 0);
        let i = first_id_match(p@, tag@)->0;
        assert(id_match_at(p@, tag@, i));
        lemma_digit_run_end(p@, i + tag@.len() as int);
    }
    match parse_digits_i64(digits.as_str()) {
        Some(v) => Some(Ok(v)),
        None => Some(Err(DlError::IdentifierParse)),
    }
}

/// Maps a series URL to the platform identifier it names; the media-id
/// shape takes precedence over the season-id shape, which takes precedence
/// over the episode-id shape.
pub fn bangumi_url_parser(url: &str) -> (r: Result<BangumiID, DlError>)
    ensures
        r == spec_bangumi_id(url@),
{
    proof {
        reveal_strlit("/md");
        reveal_strlit("/ss");
        reveal_strlit("/ep");
    }
    let path = match url_path(url) {
        Some(p) => p,
        None => {
            return Err(DlError::IdentifierParse);
        },
    };
    let p = normalize_path(path.as_str());
    match parse_one_id(p.as_str(), "/md") {
        Some(Ok(v)) => {
            return Ok(BangumiID::MediaID(v));
        },
        Some(Err(e)) => {
            return Err(e);
        },
        None => {},
    }
    match parse_one_id(p.as_str(), "/ss") {
        Some(Ok(v)) => {
            return Ok(BangumiID::SeasonID(v));
        },
        Some(Err(e)) => {
            return Err(e);
        },
        None => {},
    }
    match parse_one_id(p.as_str(), "/ep") {
        Some(Ok(v)) => {
            return Ok(BangumiID::EpisodeID(v));
        },
        Some(Err(e)) => {
            return Err(e);
        },
        None => {},
    }
    Err(DlError::IdentifierParse)
}

/// How an episode-number string appears in a task title: zero-padded to two
/// digits when it is numeric, verbatim otherwise.
pub open spec fn ep_num_fmt(e: Seq<char>) -> Seq<char> {
    if parses_as_i32(e) {
        pad2(parsed_i32(e))
    } else {
        e
    }
}

/// The characters of a task title: series title, formatted episode number,
/// and the episode's long title in brackets.
pub open spec fn file_name_chars(b: Seq<char>, e: Seq<char>, t: Seq<char>) -> Seq<char> {
    b + " - "@ + ep_num_fmt(e) + " ["@ + t + "]"@
}

/// Builds a task title out of the series title, the episode number and the
/// episode's long title.
pub fn get_bangumi_file_name(b_title: &str, ep_num: &str, ep_title: &str) -> (r: String)
    ensures
        r@ == file_name_chars(b_title@, ep_num@, ep_title@),
{
    let mut s = b_title.to_owned();
    s.append(" - ");
    match parse_i32(ep_num) {
        Some(v) => {
            s.append(crate::text::i64_pad2(v as i64).as_str());
        },
        None => {
            s.append(ep_num);
        },
    }
    s.append(" [");
    s.append(ep_title);
    s.append("]");
    proof {
        assert(s@ =~= file_name_chars(b_title@, ep_num@, ep_title@));
    }
    s
}

/// The canonical episodes of a series, in platform order: exactly those
/// records whose badge flag does not mark non-canonical content.
pub open spec fn canonical_eps(eps: Seq<Episode>) -> Seq<Episode>
    decreases eps.len(),
{
    if eps.len() == 0 {
        Seq::empty()
    } else if eps.last().badge_type != 1 {
        canonical_eps(eps.drop_last()) + seq![eps.last()]
    } else {
        canonical_eps(eps.drop_last())
    }
}

/// Whether an episode record is canonical content rather than a preview or
/// recap.
pub open spec fn canon_pred() -> spec_fn(Episode) -> bool {
    |ep: Episode| ep.badge_type != 1
}

/// Law: the canonical sequence is exactly the filter of the records by the
/// badge flag — the records with the non-canonical badge are excluded and
/// nothing else is, in order.
pub proof fn lemma_canonical_eps_filter(eps: Seq<Episode>)
    ensures
        canonical_eps(eps) == eps.filter(canon_pred()),
    decreases eps.len(),
{
    reveal(Seq::<_>::filter);
    if eps.len() == 0 {
        assert(canonical_eps(eps) =~= eps.filter(canon_pred()));
    } else {
        lemma_canonical_eps_filter(eps.drop_last());
        assert(canonical_eps(eps) =~= eps.filter(canon_pred()));
    }
}

/// One task per canonical episode of a season, in platform order, with the
/// ordinal equal to the position in the filtered sequence and the title
/// synthesized from the series title and the episode's number and name.
pub fn bangumi_season_tasks(info: &BangumiInfo) -> (r: Vec<Task>)
    ensures
        r@.len() == canonical_eps(info.episodes@).len(),
        forall|i: int| 0 <= i < r@.len() ==> {
            let ep = #[trigger] canonical_eps(info.episodes@)[i];
            &&& r@[i].link == ep.link
            &&& r@[i].title@ == file_name_chars(info.title@, ep.ep_num@, ep.long_title@)
            &&& r@[i].id == Ordinal::Pos(i as usize)
            &&& r@[i].input_path is None
        },
{
    let eps_len = info.episodes.len();
    let mut out: Vec<Task> = Vec::new();
    let mut i: usize = 0;
    proof {
        assert(info.episodes@.subrange(0, 0) =~= Seq::<Episode>::empty());
    }
    while i < eps_len
        invariant
            eps_len == info.episodes@.len(),
            0 <= i <= eps_len,
            out@.len() == canonical_eps(info.episodes@.subrange(0, i as int)).len(),
            out@.len() <= i,
            forall|j: int| 0 <= j < out@.len() ==> {
                let ep = #[trigger] canonical_eps(info.episodes@.subrange(0, i as int))[j];
                &&& out@[j].link == ep.link
                &&& out@[j].title@ == file_name_chars(info.title@, ep.ep_num@, ep.long_title@)
                &&& out@[j].id == Ordinal::Pos(j as usize)
                &&& out@[j].input_path is None
            },
        decreases eps_len - i,
    {
        let ghost pref = info.episodes@.subrange(0, i as int);
        let ghost pref1 = info.episodes@.subrange(0, i + 1);
        proof {
            assert(pref1.drop_last() =~= pref);
            assert(pref1.last() == info.episodes@[i as int]);
        }
        let ep = &info.episodes[i];
        if ep.badge_type != 1 {
            let title = get_bangumi_file_name(
                info.title.as_str(),
                ep.ep_num.as_str(),
                ep.long_title.as_str(),
            );
            let t = Task::new(ep.link.clone(), title, Ordinal::Pos(out.len()));
            out.push(t);
            proof {
                assert(canonical_eps(pref1) =~= canonical_eps(pref) + seq![
                    info.episodes@[i as int],
                ]);
            }
        } else {
            proof {
                assert(canonical_eps(pref1) =~= canonical_eps(pref));
            }
        }
        i = i + 1;
    }
    proof {
        assert(info.episodes@.subrange(0, eps_len as int) =~= info.episodes@);
    }
    out
}

/// The position of the first episode record carrying `ep_id`, at or after
/// `from`, if any.
pub open spec fn first_ep_index_from(eps: Seq<Episode>, ep_id: int, from: int) -> Option<int>
    decreases eps.len() - from,
{
    if from < 0 || from >= eps.len() {
        None
    } else if eps[from].ep_id == ep_id {
        Some(from)
    } else {
        first_ep_index_from(eps, ep_id, from + 1)
    }
}

/// The position of the first episode record carrying `ep_id`, if any.
pub open spec fn first_ep_index(eps: Seq<Episode>, ep_id: int) -> Option<int> {
    first_ep_index_from(eps, ep_id, 0)
}

/// Exactly one task for the episode record carrying the requested id, with
/// the ordinal parsed from the episode-number string — or that string kept
/// raw when it is not numeric, an asymmetry with season resolution that is
/// preserved deliberately. Fails exactly when no record carries the id.
pub fn bangumi_episode_task(info: &BangumiInfo, ep_id: i64) -> (r: Result<Task, DlError>)
    ensures
        ({
            match first_ep_index(info.episodes@, ep_id as int) {
                Option::None => r == Err::<Task, DlError>(DlError::EpisodeNotFound),
                Option::Some(j) => r matches Ok(t) && {
                    let ep = info.episodes@[j];
                    &&& t.link == ep.link
                    &&& t.title@ == file_name_chars(info.title@, ep.ep_num@, ep.long_title@)
                    &&& t.input_path is None
                    &&& t.id == (if parses_as_i32(ep.ep_num@) {
                        Ordinal::Num(parsed_i32(ep.ep_num@) as i32)
                    } else {
                        Ordinal::Raw(ep.ep_num)
                    })
                },
            }
        }),
{
    let eps_len = info.episodes.len();
    let mut i: usize = 0;
    while i < eps_len
        invariant
            eps_len == info.episodes@.len(),
            0 <= i <= eps_len,
            first_ep_index(info.episodes@, ep_id as int) == first_ep_index_from(
                info.episodes@,
                ep_id as int,
                i as int,
            ),
        decreases eps_len - i,
    {
        let ep = &info.episodes[i];
        if ep.ep_id == ep_id {
            let title = get_bangumi_file_name(
                info.title.as_str(),
                ep.ep_num.as_str(),
                ep.long_title.as_str(),
            );
            let id = match parse_i32(ep.ep_num.as_str()) {
                Some(v) => Ordinal::Num(v),
                None => Ordinal::Raw(ep.ep_num.clone()),
            };
            return Ok(Task::new(ep.link.clone(), title, id));
        }
        i = i + 1;
    }
    Err(DlError::EpisodeNotFound)
}

} // verus!
