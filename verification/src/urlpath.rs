//! URL path handling: the one trusted call into the `url` crate, path
//! normalization, and the fixed-shape identifier scan used on platform
//! links (`/md<digits>/`, `/ss<digits>/`, `/ep<digits>/`).

use vstd::prelude::*;

use crate::text::{all_digits, is_digit, lemma_first_occurrence_from, occurs_at, find_sub_from};

verus! {

/// The path component that URL parsing yields for `s`, or `None` when `s`
/// is not a valid URL. The path is a function of the URL string alone.
pub uninterp spec fn parsed_url_path(s: Seq<char>) -> Option<Seq<char>>;

/// Relies on `url::Url::parse` and `url::Url::path`: parsing is
/// deterministic, depends only on the input string, and yields the URL's
/// path component; it fails exactly on strings that are not valid URLs.
#[verifier::external_body]
pub(crate) fn url_path(url: &str) -> (r: Option<String>)
    ensures
        r is Some <==> parsed_url_path(url@) is Some,
        r matches Some(p) ==> Some(p@) == parsed_url_path(url@),
{
    match url::Url::parse(url) {
        Ok(u) => Some(u.path().to_string()),
        Err(_) => None,
    }
}

/// The length of `p` once trailing slashes are dropped.
pub open spec fn trimmed_len(p: Seq<char>) -> int
    decreases p.len(),
{
    if p.len() > 0 && p.last() == '/' {
        trimmed_len(p.drop_last())
    } else {
        p.len() as int
    }
}

/// `p` with trailing slashes dropped and one slash put back, the form the
/// identifier scan runs on.
pub open spec fn norm_path(p: Seq<char>) -> Seq<char> {
    p.subrange(0, trimmed_len(p)) + seq!['/']
}

proof fn lemma_trimmed_len_bound(p: Seq<char>)
    ensures
        0 <= trimmed_len(p) <= p.len(),
    decreases p.len(),
{
    if p.len() > 0 && p.last() == '/' {
        lemma_trimmed_len_bound(p.drop_last());
    }
}

/// Drops trailing slashes from `p` and appends a single slash.
pub fn normalize_path(p: &str) -> (r: String)
    ensures
        r@ == norm_path(p@),
{
    proof {
        reveal_strlit("/");
        lemma_trimmed_len_bound(p@);
        assert(p@.subrange(0, p@.len() as int) =~= p@);
    }
    let len = p.unicode_len();
    let mut e: usize = len;
    while e > 0 && p.get_char(e - 1) == '/'
        invariant
            len == p@.len(),
            0 <= e <= len,
            trimmed_len(p@) == trimmed_len(p@.subrange(0, e as int)),
        decreases e,
    {
        proof {
            let sub = p@.subrange(0, e as int);
            assert(sub.last() == p@[e - 1]);
            assert(sub.drop_last() =~= p@.subrange(0, e - 1));
        }
        e = e - 1;
    }
    proof {
        let sub = p@.subrange(0, e as int);
        if e == 0 {
            assert(trimmed_len(sub) == 0);
        } else {
            assert(sub.last() == p@[e - 1]);
            assert(trimmed_len(sub) == e);
        }
    }
    let mut s = p.substring_char(0, e).to_owned();
    s.append("/");
    proof {
        assert(s@ =~= norm_path(p@));
    }
    s
}

/// The end of the run of digits that starts at `k` in `p`.
pub open spec fn digit_run_end(p: Seq<char>, k: int) -> int
    decreases p.len() - k,
{
    if k < 0 || k >= p.len() {
        k
    } else if is_digit(p[k]) {
        digit_run_end(p, k + 1)
    } else {
        k
    }
}

/// The digit run from `k` ends within bounds, holds digits only, and stops
/// at the first non-digit.
pub proof fn lemma_digit_run_end(p: Seq<char>, k: int)
    requires
        0 <= k <= p.len(),
    ensures
        k <= digit_run_end(p, k) <= p.len(),
        all_digits(p.subrange(k, digit_run_end(p, k))),
        digit_run_end(p, k) == p.len() || !is_digit(p[digit_run_end(p, k)]),
    decreases p.len() - k,
{
    if k < p.len() && is_digit(p[k]) {
        lemma_digit_run_end(p, k + 1);
        let e = digit_run_end(p, k);
        assert forall|m: int| 0 <= m < e - k implies is_digit(p.subrange(k, e)[m]) by {
            if m == 0 {
            } else {
                assert(p.subrange(k + 1, e)[m - 1] == p.subrange(k, e)[m]);
            }
        }
    } else {
        assert(p.subrange(k, k) =~= Seq::<char>::empty());
    }
}

/// Whether position `j` of `p` holds a digit.
fn at_digit(p: &str, j: usize, len: usize) -> (r: bool)
    requires
        len == p@.len(),
        j <= len,
    ensures
        r == (j < len && is_digit(p@[j as int])),
{
    if j < len {
        let c = p.get_char(j);
        '0' <= c && c <= '9'
    } else {
        false
    }
}

/// Finds where the digit run beginning at `k` ends.
fn scan_digit_run(p: &str, k: usize) -> (r: usize)
    requires
        k <= p@.len(),
        p@.len() <= usize::MAX,
    ensures
        r == digit_run_end(p@, k as int),
{
    let len = p.unicode_len();
    let mut j: usize = k;
    while at_digit(p, j, len)
        invariant
            len == p@.len(),
            k <= j <= len,
            digit_run_end(p@, k as int) == digit_run_end(p@, j as int),
        decreases len - j,
    {
        j = j + 1;
    }
    j
}

/// A platform identifier of shape `tag` then digits then a slash stands at
/// position `i` of `p`.
pub open spec fn id_match_at(p: Seq<char>, tag: Seq<char>, i: int) -> bool {
    let k = i + tag.len();
    let e = digit_run_end(p, k);
    occurs_at(p, tag, i) && e > k && e < p.len() && p[e] == '/'
}

/// The digits of the identifier standing at position `i` of `p`.
pub open spec fn id_capture(p: Seq<char>, tag: Seq<char>, i: int) -> Seq<char> {
    p.subrange(i + tag.len(), digit_run_end(p, i + tag.len()))
}

/// The position of the leftmost identifier of shape `tag` at or after
/// `from`, if any.
pub open spec fn first_id_match_from(p: Seq<char>, tag: Seq<char>, from: int) -> Option<int>
    decreases p.len() - from,
{
    if from < 0 || tag.len() == 0 || from + tag.len() > p.len() {
        None
    } else if id_match_at(p, tag, from) {
        Some(from)
    } else {
        first_id_match_from(p, tag, from + 1)
    }
}

/// The position of the leftmost identifier of shape `tag` in `p`, if any.
pub open spec fn first_id_match(p: Seq<char>, tag: Seq<char>) -> Option<int> {
    first_id_match_from(p, tag, 0)
}

/// What `first_id_match_from` returns is the least match at or after
/// `from`; `None` means there is none.
pub proof fn lemma_first_id_match_from(p: Seq<char>, tag: Seq<char>, from: int)
    requires
        0 <= from,
        tag.len() > 0,
    ensures
        match first_id_match_from(p, tag, from) {
            Some(i) => from <= i && id_match_at(p, tag, i) && forall|j: int|
                from <= j < i ==> !id_match_at(p, tag, j),
            None => forall|j: int| from <= j ==> !id_match_at(p, tag, j),
        },
    decreases p.len() - from,
{
    if from + tag.len() > p.len() {
        assert forall|j: int| from <= j implies !id_match_at(p, tag, j) by {}
    } else if id_match_at(p, tag, from) {
    } else {
        lemma_first_id_match_from(p, tag, from + 1);
    }
}

/// The digits of the leftmost identifier of shape `tag` in `p`, if any.
pub fn find_id(p: &str, tag: &str) -> (r: Option<String>)
    requires
        tag@.len() > 0,
    ensures
        r is Some <==> first_id_match(p@, tag@) is Some,
        r matches Some(d) ==> d@ == id_capture(p@, tag@, first_id_match(p@, tag@)->0),
{
    let p_len = p.unicode_len();
    let tag_len = tag.unicode_len();
    let mut from: usize = 0;
    loop
        invariant
            p_len == p@.len(),
            tag_len == tag@.len(),
            tag_len >= 1,
            0 <= from <= p_len + 1,
            forall|j: int| 0 <= j < from ==> !id_match_at(p@, tag@, j),
        decreases p_len + 1 - from,
    {
        proof {
            lemma_first_id_match_from(p@, tag@, 0);
        }
        let occ = match find_sub_from(p, tag, from) {
            Some(o) => o,
            None => {
                proof {
                    lemma_first_occurrence_from(p@, tag@, from as int);
                    let fi = first_id_match(p@, tag@);
                    if fi is Some {
                        assert(id_match_at(p@, tag@, fi->0));
                        assert(occurs_at(p@, tag@, fi->0));
                    }
                }
                return None;
            },
        };
        proof {
            lemma_first_occurrence_from(p@, tag@, from as int);
            assert(occurs_at(p@, tag@, occ as int));
            assert forall|j: int| 0 <= j < occ implies !id_match_at(p@, tag@, j) by {
                if j >= from {
                    assert(!occurs_at(p@, tag@, j));
                }
            }
        }
        let k = occ + tag_len;
        let e = scan_digit_run(p, k);
        if e > k && e < p_len && p.get_char(e) == '/' {
            proof {
                assert(id_match_at(p@, tag@, occ as int));
                let fi = first_id_match(p@, tag@);
                assert(fi is Some);
                let m = fi->0;
                assert(!(m < occ) && !(m > occ));
            }
            return Some(p.substring_char(k, e).to_owned());
        }
        proof {
            assert(!id_match_at(p@, tag@, occ as int));
        }
        from = occ + 1;
    }
}

} // verus!
