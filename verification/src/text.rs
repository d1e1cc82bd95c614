//! Verified text utilities: substring search, digit runs, decimal parsing
//! and formatting. Everything here is stated over `Seq<char>` views.

use vstd::prelude::*;

verus! {

/// `needle` occurs in `hay` starting at position `i`.
pub open spec fn occurs_at(hay: Seq<char>, needle: Seq<char>, i: int) -> bool {
    0 <= i && i + needle.len() <= hay.len() && hay.subrange(i, i + needle.len() as int)
        == needle
}

/// `needle` occurs somewhere in `hay`.
pub open spec fn occurs(hay: Seq<char>, needle: Seq<char>) -> bool {
    exists|i: int| occurs_at(hay, needle, i)
}

/// The position of the first occurrence of `needle` in `hay` at or after
/// `from`, if any.
pub open spec fn first_occurrence_from(hay: Seq<char>, needle: Seq<char>, from: int) -> Option<
    int,
>
    decreases hay.len() - from,
{
    if from < 0 || from + needle.len() > hay.len() {
        None
    } else if needle.len() == 0 || occurs_at(hay, needle, from) {
        Some(from)
    } else {
        first_occurrence_from(hay, needle, from + 1)
    }
}

/// The position of the first occurrence of `needle` in `hay`, if any.
pub open spec fn first_occurrence(hay: Seq<char>, needle: Seq<char>) -> Option<int> {
    first_occurrence_from(hay, needle, 0)
}

/// What `first_occurrence_from` returns is the least occurrence at or after
/// `from`; `None` means there is none.
pub proof fn lemma_first_occurrence_from(hay: Seq<char>, needle: Seq<char>, from: int)
    requires
        0 <= from,
    ensures
        match first_occurrence_from(hay, needle, from) {
            Some(i) => from <= i && occurs_at(hay, needle, i) && forall|j: int|
                from <= j < i ==> !occurs_at(hay, needle, j),
            None => forall|j: int| from <= j ==> !occurs_at(hay, needle, j),
        },
    decreases hay.len() - from,
{
    if from + needle.len() > hay.len() {
        assert forall|j: int| from <= j implies !occurs_at(hay, needle, j) by {}
    } else if needle.len() == 0 {
        assert(hay.subrange(from, from + needle.len() as int) =~= needle);
    } else if occurs_at(hay, needle, from) {
    } else {
        lemma_first_occurrence_from(hay, needle, from + 1);
    }
}

/// `needle` occurs in `hay` exactly when a first occurrence exists.
pub proof fn lemma_occurs_first(hay: Seq<char>, needle: Seq<char>)
    ensures
        occurs(hay, needle) <==> first_occurrence(hay, needle) is Some,
{
    lemma_first_occurrence_from(hay, needle, 0);
    let fo = first_occurrence(hay, needle);
    if fo is Some {
        assert(occurs_at(hay, needle, fo->0));
    } else if occurs(hay, needle) {
        let i = choose|i: int| occurs_at(hay, needle, i);
        assert(0 <= i);
        assert(false);
    }
}

/// Whether `needle` occurs at position `i` of `hay`.
fn matches_at(hay: &str, needle: &str, i: usize) -> (r: bool)
    requires
        i + needle@.len() <= hay@.len(),
        hay@.len() <= usize::MAX,
    ensures
        r == occurs_at(hay@, needle@, i as int),
{
    let n = needle.unicode_len();
    let mut k: usize = 0;
    while k < n
        invariant
            n == needle@.len(),
            i + n <= hay@.len(),
            hay@.len() <= usize::MAX,
            0 <= k <= n,
            forall|m: int| 0 <= m < k ==> hay@[i + m] == needle@[m],
        decreases n - k,
    {
        if hay.get_char(i + k) != needle.get_char(k) {
            assert(hay@.subrange(i as int, i + n as int)[k as int] != needle@[k as int]);
            return false;
        }
        k = k + 1;
    }
    assert(hay@.subrange(i as int, i + n as int) =~= needle@);
    true
}

/// The first occurrence of `needle` in `hay` at or after `from`, as a
/// character position.
pub fn find_sub_from(hay: &str, needle: &str, from: usize) -> (r: Option<usize>)
    ensures
        match r {
            Some(i) => Some(i as int) == first_occurrence_from(hay@, needle@, from as int),
            None => first_occurrence_from(hay@, needle@, from as int) is None,
        },
{
    let hay_len = hay.unicode_len();
    let needle_len = needle.unicode_len();
    if needle_len > hay_len || from > hay_len - needle_len {
        proof {
            lemma_first_occurrence_from(hay@, needle@, from as int);
            let fo = first_occurrence_from(hay@, needle@, from as int);
            if fo is Some {
                assert(occurs_at(hay@, needle@, fo->0));
            }
        }
        return None;
    }
    if needle_len == 0 {
        return Some(from);
    }
    let limit = hay_len - needle_len;
    let mut i: usize = from;
    while i <= limit
        invariant
            needle_len >= 1,
            hay_len == hay@.len(),
            needle_len == needle@.len(),
            limit == hay_len - needle_len,
            needle_len <= hay_len,
            from <= i <= limit + 1,
            forall|j: int| from <= j < i ==> !occurs_at(hay@, needle@, j),
        decreases limit + 1 - i,
    {
        if matches_at(hay, needle, i) {
            proof {
                lemma_first_occurrence_from(hay@, needle@, from as int);
                let fo = first_occurrence_from(hay@, needle@, from as int);
                if fo is Some {
                    let m = fo->0;
                    assert(!(m < i) && !(m > i));
                } else {
                    assert(!occurs_at(hay@, needle@, i as int));
                }
            }
            return Some(i);
        }
        i = i + 1;
    }
    proof {
        lemma_first_occurrence_from(hay@, needle@, from as int);
        let fo = first_occurrence_from(hay@, needle@, from as int);
        if fo is Some {
            assert(occurs_at(hay@, needle@, fo->0));
        }
    }
    None
}

/// The first occurrence of `needle` in `hay`, as a character position.
pub fn find_sub(hay: &str, needle: &str) -> (r: Option<usize>)
    ensures
        match r {
            Some(i) => Some(i as int) == first_occurrence(hay@, needle@),
            None => first_occurrence(hay@, needle@) is None,
        },
{
    find_sub_from(hay, needle, 0)
}

/// `c` is a decimal digit.
pub open spec fn is_digit(c: char) -> bool {
    '0' <= c && c <= '9'
}

/// The numeric value of a digit character.
pub open spec fn digit_val(c: char) -> int {
    c as int - '0' as int
}

/// Every character of `s` is a decimal digit.
pub open spec fn all_digits(s: Seq<char>) -> bool {
    forall|i: int| 0 <= i < s.len() ==> is_digit(#[trigger] s[i])
}

/// The value of `s` read as a decimal numeral, most significant digit first.
pub open spec fn digits_val(s: Seq<char>) -> int
    decreases s.len(),
{
    if s.len() == 0 {
        0
    } else {
        digits_val(s.drop_last()) * 10 + digit_val(s.last())
    }
}

/// A numeral of digits only has a non-negative value.
pub proof fn lemma_digits_val_nonneg(s: Seq<char>)
    requires
        all_digits(s),
    ensures
        digits_val(s) >= 0,
    decreases s.len(),
{
    if s.len() > 0 {
        assert(all_digits(s.drop_last()));
        lemma_digits_val_nonneg(s.drop_last());
    }
}

/// Reading one more digit multiplies the prefix value by ten and adds it.
pub proof fn lemma_digits_val_extend(s: Seq<char>, i: int)
    requires
        0 <= i < s.len(),
    ensures
        digits_val(s.subrange(0, i + 1)) == digits_val(s.subrange(0, i)) * 10 + digit_val(s[i]),
{
    assert(s.subrange(0, i + 1).drop_last() =~= s.subrange(0, i));
    assert(s.subrange(0, i + 1).last() == s[i]);
}

/// A prefix of a digit numeral is worth no more than the whole numeral.
pub proof fn lemma_digits_val_prefix_bound(s: Seq<char>, i: int)
    requires
        all_digits(s),
        0 <= i <= s.len(),
    ensures
        digits_val(s.subrange(0, i)) <= digits_val(s),
    decreases s.len() - i,
{
    if i == s.len() {
        assert(s.subrange(0, i) =~= s);
    } else {
        lemma_digits_val_extend(s, i);
        assert(all_digits(s.subrange(0, i)));
        lemma_digits_val_nonneg(s.subrange(0, i));
        lemma_digits_val_prefix_bound(s, i + 1);
    }
}

/// The digits of `s` after a leading sign, if there is one.
pub open spec fn int_body(s: Seq<char>) -> Seq<char> {
    if s.len() > 0 && (s[0] == '+' || s[0] == '-') {
        s.subrange(1, s.len() as int)
    } else {
        s
    }
}

/// The sign `s` carries: -1 under a leading minus, 1 otherwise.
pub open spec fn int_sign(s: Seq<char>) -> int {
    if s.len() > 0 && s[0] == '-' {
        -1
    } else {
        1
    }
}

/// `s` is a well-formed decimal numeral whose value fits in an `i32`:
/// an optional sign, then at least one digit and nothing else.
pub open spec fn parses_as_i32(s: Seq<char>) -> bool {
    let b = int_body(s);
    b.len() > 0 && all_digits(b) && i32::MIN <= int_sign(s) * digits_val(b) <= i32::MAX
}

/// The value of a numeral accepted by `parses_as_i32`.
pub open spec fn parsed_i32(s: Seq<char>) -> int {
    int_sign(s) * digits_val(int_body(s))
}

/// Reads `s` as a decimal `i32`, exactly when `s` is an optionally signed
/// digit string whose value is in range.
pub fn parse_i32(s: &str) -> (r: Option<i32>)
    ensures
        r is Some <==> parses_as_i32(s@),
        r matches Some(v) ==> v == parsed_i32(s@),
{
    let len = s.unicode_len();
    if len == 0 {
        return None;
    }
    let c0 = s.get_char(0);
    let neg = c0 == '-';
    let start: usize = if c0 == '-' || c0 == '+' {
        1
    } else {
        0
    };
    let ghost body = int_body(s@);
    proof {
        assert(body =~= s@.subrange(start as int, len as int));
    }
    if start == len {
        return None;
    }
    let mut acc: u64 = 0;
    let mut i: usize = start;
    while i < len
        invariant
            len == s@.len(),
            start <= i <= len,
            start < len,
            start == 0 || start == 1,
            body == int_body(s@),
            body == s@.subrange(start as int, len as int),
            all_digits(body.subrange(0, i - start)),
            acc == digits_val(body.subrange(0, i - start)),
            acc <= 0xFFFF_FFFFu64,
        decreases len - i,
    {
        let c = s.get_char(i);
        proof {
            assert(body[i - start] == c);
        }
        if c < '0' || c > '9' {
            proof {
                assert(!is_digit(body[i - start]));
                assert(!all_digits(body));
            }
            return None;
        }
        let d: u64 = (c as u32 as u64) - 48;
        proof {
            let k = i - start;
            assert(d as int == digit_val(c));
            assert(all_digits(body.subrange(0, k + 1))) by {
                let sub1 = body.subrange(0, k + 1);
                assert forall|m: int| 0 <= m < sub1.len() implies is_digit(sub1[m]) by {
                    if m < k {
                        assert(sub1[m] == body.subrange(0, k)[m]);
                    } else {
                        assert(sub1[m] == c);
                    }
                }
            }
            lemma_digits_val_extend(body, k);
        }
        acc = acc * 10 + d;
        i = i + 1;
        if acc > 0xFFFF_FFFFu64 {
            proof {
                if all_digits(body) {
                    lemma_digits_val_prefix_bound(body, i - start);
                    assert(digits_val(body) >= acc);
                    assert(!parses_as_i32(s@));
                }
            }
            return None;
        }
    }
    proof {
        assert(body.subrange(0, (len - start) as int) =~= body);
    }
    if neg {
        if acc > 0x8000_0000u64 {
            return None;
        }
        Some((-(acc as i64)) as i32)
    } else {
        if acc > 0x7FFF_FFFFu64 {
            return None;
        }
        Some(acc as i32)
    }
}

/// Reads `s` as an unsigned decimal `i64`, exactly when `s` is a
/// non-empty digit string whose value is in range.
pub fn parse_digits_i64(s: &str) -> (r: Option<i64>)
    ensures
        r is Some <==> s@.len() > 0 && all_digits(s@) && digits_val(s@) <= i64::MAX,
        r matches Some(v) ==> v == digits_val(s@),
{
    let len = s.unicode_len();
    if len == 0 {
        return None;
    }
    let mut acc: u128 = 0;
    let mut i: usize = 0;
    while i < len
        invariant
            len == s@.len(),
            0 <= i <= len,
            all_digits(s@.subrange(0, i as int)),
            acc == digits_val(s@.subrange(0, i as int)),
            acc <= 0x7FFF_FFFF_FFFF_FFFFu128,
        decreases len - i,
    {
        let c = s.get_char(i);
        if c < '0' || c > '9' {
            proof {
                assert(!is_digit(s@[i as int]));
            }
            return None;
        }
        let d: u128 = (c as u32 as u128) - 48;
        proof {
            let k = i as int;
            assert(d as int == digit_val(c));
            assert(all_digits(s@.subrange(0, k + 1))) by {
                let sub1 = s@.subrange(0, k + 1);
                assert forall|m: int| 0 <= m < sub1.len() implies is_digit(sub1[m]) by {
                    if m < k {
                        assert(sub1[m] == s@.subrange(0, k)[m]);
                    } else {
                        assert(sub1[m] == c);
                    }
                }
            }
            lemma_digits_val_extend(s@, k);
        }
        acc = acc * 10 + d;
        i = i + 1;
        if acc > 0x7FFF_FFFF_FFFF_FFFFu128 {
            proof {
                if all_digits(s@) {
                    lemma_digits_val_prefix_bound(s@, i as int);
                    assert(digits_val(s@) >= acc);
                }
            }
            return None;
        }
    }
    proof {
        assert(s@.subrange(0, len as int) =~= s@);
    }
    Some(acc as i64)
}

/// The digit character of a value below ten.
pub open spec fn dec_digit_char(d: int) -> char {
    if d == 0 {
        '0'
    } else if d == 1 {
        '1'
    } else if d == 2 {
        '2'
    } else if d == 3 {
        '3'
    } else if d == 4 {
        '4'
    } else if d == 5 {
        '5'
    } else if d == 6 {
        '6'
    } else if d == 7 {
        '7'
    } else if d == 8 {
        '8'
    } else {
        '9'
    }
}

/// The decimal numeral of a non-negative value, without padding.
pub open spec fn dec_str(n: int) -> Seq<char>
    decreases n,
{
    if n < 0 {
        Seq::empty()
    } else if n < 10 {
        seq![dec_digit_char(n)]
    } else {
        dec_str(n / 10).push(dec_digit_char(n % 10))
    }
}

/// The decimal numeral zero-padded to width two, as the `{:02}` format
/// writes it: one leading zero below ten, a sign and the plain numeral
/// for negative values.
pub open spec fn pad2(n: int) -> Seq<char> {
    if 0 <= n < 10 {
        seq!['0'] + dec_str(n)
    } else if n >= 10 {
        dec_str(n)
    } else {
        seq!['-'] + dec_str(-n)
    }
}

/// The single-character string of a digit value.
fn digit_str(d: u64) -> (r: &'static str)
    requires
        d < 10,
    ensures
        r@ =~= seq![dec_digit_char(d as int)],
{
    proof {
        reveal_strlit("0");
        reveal_strlit("1");
        reveal_strlit("2");
        reveal_strlit("3");
        reveal_strlit("4");
        reveal_strlit("5");
        reveal_strlit("6");
        reveal_strlit("7");
        reveal_strlit("8");
        reveal_strlit("9");
    }
    if d == 0 {
        "0"
    } else if d == 1 {
        "1"
    } else if d == 2 {
        "2"
    } else if d == 3 {
        "3"
    } else if d == 4 {
        "4"
    } else if d == 5 {
        "5"
    } else if d == 6 {
        "6"
    } else if d == 7 {
        "7"
    } else if d == 8 {
        "8"
    } else {
        "9"
    }
}

/// Writes `n` as a decimal numeral.
pub fn u64_to_dec(n: u64) -> (r: String)
    ensures
        r@ == dec_str(n as int),
    decreases n,
{
    if n < 10 {
        digit_str(n).to_owned()
    } else {
        let mut s = u64_to_dec(n / 10);
        s.append(digit_str(n % 10));
        proof {
            assert(dec_str((n / 10) as int).push(dec_digit_char((n % 10) as int)) =~= dec_str(
                (n / 10) as int,
            ) + seq![dec_digit_char((n % 10) as int)]);
        }
        s
    }
}

/// Writes a non-negative `n` zero-padded to width two, as `{:02}` does.
pub fn u64_pad2(n: u64) -> (r: String)
    ensures
        r@ == pad2(n as int),
{
    proof {
        reveal_strlit("0");
    }
    if n < 10 {
        let mut s = "0".to_owned();
        s.append(digit_str(n));
        assert(s@ =~= pad2(n as int));
        s
    } else {
        u64_to_dec(n)
    }
}

/// Writes `n` zero-padded to width two, as `{:02}` does.
pub fn i64_pad2(n: i64) -> (r: String)
    ensures
        r@ == pad2(n as int),
{
    proof {
        reveal_strlit("0");
        reveal_strlit("-");
    }
    if n < 0 {
        let m: u64 = if n == i64::MIN {
            0x8000_0000_0000_0000u64
        } else {
            (-n) as u64
        };
        let mut s = "-".to_owned();
        s.append(u64_to_dec(m).as_str());
        assert(s@ =~= pad2(n as int));
        s
    } else if n < 10 {
        let mut s = "0".to_owned();
        s.append(digit_str(n as u64));
        assert(s@ =~= pad2(n as int));
        s
    } else {
        u64_to_dec(n as u64)
    }
}

/// Whether `needle` occurs anywhere in `hay`.
pub fn contains_sub(hay: &str, needle: &str) -> (r: bool)
    ensures
        r == occurs(hay@, needle@),
{
    proof {
        lemma_first_occurrence_from(hay@, needle@, 0);
    }
    match find_sub(hay, needle) {
        Some(i) => {
            assert(occurs_at(hay@, needle@, i as int));
            true
        },
        None => {
            assert forall|i: int| !occurs_at(hay@, needle@, i) by {}
            false
        },
    }
}

} // verus!
