//! Verified character-sequence utilities.
//!
//! All string logic of the crate works on `Vec<char>` values so that every
//! transformation is verified against `Seq<char>` specifications. Only the
//! final step that materialises a `String` from characters is trusted.

use vstd::prelude::*;

verus! {

/// Collects the characters of a string slice, fully verified through the
/// per-index character accessor.
pub fn chars_of(s: &str) -> (r: Vec<char>)
    ensures
        r@ == s@,
{
    let n: usize = s.unicode_len();
    let mut r: Vec<char> = Vec::new();
    let mut i: usize = 0;
    while i < n
        invariant
            i <= n,
            n == s@.len(),
            r@ == s@.subrange(0, i as int),
        decreases n - i,
    {
        r.push(s.get_char(i));
        i = i + 1;
        proof {
            assert(r@ =~= s@.subrange(0, i as int));
        }
    }
    proof {
        assert(r@ =~= s@);
    }
    r
}

/// Relies on `core::iter::Iterator::collect` for `String`: the resulting
/// string holds exactly the characters of `cs`, in order.
#[verifier::external_body]
pub fn string_of(cs: &Vec<char>) -> (r: String)
    ensures
        r@ == cs@,
{
    cs.iter().collect()
}

/// ASCII lower-casing of one character; every other character is unchanged.
pub open spec fn lower_char(c: char) -> char {
    if 'A' <= c && c <= 'Z' {
        ((c as u8) + 32) as char
    } else {
        c
    }
}

/// ASCII lower-casing of a character sequence.
pub open spec fn lower_seq(s: Seq<char>) -> Seq<char> {
    s.map_values(|c: char| lower_char(c))
}

/// Lower-cases the ASCII letters of `v`.
pub fn to_lower(v: &Vec<char>) -> (r: Vec<char>)
    ensures
        r@ == lower_seq(v@),
{
    let mut r: Vec<char> = Vec::new();
    let mut i: usize = 0;
    while i < v.len()
        invariant
            i <= v@.len(),
            r@ == lower_seq(v@.subrange(0, i as int)),
        decreases v@.len() - i,
    {
        let c = v[i];
        if 'A' <= c && c <= 'Z' {
            r.push((((c as u8) + 32) as char));
        } else {
            r.push(c);
        }
        i = i + 1;
        proof {
            assert(r@ =~= lower_seq(v@.subrange(0, i as int)));
        }
    }
    proof {
        assert(v@.subrange(0, v@.len() as int) =~= v@);
    }
    r
}

/// The whitespace characters this crate trims: ASCII whitespace and the
/// ideographic space.
pub open spec fn is_space_char(c: char) -> bool {
    c == ' ' || c == '\t' || c == '\n' || c == '\r' || c == '\u{3000}'
}

/// Executable form of `is_space_char`.
pub fn is_space(c: char) -> (r: bool)
    ensures
        r == is_space_char(c),
{
    c == ' ' || c == '\t' || c == '\n' || c == '\r' || c == '\u{3000}'
}

/// Drops the longest whitespace prefix.
pub open spec fn drop_leading_space(s: Seq<char>) -> Seq<char>
    decreases s.len(),
{
    if s.len() > 0 && is_space_char(s[0]) {
        drop_leading_space(s.drop_first())
    } else {
        s
    }
}

/// Drops the longest whitespace suffix.
pub open spec fn drop_trailing_space(s: Seq<char>) -> Seq<char>
    decreases s.len(),
{
    if s.len() > 0 && is_space_char(s[s.len() - 1]) {
        drop_trailing_space(s.drop_last())
    } else {
        s
    }
}

/// Whitespace stripped from both ends.
pub open spec fn trim_spec(s: Seq<char>) -> Seq<char> {
    drop_trailing_space(drop_leading_space(s))
}

/// Drops the longest prefix of occurrences of `m`.
pub open spec fn drop_leading_ch(s: Seq<char>, m: char) -> Seq<char>
    decreases s.len(),
{
    if s.len() > 0 && s[0] == m {
        drop_leading_ch(s.drop_first(), m)
    } else {
        s
    }
}

/// Drops the longest suffix of occurrences of `m`.
pub open spec fn drop_trailing_ch(s: Seq<char>, m: char) -> Seq<char>
    decreases s.len(),
{
    if s.len() > 0 && s[s.len() - 1] == m {
        drop_trailing_ch(s.drop_last(), m)
    } else {
        s
    }
}

/// Occurrences of `m` stripped from both ends.
pub open spec fn strip_ends_ch(s: Seq<char>, m: char) -> Seq<char> {
    drop_trailing_ch(drop_leading_ch(s, m), m)
}

/// Strips the whitespace of `is_space_char` from both ends.
pub fn trim(v: &Vec<char>) -> (r: Vec<char>)
    ensures
        r@ == trim_spec(v@),
{
    proof {
        assert(v@.subrange(0, v@.len() as int) =~= v@);
    }
    let mut lo: usize = 0;
    let mut hi: usize = v.len();
    while lo < hi && is_space(v[lo])
        invariant
            0 <= lo <= hi <= v@.len(),
            hi == v@.len(),
            drop_leading_space(v@) == drop_leading_space(
                v@.subrange(lo as int, v@.len() as int),
            ),
        decreases hi - lo,
    {
        proof {
            let tail = v@.subrange(lo as int, v@.len() as int);
            assert(tail[0] == v@[lo as int]);
            assert(tail.drop_first() =~= v@.subrange(lo as int + 1, v@.len() as int));
        }
        lo = lo + 1;
    }
    proof {
        let tail = v@.subrange(lo as int, v@.len() as int);
        if lo < hi {
            assert(tail[0] == v@[lo as int]);
        }
        assert(drop_leading_space(v@) =~= tail);
    }
    while lo < hi && is_space(v[hi - 1])
        invariant
            0 <= lo <= hi <= v@.len(),
            drop_leading_space(v@) =~= v@.subrange(lo as int, v@.len() as int),
            drop_trailing_space(drop_leading_space(v@)) == drop_trailing_space(
                v@.subrange(lo as int, hi as int),
            ),
        decreases hi - lo,
    {
        proof {
            let cur = v@.subrange(lo as int, hi as int);
            assert(cur[cur.len() - 1] == v@[hi - 1]);
            assert(cur.drop_last() =~= v@.subrange(lo as int, hi as int - 1));
        }
        hi = hi - 1;
    }
    proof {
        let cur = v@.subrange(lo as int, hi as int);
        if lo < hi {
            assert(cur[cur.len() - 1] == v@[hi - 1]);
        }
        assert(drop_trailing_space(drop_leading_space(v@)) =~= cur);
    }
    copy_range(v, lo, hi)
}

/// Strips every leading and trailing occurrence of `m` from `v`.
pub fn trim_matches(v: &Vec<char>, m: char) -> (r: Vec<char>)
    ensures
        r@ == strip_ends_ch(v@, m),
{
    proof {
        assert(v@.subrange(0, v@.len() as int) =~= v@);
    }
    let mut lo: usize = 0;
    let mut hi: usize = v.len();
    while lo < hi && v[lo] == m
        invariant
            0 <= lo <= hi <= v@.len(),
            hi == v@.len(),
            drop_leading_ch(v@, m) == drop_leading_ch(
                v@.subrange(lo as int, v@.len() as int),
                m,
            ),
        decreases hi - lo,
    {
        proof {
            let tail = v@.subrange(lo as int, v@.len() as int);
            assert(tail[0] == v@[lo as int]);
            assert(tail.drop_first() =~= v@.subrange(lo as int + 1, v@.len() as int));
        }
        lo = lo + 1;
    }
    proof {
        let tail = v@.subrange(lo as int, v@.len() as int);
        if lo < hi {
            assert(tail[0] == v@[lo as int]);
        }
        assert(drop_leading_ch(v@, m) =~= tail);
    }
    while lo < hi && v[hi - 1] == m
        invariant
            0 <= lo <= hi <= v@.len(),
            drop_leading_ch(v@, m) =~= v@.subrange(lo as int, v@.len() as int),
            drop_trailing_ch(drop_leading_ch(v@, m), m) == drop_trailing_ch(
                v@.subrange(lo as int, hi as int),
                m,
            ),
        decreases hi - lo,
    {
        proof {
            let cur = v@.subrange(lo as int, hi as int);
            assert(cur[cur.len() - 1] == v@[hi - 1]);
            assert(cur.drop_last() =~= v@.subrange(lo as int, hi as int - 1));
        }
        hi = hi - 1;
    }
    proof {
        let cur = v@.subrange(lo as int, hi as int);
        if lo < hi {
            assert(cur[cur.len() - 1] == v@[hi - 1]);
        }
        assert(drop_trailing_ch(drop_leading_ch(v@, m), m) =~= cur);
    }
    copy_range(v, lo, hi)
}

/// Strips every trailing occurrence of `m` from `v`.
pub fn trim_end_matches(v: &Vec<char>, m: char) -> (r: Vec<char>)
    ensures
        r@ == drop_trailing_ch(v@, m),
{
    proof {
        assert(v@.subrange(0, v@.len() as int) =~= v@);
    }
    let mut hi: usize = v.len();
    while 0 < hi && v[hi - 1] == m
        invariant
            0 <= hi <= v@.len(),
            drop_trailing_ch(v@, m) == drop_trailing_ch(v@.subrange(0, hi as int), m),
        decreases hi,
    {
        proof {
            let cur = v@.subrange(0, hi as int);
            assert(cur[cur.len() - 1] == v@[hi - 1]);
            assert(cur.drop_last() =~= v@.subrange(0, hi as int - 1));
        }
        hi = hi - 1;
    }
    proof {
        let cur = v@.subrange(0, hi as int);
        if 0 < hi {
            assert(cur[cur.len() - 1] == v@[hi - 1]);
        }
        assert(drop_trailing_ch(v@, m) =~= cur);
    }
    copy_range(v, 0, hi)
}

/// Copies the characters of `v` between `lo` and `hi`.
pub fn copy_range(v: &Vec<char>, lo: usize, hi: usize) -> (r: Vec<char>)
    requires
        lo <= hi <= v@.len(),
    ensures
        r@ == v@.subrange(lo as int, hi as int),
{
    let mut r: Vec<char> = Vec::new();
    let mut i: usize = lo;
    while i < hi
        invariant
            lo <= i <= hi <= v@.len(),
            r@ == v@.subrange(lo as int, i as int),
        decreases hi - i,
    {
        r.push(v[i]);
        i = i + 1;
        proof {
            assert(r@ =~= v@.subrange(lo as int, i as int));
        }
    }
    r
}

/// `needle` occurs in `hay` at position `i`.
pub open spec fn match_at(hay: Seq<char>, needle: Seq<char>, i: int) -> bool {
    0 <= i && i + needle.len() <= hay.len() && hay.subrange(i, i + needle.len()) =~= needle
}

/// `needle` occurs somewhere in `hay`.
pub open spec fn contains_seq(hay: Seq<char>, needle: Seq<char>) -> bool {
    exists|i: int| match_at(hay, needle, i)
}

/// Finds the first occurrence of `needle` in `hay`.
pub fn find_sub(hay: &Vec<char>, needle: &Vec<char>) -> (r: Option<usize>)
    ensures
        match r {
            Some(i) => match_at(hay@, needle@, i as int) && (forall|j: int|
                0 <= j < i ==> !match_at(hay@, needle@, j)),
            None => !contains_seq(hay@, needle@),
        },
{
    if needle.len() > hay.len() {
        return None;
    }
    if needle.len() == 0 {
        proof {
            assert(hay@.subrange(0, 0) =~= needle@);
        }
        return Some(0);
    }
    let end: usize = hay.len() - needle.len();
    let mut i: usize = 0;
    loop
        invariant
            1 <= needle@.len() <= hay@.len(),
            hay@.len() <= usize::MAX,
            end == hay@.len() - needle@.len(),
            0 <= i <= end + 1,
            forall|j: int| 0 <= j < i ==> !match_at(hay@, needle@, j),
        decreases end + 1 - i,
    {
        if i > end {
            proof {
                assert forall|j: int| !match_at(hay@, needle@, j) by {
                    if 0 <= j <= end as int {
                        assert(!match_at(hay@, needle@, j));
                    }
                }
            }
            return None;
        }
        let mut k: usize = 0;
        let mut ok: bool = true;
        while k < needle.len()
            invariant
                0 <= k <= needle@.len(),
                i + needle@.len() <= hay@.len(),
                hay@.len() <= usize::MAX,
                ok ==> forall|t: int| 0 <= t < k ==> hay@[i + t] == needle@[t],
                !ok ==> !match_at(hay@, needle@, i as int),
            decreases needle@.len() - k,
        {
            if hay[i + k] != needle[k] {
                proof {
                    if match_at(hay@, needle@, i as int) {
                        assert(hay@.subrange(i as int, i + needle@.len())[k as int]
                            == needle@[k as int]);
                    }
                }
                ok = false;
                k = needle.len();
            } else {
                k = k + 1;
            }
        }
        if ok {
            proof {
                assert(hay@.subrange(i as int, i + needle@.len()) =~= needle@);
            }
            return Some(i);
        }
        i = i + 1;
    }
}

/// True when `needle` occurs in `hay`.
pub fn contains_sub(hay: &Vec<char>, needle: &Vec<char>) -> (r: bool)
    ensures
        r == contains_seq(hay@, needle@),
{
    find_sub(hay, needle).is_some()
}

/// True when `v` begins with `prefix`.
pub fn starts_with(v: &Vec<char>, prefix: &Vec<char>) -> (r: bool)
    ensures
        r == (prefix@.len() <= v@.len() && v@.subrange(0, prefix@.len() as int) =~= prefix@),
{
    if prefix.len() > v.len() {
        return false;
    }
    let mut k: usize = 0;
    while k < prefix.len()
        invariant
            0 <= k <= prefix@.len() <= v@.len(),
            forall|t: int| 0 <= t < k ==> v@[t] == prefix@[t],
        decreases prefix@.len() - k,
    {
        if v[k] != prefix[k] {
            proof {
                if v@.subrange(0, prefix@.len() as int) =~= prefix@ {
                    assert(v@.subrange(0, prefix@.len() as int)[k as int] == needle_at(
                        prefix@,
                        k as int,
                    ));
                }
            }
            return false;
        }
        k = k + 1;
    }
    proof {
        assert(v@.subrange(0, prefix@.len() as int) =~= prefix@);
    }
    true
}

/// Spec helper naming one character of a needle; keeps triggers simple.
pub open spec fn needle_at(needle: Seq<char>, i: int) -> char {
    needle[i]
}

/// True when `v` ends with `suffix`.
pub fn ends_with(v: &Vec<char>, suffix: &Vec<char>) -> (r: bool)
    ensures
        r == (suffix@.len() <= v@.len() && v@.subrange(
            v@.len() - suffix@.len(),
            v@.len() as int,
        ) =~= suffix@),
{
    if suffix.len() > v.len() {
        return false;
    }
    let base: usize = v.len() - suffix.len();
    let mut k: usize = 0;
    while k < suffix.len()
        invariant
            0 <= k <= suffix@.len() <= v@.len(),
            v@.len() <= usize::MAX,
            base == v@.len() - suffix@.len(),
            forall|t: int| 0 <= t < k ==> v@[base + t] == suffix@[t],
        decreases suffix@.len() - k,
    {
        proof {
            assert(base + k < v@.len());
        }
        if v[base + k] != suffix[k] {
            proof {
                if v@.subrange(v@.len() - suffix@.len(), v@.len() as int) =~= suffix@ {
                    assert(v@.subrange(v@.len() - suffix@.len(), v@.len() as int)[k as int]
                        == needle_at(suffix@, k as int));
                }
            }
            return false;
        }
        k = k + 1;
    }
    proof {
        assert(v@.subrange(v@.len() - suffix@.len(), v@.len() as int) =~= suffix@);
    }
    true
}

/// Character-wise equality of two vectors.
pub fn chars_eq(a: &Vec<char>, b: &Vec<char>) -> (r: bool)
    ensures
        r == (a@ =~= b@),
{
    if a.len() != b.len() {
        return false;
    }
    let mut k: usize = 0;
    while k < a.len()
        invariant
            0 <= k <= a@.len(),
            a@.len() == b@.len(),
            forall|t: int| 0 <= t < k ==> a@[t] == b@[t],
        decreases a@.len() - k,
    {
        if a[k] != b[k] {
            return false;
        }
        k = k + 1;
    }
    proof {
        assert(a@ =~= b@);
    }
    true
}

/// A decimal digit.
pub open spec fn is_digit_char(c: char) -> bool {
    '0' <= c && c <= '9'
}

/// Every character of `s` is a decimal digit.
pub open spec fn all_digits(s: Seq<char>) -> bool {
    forall|i: int| 0 <= i < s.len() ==> is_digit_char(#[trigger] s[i])
}

/// True when `v` consists of decimal digits only (an empty `v` counts).
pub fn is_all_digits(v: &Vec<char>) -> (r: bool)
    ensures
        r == all_digits(v@),
{
    let mut k: usize = 0;
    while k < v.len()
        invariant
            0 <= k <= v@.len(),
            forall|t: int| 0 <= t < k ==> is_digit_char(#[trigger] v@[t]),
        decreases v@.len() - k,
    {
        let c = v[k];
        if !('0' <= c && c <= '9') {
            return false;
        }
        k = k + 1;
    }
    true
}

/// Replaces every occurrence of `from` with `to`.
pub open spec fn replace_seq(s: Seq<char>, from: char, to: char) -> Seq<char> {
    s.map_values(|c: char| if c == from { to } else { c })
}

/// Replaces every occurrence of `from` by `to`.
pub fn replace_char(v: &Vec<char>, from: char, to: char) -> (r: Vec<char>)
    ensures
        r@ == replace_seq(v@, from, to),
{
    let mut r: Vec<char> = Vec::new();
    let mut i: usize = 0;
    while i < v.len()
        invariant
            i <= v@.len(),
            r@ == replace_seq(v@.subrange(0, i as int), from, to),
        decreases v@.len() - i,
    {
        let c = v[i];
        if c == from {
            r.push(to);
        } else {
            r.push(c);
        }
        i = i + 1;
        proof {
            assert(r@ =~= replace_seq(v@.subrange(0, i as int), from, to));
        }
    }
    proof {
        assert(v@.subrange(0, v@.len() as int) =~= v@);
    }
    r
}

/// The characters of `s` with every occurrence of `m` removed.
pub open spec fn remove_seq(s: Seq<char>, m: char) -> Seq<char> {
    s.filter(|c: char| c != m)
}

/// Removes every occurrence of `m` from `v`.
pub fn remove_char(v: &Vec<char>, m: char) -> (r: Vec<char>)
    ensures
        r@ == remove_seq(v@, m),
{
    let mut r: Vec<char> = Vec::new();
    let mut i: usize = 0;
    while i < v.len()
        invariant
            i <= v@.len(),
            r@ == remove_seq(v@.subrange(0, i as int), m),
        decreases v@.len() - i,
    {
        let c = v[i];
        proof {
            assert(v@.subrange(0, i + 1).drop_last() =~= v@.subrange(0, i as int));
            reveal_with_fuel(Seq::filter, 2);
        }
        if c != m {
            r.push(c);
        }
        i = i + 1;
    }
    proof {
        assert(v@.subrange(0, v@.len() as int) =~= v@);
    }
    r
}

/// Appends the characters of `src` onto `dst`.
pub fn push_all(dst: &mut Vec<char>, src: &Vec<char>)
    ensures
        final(dst)@ == old(dst)@ + src@,
{
    let mut i: usize = 0;
    while i < src.len()
        invariant
            i <= src@.len(),
            dst@ == old(dst)@ + src@.subrange(0, i as int),
        decreases src@.len() - i,
    {
        dst.push(src[i]);
        i = i + 1;
        proof {
            assert(dst@ =~= old(dst)@ + src@.subrange(0, i as int));
        }
    }
    proof {
        assert(old(dst)@ + src@.subrange(0, src@.len() as int) =~= old(dst)@ + src@);
    }
}

/// A character that ends the useful part of a URL: a query or fragment mark.
pub open spec fn is_url_cut_char(c: char) -> bool {
    c == '?' || c == '#'
}

/// The length of the prefix before the first `?` or `#` (the whole sequence
/// when neither occurs).
pub open spec fn url_cut_len(s: Seq<char>) -> nat
    decreases s.len(),
{
    if s.len() == 0 || is_url_cut_char(s[0]) {
        0
    } else {
        1 + url_cut_len(s.drop_first())
    }
}

/// The part of a URL tail before any query or fragment, trimmed.
pub open spec fn url_tail_spec(s: Seq<char>) -> Seq<char> {
    trim_spec(s.take(url_cut_len(s) as int))
}

/// `url_cut_len` never exceeds the length and stops exactly at the first
/// cut character.
proof fn lemma_url_cut_len(s: Seq<char>, k: int)
    requires
        0 <= k <= s.len(),
        forall|t: int| 0 <= t < k ==> !is_url_cut_char(#[trigger] s[t]),
        k < s.len() ==> is_url_cut_char(s[k]),
    ensures
        url_cut_len(s) == k,
    decreases k,
{
    if k == 0 {
    } else {
        assert(!is_url_cut_char(s[0]));
        lemma_url_cut_len(s.drop_first(), k - 1);
        assert forall|t: int| 0 <= t < k - 1 implies !is_url_cut_char(
            #[trigger] s.drop_first()[t],
        ) by {
            assert(s.drop_first()[t] == s[t + 1]);
        }
    }
}

/// Cuts `v` at the first `?` or `#` and trims the prefix: the useful part of
/// a URL tail.
pub fn split_url_tail(v: &Vec<char>) -> (r: Vec<char>)
    ensures
        r@ == url_tail_spec(v@),
{
    let mut k: usize = 0;
    while k < v.len() && !(v[k] == '?' || v[k] == '#')
        invariant
            0 <= k <= v@.len(),
            forall|t: int| 0 <= t < k ==> !is_url_cut_char(#[trigger] v@[t]),
        decreases v@.len() - k,
    {
        k = k + 1;
    }
    proof {
        lemma_url_cut_len(v@, k as int);
        assert(v@.subrange(0, k as int) =~= v@.take(url_cut_len(v@) as int));
    }
    let prefix = copy_range(v, 0, k);
    trim(&prefix)
}

/// Repeatedly drops the suffix `suf` for as long as the sequence ends with
/// it. A trailing occurrence of the empty suffix never changes the value.
pub open spec fn drop_trailing_str(s: Seq<char>, suf: Seq<char>) -> Seq<char>
    decreases s.len(),
{
    if suf.len() > 0 && s.len() >= suf.len() && s.subrange(
        s.len() - suf.len(),
        s.len() as int,
    ) =~= suf {
        drop_trailing_str(s.subrange(0, s.len() - suf.len()), suf)
    } else {
        s
    }
}

/// Strips every trailing occurrence of the string `suf` from `v`.
pub fn trim_end_matches_str(v: &Vec<char>, suf: &Vec<char>) -> (r: Vec<char>)
    ensures
        r@ == drop_trailing_str(v@, suf@),
{
    let mut cur: Vec<char> = copy_range(v, 0, v.len());
    proof {
        assert(cur@ =~= v@);
    }
    while suf.len() > 0 && ends_with(&cur, suf)
        invariant
            drop_trailing_str(v@, suf@) == drop_trailing_str(cur@, suf@),
        decreases cur@.len(),
    {
        let keep: usize = cur.len() - suf.len();
        let next = copy_range(&cur, 0, keep);
        proof {
            assert(next@ =~= cur@.subrange(0, cur@.len() - suf@.len()));
        }
        cur = next;
    }
    cur
}

/// Finds the last occurrence of `m` in `v`.
pub fn rfind_char(v: &Vec<char>, m: char) -> (r: Option<usize>)
    ensures
        match r {
            Some(i) => i < v@.len() && v@[i as int] == m && (forall|j: int|
                i < j < v@.len() ==> v@[j] != m),
            None => forall|j: int| 0 <= j < v@.len() ==> v@[j] != m,
        },
{
    let mut k: usize = v.len();
    while k > 0
        invariant
            0 <= k <= v@.len(),
            forall|j: int| k <= j < v@.len() ==> v@[j] != m,
        decreases k,
    {
        if v[k - 1] == m {
            return Some(k - 1);
        }
        k = k - 1;
    }
    None
}

/// The decimal digit character for a value below ten.
pub open spec fn digit_char(d: nat) -> char {
    (('0' as u8) + d) as char
}

/// The decimal representation of `n`, without a sign and without leading
/// zeros (zero itself is "0").
pub open spec fn dec_digits(n: nat) -> Seq<char>
    decreases n,
{
    if n < 10 {
        seq![digit_char(n)]
    } else {
        dec_digits(n / 10) + seq![digit_char(n % 10)]
    }
}

/// Writes `n` in decimal.
pub fn u64_to_chars(n: u64) -> (r: Vec<char>)
    ensures
        r@ == dec_digits(n as nat),
    decreases n,
{
    if n < 10 {
        let mut r: Vec<char> = Vec::new();
        r.push((('0' as u8) + (n as u8)) as char);
        proof {
            assert(r@ =~= dec_digits(n as nat));
        }
        r
    } else {
        let mut r = u64_to_chars(n / 10);
        r.push((('0' as u8) + ((n % 10) as u8)) as char);
        proof {
            assert(r@ =~= dec_digits(n as nat));
        }
        r
    }
}

/// The numeric value of a digit string (most significant digit first).
pub open spec fn dec_value(s: Seq<char>) -> nat
    decreases s.len(),
{
    if s.len() == 0 {
        0
    } else {
        dec_value(s.drop_last()) * 10 + ((s[s.len() - 1] as int - '0' as int) as nat)
    }
}

/// Parses `v` as an unsigned decimal number. Returns `None` when `v` is
/// empty, holds a non-digit, or encodes a value above `u64::MAX`.
pub fn parse_u64_chars(v: &Vec<char>) -> (r: Option<u64>)
    ensures
        match r {
            Some(n) => v@.len() > 0 && all_digits(v@) && n as nat == dec_value(v@),
            None => v@.len() == 0 || !all_digits(v@) || dec_value(v@) > u64::MAX,
        },
{
    if v.len() == 0 {
        return None;
    }
    if !is_all_digits(v) {
        return None;
    }
    let mut acc: u64 = 0;
    let mut i: usize = 0;
    while i < v.len()
        invariant
            0 <= i <= v@.len(),
            all_digits(v@),
            acc as nat == dec_value(v@.subrange(0, i as int)),
        decreases v@.len() - i,
    {
        let c = v[i];
        let d: u64 = (c as u64) - ('0' as u64);
        let shifted = match acc.checked_mul(10) {
            Some(x) => x,
            None => {
                proof {
                    lemma_dec_value_monotone(v@, i as int);
                }
                return None;
            },
        };
        let next = match shifted.checked_add(d) {
            Some(x) => x,
            None => {
                proof {
                    lemma_dec_value_monotone(v@, i as int);
                }
                return None;
            },
        };
        acc = next;
        i = i + 1;
        proof {
            assert(v@.subrange(0, i as int).drop_last() =~= v@.subrange(0, i - 1));
        }
    }
    proof {
        assert(v@.subrange(0, v@.len() as int) =~= v@);
    }
    Some(acc)
}

/// Extending a digit string cannot shrink its value: if the value of the
/// prefix up to `i` already exceeds what a step computes, the whole string's
/// value exceeds `u64::MAX` as well.
proof fn lemma_dec_value_monotone(s: Seq<char>, i: int)
    requires
        0 <= i < s.len(),
        all_digits(s),
        dec_value(s.subrange(0, i)) * 10 + ((s[i] as int - '0' as int) as nat) > u64::MAX,
    ensures
        dec_value(s) > u64::MAX,
    decreases s.len() - i,
{
    assert(s.subrange(0, i + 1).drop_last() =~= s.subrange(0, i));
    assert(s.subrange(0, i + 1)[i] == s[i]);
    assert(dec_value(s.subrange(0, i + 1)) == dec_value(s.subrange(0, i)) * 10 + ((
    s[i] as int - '0' as int) as nat));
    if i + 1 == s.len() {
        assert(s.subrange(0, i + 1) =~= s);
    } else {
        lemma_dec_value_grows(s, i + 1);
    }
}

/// The value of a full digit string is at least the value of any prefix.
proof fn lemma_dec_value_grows(s: Seq<char>, i: int)
    requires
        0 <= i <= s.len(),
        all_digits(s),
    ensures
        dec_value(s) >= dec_value(s.subrange(0, i)),
    decreases s.len() - i,
{
    if i == s.len() {
        assert(s.subrange(0, i) =~= s);
    } else {
        lemma_dec_value_grows(s, i + 1);
        assert(s.subrange(0, i + 1).drop_last() =~= s.subrange(0, i));
        assert(dec_value(s.subrange(0, i + 1)) == dec_value(s.subrange(0, i)) * 10 + ((
        s.subrange(0, i + 1)[i] as int - '0' as int) as nat));
    }
}


/// Strict lexicographic order on character sequences, by code point.
pub open spec fn lex_lt(a: Seq<char>, b: Seq<char>) -> bool
    decreases a.len(),
{
    if b.len() == 0 {
        false
    } else if a.len() == 0 {
        true
    } else if a[0] != b[0] {
        (a[0] as u32) < (b[0] as u32)
    } else {
        lex_lt(a.drop_first(), b.drop_first())
    }
}

/// Compares two character vectors lexicographically.
pub fn chars_lt(a: &Vec<char>, b: &Vec<char>) -> (r: bool)
    ensures
        r == lex_lt(a@, b@),
{
    proof {
        assert(a@.skip(0) =~= a@);
        assert(b@.skip(0) =~= b@);
    }
    let mut i: usize = 0;
    while i < a.len() && i < b.len()
        invariant
            0 <= i <= a@.len(),
            i <= b@.len(),
            forall|t: int| 0 <= t < i ==> a@[t] == b@[t],
            lex_lt(a@, b@) == lex_lt(a@.skip(i as int), b@.skip(i as int)),
        decreases a@.len() - i,
    {
        let ca = a[i];
        let cb = b[i];
        if ca != cb {
            proof {
                assert(a@.skip(i as int)[0] == a@[i as int]);
                assert(b@.skip(i as int)[0] == b@[i as int]);
            }
            return (ca as u32) < (cb as u32);
        }
        proof {
            let sa = a@.skip(i as int);
            let sb = b@.skip(i as int);
            assert(sa[0] == a@[i as int]);
            assert(sb[0] == b@[i as int]);
            assert(sa.drop_first() =~= a@.skip(i + 1));
            assert(sb.drop_first() =~= b@.skip(i + 1));
        }
        i = i + 1;
    }
    proof {
        assert(a@.skip(i as int).len() == a@.len() - i);
        assert(b@.skip(i as int).len() == b@.len() - i);
    }
    i >= a.len() && i < b.len()
}


/// Strict lexicographic order is asymmetric.
pub proof fn lemma_lex_asym(a: Seq<char>, b: Seq<char>)
    requires
        lex_lt(a, b),
    ensures
        !lex_lt(b, a),
    decreases a.len(),
{
    if a.len() > 0 && b.len() > 0 && a[0] == b[0] {
        lemma_lex_asym(a.drop_first(), b.drop_first());
    }
}

/// Strict lexicographic order is transitive.
pub proof fn lemma_lex_trans(a: Seq<char>, b: Seq<char>, c: Seq<char>)
    requires
        lex_lt(a, b),
        lex_lt(b, c),
    ensures
        lex_lt(a, c),
    decreases a.len() + b.len() + c.len(),
{
    if c.len() == 0 {
    } else if a.len() == 0 {
    } else if b.len() == 0 {
    } else {
        if a[0] == b[0] && b[0] == c[0] {
            lemma_lex_trans(a.drop_first(), b.drop_first(), c.drop_first());
        }
    }
}


/// The length of the leading run of non-whitespace characters.
pub open spec fn ws_token_len(s: Seq<char>) -> nat
    decreases s.len(),
{
    if s.len() == 0 || is_space_char(s[0]) {
        0
    } else {
        1 + ws_token_len(s.drop_first())
    }
}

/// The whitespace-separated tokens of `s`, in order, each non-empty.
pub open spec fn split_ws(s: Seq<char>) -> Seq<Seq<char>>
    decreases s.len(),
    via split_ws_decreases
{
    if s.len() == 0 {
        Seq::empty()
    } else if is_space_char(s[0]) {
        split_ws(s.drop_first())
    } else {
        seq![s.take(ws_token_len(s) as int)] + split_ws(s.skip(ws_token_len(s) as int))
    }
}

#[via_fn]
proof fn split_ws_decreases(s: Seq<char>) {
    if s.len() > 0 && !is_space_char(s[0]) {
        lemma_ws_token_len_bound(s);
        assert(ws_token_len(s) == 1 + ws_token_len(s.drop_first()));
    }
}

/// A token never runs past the end of the sequence.
proof fn lemma_ws_token_len_bound(s: Seq<char>)
    ensures
        ws_token_len(s) <= s.len(),
    decreases s.len(),
{
    if s.len() > 0 && !is_space_char(s[0]) {
        lemma_ws_token_len_bound(s.drop_first());
    }
}

/// The token length is exactly the distance to the first whitespace.
proof fn lemma_ws_token_len(s: Seq<char>, k: int)
    requires
        0 <= k <= s.len(),
        forall|t: int| 0 <= t < k ==> !is_space_char(#[trigger] s[t]),
        k < s.len() ==> is_space_char(s[k]),
    ensures
        ws_token_len(s) == k,
    decreases k,
{
    if k == 0 {
    } else {
        assert(!is_space_char(s[0]));
        lemma_ws_token_len(s.drop_first(), k - 1);
        assert forall|t: int| 0 <= t < k - 1 implies !is_space_char(
            #[trigger] s.drop_first()[t],
        ) by {
            assert(s.drop_first()[t] == s[t + 1]);
        }
    }
}

/// Splits `v` at whitespace into its non-empty tokens.
pub fn split_whitespace_tokens(v: &Vec<char>) -> (r: Vec<Vec<char>>)
    ensures
        r.deep_view() == split_ws(v@),
{
    let mut r: Vec<Vec<char>> = Vec::new();
    let mut i: usize = 0;
    let n = v.len();
    proof {
        assert(v@.skip(0) =~= v@);
        assert(r.deep_view() =~~= Seq::<Seq<char>>::empty());
    }
    while i < n
        invariant
            0 <= i <= n,
            n == v@.len(),
            split_ws(v@) == r.deep_view() + split_ws(v@.skip(i as int)),
        decreases n - i,
    {
        if is_space(v[i]) {
            proof {
                let tail = v@.skip(i as int);
                assert(tail[0] == v@[i as int]);
                assert(tail.drop_first() =~= v@.skip(i + 1));
            }
            i = i + 1;
        } else {
            let start = i;
            let mut j = i;
            while j < n && !is_space(v[j])
                invariant
                    0 <= start <= j <= n,
                    n == v@.len(),
                    forall|t: int| start <= t < j ==> !is_space_char(#[trigger] v@[t]),
                decreases n - j,
            {
                j = j + 1;
            }
            let tok = copy_range(v, start, j);
            let ghost pre = r.deep_view();
            r.push(tok);
            proof {
                let tail = v@.skip(start as int);
                assert forall|t: int| 0 <= t < (j - start) implies !is_space_char(
                    #[trigger] tail[t],
                ) by {
                    assert(tail[t] == v@[start + t]);
                }
                if (j - start) < tail.len() {
                    assert(tail[(j - start) as int] == v@[j as int]);
                }
                lemma_ws_token_len(tail, j - start);
                assert(tail.take((j - start) as int) =~= v@.subrange(start as int, j as int));
                assert(tail.skip((j - start) as int) =~= v@.skip(j as int));
                assert(split_ws(tail) == seq![v@.subrange(start as int, j as int)] + split_ws(
                    v@.skip(j as int),
                ));
                assert(r.deep_view() =~~= pre.push(v@.subrange(start as int, j as int)));
                assert(r.deep_view() + split_ws(v@.skip(j as int)) =~~= pre + split_ws(tail));
            }
            i = j;
        }
    }
    proof {
        assert(v@.skip(n as int).len() == 0);
        assert(r.deep_view() + split_ws(v@.skip(n as int)) =~~= r.deep_view());
    }
    r
}

/// `s` with every single quote doubled, the PowerShell single-quote escape.
pub open spec fn esc_single_quotes(s: Seq<char>) -> Seq<char>
    decreases s.len(),
{
    if s.len() == 0 {
        Seq::empty()
    } else if s[0] == '\'' {
        seq!['\'', '\''] + esc_single_quotes(s.drop_first())
    } else {
        seq![s[0]] + esc_single_quotes(s.drop_first())
    }
}

/// Doubles every single quote of `v`.
pub fn escape_single_quotes(v: &Vec<char>) -> (r: Vec<char>)
    ensures
        r@ == esc_single_quotes(v@),
{
    let mut r: Vec<char> = Vec::new();
    let mut i: usize = 0;
    proof {
        assert(v@.skip(0) =~= v@);
    }
    while i < v.len()
        invariant
            0 <= i <= v@.len(),
            esc_single_quotes(v@) == r@ + esc_single_quotes(v@.skip(i as int)),
        decreases v@.len() - i,
    {
        let c = v[i];
        proof {
            let tail = v@.skip(i as int);
            assert(tail[0] == v@[i as int]);
            assert(tail.drop_first() =~= v@.skip(i + 1));
        }
        if c == '\'' {
            r.push('\'');
            r.push('\'');
        } else {
            r.push(c);
        }
        i = i + 1;
    }
    proof {
        assert(v@.skip(v@.len() as int).len() == 0);
        assert(r@ + esc_single_quotes(v@.skip(v@.len() as int)) =~= r@);
    }
    r
}


/// The parts joined with the separator, in order.
pub open spec fn join_with(parts: Seq<Seq<char>>, sep: Seq<char>) -> Seq<char>
    decreases parts.len(),
{
    if parts.len() == 0 {
        Seq::empty()
    } else if parts.len() == 1 {
        parts[0]
    } else {
        join_with(parts.drop_last(), sep) + sep + parts.last()
    }
}

/// Joins strings with a separator.
pub fn join_with_exec(parts: &Vec<String>, sep: &str) -> (r: String)
    ensures
        r@ == join_with(parts.deep_view(), sep@),
{
    let mut acc: Vec<char> = Vec::new();
    let mut i: usize = 0;
    while i < parts.len()
        invariant
            0 <= i <= parts@.len(),
            acc@ == join_with(parts.deep_view().take(i as int), sep@),
        decreases parts@.len() - i,
    {
        if i > 0 {
            let sc = chars_of(sep);
            push_all(&mut acc, &sc);
        }
        let piece = chars_of(parts[i].as_str());
        push_all(&mut acc, &piece);
        i = i + 1;
        proof {
            let dv = parts.deep_view();
            assert(dv.take(i as int).drop_last() =~= dv.take(i - 1));
            assert(dv.take(i as int).last() == dv[i - 1]);
            assert(dv[i - 1] == parts@[i - 1]@);
        }
    }
    proof {
        assert(parts.deep_view().take(parts@.len() as int) =~= parts.deep_view());
    }
    string_of(&acc)
}


/// Strict lexicographic order is irreflexive.
pub proof fn lemma_lex_irrefl(a: Seq<char>)
    ensures
        !lex_lt(a, a),
    decreases a.len(),
{
    if a.len() > 0 {
        lemma_lex_irrefl(a.drop_first());
    }
}


/// Two sequences neither of which precedes the other are equal.
pub proof fn lemma_lex_connected(a: Seq<char>, b: Seq<char>)
    requires
        !lex_lt(a, b),
        !lex_lt(b, a),
    ensures
        a == b,
    decreases a.len(),
{
    reveal_with_fuel(lex_lt, 2);
    if a.len() == 0 || b.len() == 0 {
        assert(a =~= b);
    } else {
        if a[0] != b[0] {
            assert(lex_lt(a, b) == ((a[0] as u32) < (b[0] as u32)));
            assert(lex_lt(b, a) == ((b[0] as u32) < (a[0] as u32)));
            assert((a[0] as u32) == (b[0] as u32));
            vstd::utf8::char_u32_cast(a[0], a[0] as u32);
            vstd::utf8::char_u32_cast(b[0], b[0] as u32);
            assert(false);
        }
        assert(a[0] == b[0]);
        lemma_lex_connected(a.drop_first(), b.drop_first());
        assert(a =~= seq![a[0]] + a.drop_first());
        assert(b =~= seq![b[0]] + b.drop_first());
    }
}

} // verus!
