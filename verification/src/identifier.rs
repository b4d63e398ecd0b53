//! Normalisation of caller-supplied business keys (paper identifiers).
//!
//! The normaliser recognises DOIs, PubMed ids, arXiv ids and Semantic
//! Scholar ids, in raw, prefixed and URL forms, and reduces each to one
//! canonical spelling. Its behaviour is pinned down by `spec_normalize`, a
//! functional specification of the whole recognition cascade.

use vstd::prelude::*;
use vstd::string::StringExecFns;
use crate::errors::{CoreError, ErrorKind};
use crate::text::{
    all_digits, chars_eq, chars_of, contains_seq, copy_range, drop_trailing_ch,
    drop_trailing_str, find_sub, is_all_digits, lower_seq, match_at, push_all, remove_char,
    remove_seq, replace_char, replace_seq, rfind_char, split_url_tail, starts_with, string_of,
    strip_ends_ch, to_lower, trim, trim_end_matches, trim_end_matches_str, trim_matches,
    trim_spec, url_tail_spec,
};

verus! {

/// A normalised identifier: its kind, canonical spelling, display form, and
/// any warnings or errors gathered while recognising it.
pub struct NormalizedIdentifier {
    pub kind: String,
    pub canonical: String,
    pub display: String,
    pub warnings: Vec<String>,
    pub errors: Vec<String>,
}

/// The specification-level image of a `NormalizedIdentifier`.
pub struct NormImage {
    pub kind: Seq<char>,
    pub canonical: Seq<char>,
    pub display: Seq<char>,
    pub warnings: Seq<Seq<char>>,
    pub errors: Seq<Seq<char>>,
}

/// The view of a normalised identifier.
pub open spec fn norm_view(n: NormalizedIdentifier) -> NormImage {
    NormImage {
        kind: n.kind@,
        canonical: n.canonical@,
        display: n.display@,
        warnings: n.warnings.deep_view(),
        errors: n.errors.deep_view(),
    }
}

/// The input after quote-stripping, ideographic-space replacement and
/// trimming, in the order the normaliser applies them.
pub open spec fn cleaned(input: Seq<char>) -> Seq<char> {
    let t0 = trim_spec(input);
    let t1 = strip_ends_ch(t0, '"');
    let t2 = strip_ends_ch(t1, '\'');
    let t3 = trim_spec(t2);
    let t4 = replace_seq(t3, '\u{3000}', ' ');
    trim_spec(t4)
}

/// `i` is the first occurrence of `pat` in `hay`.
pub open spec fn is_first_match(hay: Seq<char>, pat: Seq<char>, i: int) -> bool {
    match_at(hay, pat, i) && (forall|j: int| 0 <= j < i ==> !match_at(hay, pat, j))
}

/// The first occurrence is unique.
pub proof fn lemma_first_match_unique(hay: Seq<char>, pat: Seq<char>, i: int, j: int)
    requires
        is_first_match(hay, pat, i),
        is_first_match(hay, pat, j),
    ensures
        i == j,
{
}


/// Wherever some occurrence exists, a first occurrence exists.
pub proof fn lemma_first_exists(hay: Seq<char>, pat: Seq<char>, w: int)
    requires
        match_at(hay, pat, w),
    ensures
        exists|i: int| is_first_match(hay, pat, i),
    decreases w,
{
    if forall|j: int| 0 <= j < w ==> !match_at(hay, pat, j) {
        assert(is_first_match(hay, pat, w));
    } else {
        let j = choose|j: int| 0 <= j < w && match_at(hay, pat, j);
        lemma_first_exists(hay, pat, j);
    }
}

/// The index of the first occurrence of `pat` in `hay`; meaningful only when
/// `hay` contains `pat`.
pub open spec fn first_ix(hay: Seq<char>, pat: Seq<char>) -> int {
    choose|i: int| is_first_match(hay, pat, i)
}

/// The part of `s` after the first occurrence of `pat` in the lower-cased
/// form of `s`.
pub open spec fn after_pat(s: Seq<char>, pat: Seq<char>) -> Seq<char> {
    s.skip(first_ix(lower_seq(s), pat) + pat.len())
}

/// `pre` is a prefix of `s`.
pub open spec fn has_prefix(s: Seq<char>, pre: Seq<char>) -> bool {
    pre.len() <= s.len() && s.take(pre.len() as int) == pre
}

/// `s` holds the character `c`.
pub open spec fn contains_char(s: Seq<char>, c: char) -> bool {
    exists|i: int| 0 <= i < s.len() && s[i] == c
}

/// A character allowed in a bare arXiv identifier.
pub open spec fn arxiv_raw_char(c: char) -> bool {
    ('a' <= c && c <= 'z') || ('A' <= c && c <= 'Z') || ('0' <= c && c <= '9') || c == '.'
        || c == '/' || c == '-'
}

/// Every character of `s` may appear in a bare arXiv identifier.
pub open spec fn all_arxiv_raw(s: Seq<char>) -> bool {
    forall|i: int| 0 <= i < s.len() ==> arxiv_raw_char(#[trigger] s[i])
}

/// The DOI body recognised from a `doi.org/` URL.
pub open spec fn doi_url_body(s: Seq<char>) -> Seq<char> {
    lower_seq(trim_spec(drop_trailing_ch(url_tail_spec(after_pat(s, "doi.org/"@)), '/')))
}

/// The PubMed id recognised from a PubMed URL.
pub open spec fn pmid_url_body(s: Seq<char>) -> Seq<char> {
    trim_spec(drop_trailing_ch(url_tail_spec(after_pat(s, "pubmed.ncbi.nlm.nih.gov/"@)), '/'))
}

/// The arXiv id recognised from an abstract URL.
pub open spec fn arxiv_abs_body(s: Seq<char>) -> Seq<char> {
    trim_spec(drop_trailing_ch(url_tail_spec(after_pat(s, "arxiv.org/abs/"@)), '/'))
}

/// The arXiv id recognised from a PDF URL.
pub open spec fn arxiv_pdf_body(s: Seq<char>) -> Seq<char> {
    trim_spec(
        drop_trailing_ch(
            drop_trailing_str(url_tail_spec(after_pat(s, "arxiv.org/pdf/"@)), ".pdf"@),
            '/',
        ),
    )
}

/// The last non-empty `/`-separated segment of `s`, before any query or
/// fragment: the Semantic Scholar id candidate of a paper URL.
pub open spec fn s2_url_body(s: Seq<char>) -> Seq<char> {
    let t = drop_trailing_ch(s, '/');
    if t.len() == 0 {
        Seq::empty()
    } else if contains_char(t, '/') {
        let j = choose|j: int|
            0 <= j < t.len() && t[j] == '/' && (forall|k: int| j < k < t.len() ==> t[k] != '/');
        url_tail_spec(t.skip(j + 1))
    } else {
        url_tail_spec(t)
    }
}

/// A successfully recognised identifier.
pub open spec fn norm_ok(
    kind: Seq<char>,
    canonical: Seq<char>,
    display: Seq<char>,
    w: Seq<Seq<char>>,
    e: Seq<Seq<char>>,
) -> NormImage {
    NormImage { kind, canonical, display, warnings: w, errors: e }
}

/// Step two of the cascade: a DOI taken out of a `doi.org` URL.
pub open spec fn step_doi_url(s: Seq<char>, lower: Seq<char>, w: Seq<Seq<char>>, e: Seq<Seq<char>>) -> NormImage {
    if contains_seq(lower, "doi.org/"@) {
        let body = doi_url_body(s);
        if body.len() > 0 {
            norm_ok("doi"@, body, "doi:"@ + body, w.push("DOI extracted from URL"@), e)
        } else {
            step_doi_prefix(s, lower, w, e.push("failed to parse DOI from URL"@))
        }
    } else {
        step_doi_prefix(s, lower, w, e)
    }
}

/// A DOI written with the `doi:` prefix.
pub open spec fn step_doi_prefix(s: Seq<char>, lower: Seq<char>, w: Seq<Seq<char>>, e: Seq<Seq<char>>) -> NormImage {
    if has_prefix(lower, "doi:"@) {
        let body = lower_seq(trim_spec(s.skip("doi:"@.len() as int)));
        if body.len() > 0 {
            norm_ok("doi"@, body, "doi:"@ + body, w, e)
        } else {
            step_doi_raw(s, lower, w, e.push("DOI prefix exists but body is empty"@))
        }
    } else {
        step_doi_raw(s, lower, w, e)
    }
}

/// A bare DOI: it starts with `10.` and holds a slash.
pub open spec fn step_doi_raw(s: Seq<char>, lower: Seq<char>, w: Seq<Seq<char>>, e: Seq<Seq<char>>) -> NormImage {
    if has_prefix(s, "10."@) && contains_char(s, '/') {
        let body = lower_seq(remove_seq(s, ' '));
        norm_ok("doi"@, body, "doi:"@ + body, w, e)
    } else {
        step_pmid_url(s, lower, w, e)
    }
}

/// A PubMed id taken out of a PubMed URL.
pub open spec fn step_pmid_url(s: Seq<char>, lower: Seq<char>, w: Seq<Seq<char>>, e: Seq<Seq<char>>) -> NormImage {
    if contains_seq(lower, "pubmed.ncbi.nlm.nih.gov/"@) {
        let body = pmid_url_body(s);
        if body.len() > 0 && all_digits(body) {
            norm_ok(
                "pmid"@,
                "pmid:"@ + body,
                "pmid:"@ + body,
                w.push("PMID extracted from PubMed URL"@),
                e,
            )
        } else {
            step_pmid_prefix(s, lower, w, e.push("failed to parse PMID from PubMed URL"@))
        }
    } else {
        step_pmid_prefix(s, lower, w, e)
    }
}

/// A PubMed id written with the `pmid:` prefix.
pub open spec fn step_pmid_prefix(s: Seq<char>, lower: Seq<char>, w: Seq<Seq<char>>, e: Seq<Seq<char>>) -> NormImage {
    if has_prefix(lower, "pmid:"@) {
        let body = trim_spec(s.skip("pmid:"@.len() as int));
        if body.len() > 0 && all_digits(body) {
            norm_ok("pmid"@, "pmid:"@ + body, "pmid:"@ + body, w, e)
        } else {
            step_pmid_raw(s, lower, w, e.push("pmid must be digits"@))
        }
    } else {
        step_pmid_raw(s, lower, w, e)
    }
}

/// A bare PubMed id: all digits.
pub open spec fn step_pmid_raw(s: Seq<char>, lower: Seq<char>, w: Seq<Seq<char>>, e: Seq<Seq<char>>) -> NormImage {
    if all_digits(s) {
        norm_ok("pmid"@, "pmid:"@ + s, "pmid:"@ + s, w, e)
    } else {
        step_arxiv_abs(s, lower, w, e)
    }
}

/// An arXiv id taken out of an abstract URL.
pub open spec fn step_arxiv_abs(s: Seq<char>, lower: Seq<char>, w: Seq<Seq<char>>, e: Seq<Seq<char>>) -> NormImage {
    if contains_seq(lower, "arxiv.org/abs/"@) {
        let body = arxiv_abs_body(s);
        if body.len() > 0 {
            norm_ok(
                "arxiv"@,
                "arxiv:"@ + body,
                "arxiv:"@ + body,
                w.push("arXiv id extracted from URL"@),
                e,
            )
        } else {
            step_arxiv_pdf(s, lower, w, e.push("failed to parse arXiv id from URL"@))
        }
    } else {
        step_arxiv_pdf(s, lower, w, e)
    }
}

/// An arXiv id taken out of a PDF URL.
pub open spec fn step_arxiv_pdf(s: Seq<char>, lower: Seq<char>, w: Seq<Seq<char>>, e: Seq<Seq<char>>) -> NormImage {
    if contains_seq(lower, "arxiv.org/pdf/"@) {
        let body = arxiv_pdf_body(s);
        if body.len() > 0 {
            norm_ok(
                "arxiv"@,
                "arxiv:"@ + body,
                "arxiv:"@ + body,
                w.push("arXiv id extracted from PDF URL"@),
                e,
            )
        } else {
            step_arxiv_prefix(s, lower, w, e.push("failed to parse arXiv id from PDF URL"@))
        }
    } else {
        step_arxiv_prefix(s, lower, w, e)
    }
}

/// An arXiv id written with the `arxiv:` prefix.
pub open spec fn step_arxiv_prefix(s: Seq<char>, lower: Seq<char>, w: Seq<Seq<char>>, e: Seq<Seq<char>>) -> NormImage {
    if has_prefix(lower, "arxiv:"@) {
        let body = trim_spec(s.skip("arxiv:"@.len() as int));
        if body.len() > 0 {
            norm_ok("arxiv"@, "arxiv:"@ + body, "arxiv:"@ + body, w, e)
        } else {
            step_arxiv_raw(s, lower, w, e.push("arxiv prefix exists but body is empty"@))
        }
    } else {
        step_arxiv_raw(s, lower, w, e)
    }
}

/// A bare arXiv id: its character set plus a dot or slash.
pub open spec fn step_arxiv_raw(s: Seq<char>, lower: Seq<char>, w: Seq<Seq<char>>, e: Seq<Seq<char>>) -> NormImage {
    if all_arxiv_raw(s) && (contains_char(s, '.') || contains_char(s, '/')) {
        norm_ok("arxiv"@, "arxiv:"@ + s, "arxiv:"@ + s, w, e)
    } else {
        step_s2_url(s, lower, w, e)
    }
}

/// A Semantic Scholar id taken out of a paper URL.
pub open spec fn step_s2_url(s: Seq<char>, lower: Seq<char>, w: Seq<Seq<char>>, e: Seq<Seq<char>>) -> NormImage {
    if contains_seq(lower, "semanticscholar.org/paper/"@) {
        let body = s2_url_body(s);
        if body.len() > 0 {
            norm_ok(
                "s2"@,
                "S2PaperId:"@ + body,
                "S2PaperId:"@ + body,
                w.push("S2 id extracted from URL"@),
                e,
            )
        } else {
            step_corpus_prefix(
                s,
                lower,
                w,
                e.push("failed to parse Semantic Scholar id from URL"@),
            )
        }
    } else {
        step_corpus_prefix(s, lower, w, e)
    }
}

/// A Semantic Scholar corpus id written with the `CorpusId:` prefix.
pub open spec fn step_corpus_prefix(s: Seq<char>, lower: Seq<char>, w: Seq<Seq<char>>, e: Seq<Seq<char>>) -> NormImage {
    if has_prefix(lower, "corpusid:"@) {
        let body = trim_spec(s.skip("corpusid:"@.len() as int));
        if body.len() > 0 {
            norm_ok("s2"@, "CorpusId:"@ + body, "CorpusId:"@ + body, w, e)
        } else {
            step_s2paperid_prefix(s, lower, w, e.push("CorpusId prefix exists but body is empty"@))
        }
    } else {
        step_s2paperid_prefix(s, lower, w, e)
    }
}

/// A Semantic Scholar paper id written with the `S2PaperId:` prefix.
pub open spec fn step_s2paperid_prefix(s: Seq<char>, lower: Seq<char>, w: Seq<Seq<char>>, e: Seq<Seq<char>>) -> NormImage {
    if has_prefix(lower, "s2paperid:"@) {
        let body = trim_spec(s.skip("s2paperid:"@.len() as int));
        if body.len() > 0 {
            norm_ok("s2"@, "S2PaperId:"@ + body, "S2PaperId:"@ + body, w, e)
        } else {
            step_s2_short_prefix(
                s,
                lower,
                w,
                e.push("S2PaperId prefix exists but body is empty"@),
            )
        }
    } else {
        step_s2_short_prefix(s, lower, w, e)
    }
}

/// A Semantic Scholar id written with the short `s2:` prefix.
pub open spec fn step_s2_short_prefix(s: Seq<char>, lower: Seq<char>, w: Seq<Seq<char>>, e: Seq<Seq<char>>) -> NormImage {
    if has_prefix(lower, "s2:"@) {
        let body = trim_spec(s.skip("s2:"@.len() as int));
        if body.len() > 0 {
            norm_ok("s2"@, "S2PaperId:"@ + body, "S2PaperId:"@ + body, w, e)
        } else {
            step_unknown(s, lower, w, e.push("s2 prefix exists but body is empty"@))
        }
    } else {
        step_unknown(s, lower, w, e)
    }
}

/// Nothing matched: the identifier format is unknown.
pub open spec fn step_unknown(s: Seq<char>, lower: Seq<char>, w: Seq<Seq<char>>, e: Seq<Seq<char>>) -> NormImage {
    NormImage {
        kind: "unknown"@,
        canonical: s,
        display: "unknown"@,
        warnings: w,
        errors: e.push("unknown identifier format"@),
    }
}

/// What the normaliser returns for `input`: the full recognition cascade.
pub open spec fn spec_normalize(input: Seq<char>) -> NormImage {
    let s = cleaned(input);
    if s.len() == 0 {
        NormImage {
            kind: "unknown"@,
            canonical: Seq::empty(),
            display: Seq::empty(),
            warnings: Seq::empty(),
            errors: Seq::empty().push("identifier is empty"@),
        }
    } else {
        step_doi_url(s, lower_seq(s), Seq::empty(), Seq::empty())
    }
}

/// The identifier is recognised cleanly: normalising it yields no errors.
pub open spec fn spec_identifier_ok(input: Seq<char>) -> bool {
    spec_normalize(input).errors.len() == 0
}

/// String equality through character views.
pub fn str_eq(a: &str, b: &str) -> (r: bool)
    ensures
        r == (a@ == b@),
{
    let ca = chars_of(a);
    let cb = chars_of(b);
    chars_eq(&ca, &cb)
}

/// The characters of the literal `pre` followed by those of `body`.
fn concat_lit(pre: &str, body: &Vec<char>) -> (r: Vec<char>)
    ensures
        r@ == pre@ + body@,
{
    let mut r = chars_of(pre);
    push_all(&mut r, body);
    r
}

/// When the lower-cased form of `s` starts with `pre`, the whitespace-trimmed
/// remainder of `s` after that prefix.
fn prefix_body(s: &Vec<char>, lower: &Vec<char>, pre: &Vec<char>) -> (r: Option<Vec<char>>)
    requires
        lower@ == lower_seq(s@),
    ensures
        r is Some <==> has_prefix(lower@, pre@),
        r is Some ==> r->0@ == trim_spec(s@.skip(pre@.len() as int)),
{
    proof {
        assert(lower@.len() == s@.len());
    }
    if starts_with(lower, pre) {
        proof {
            assert(lower@.take(pre@.len() as int) =~= lower@.subrange(0, pre@.len() as int));
        }
        let tail = copy_range(s, pre.len(), s.len());
        proof {
            assert(tail@ =~= s@.skip(pre@.len() as int));
        }
        Some(trim(&tail))
    } else {
        proof {
            if has_prefix(lower@, pre@) {
                assert(lower@.subrange(0, pre@.len() as int) =~= lower@.take(pre@.len() as int));
            }
        }
        None
    }
}

/// When the lower-cased form of `s` contains `pat`, the part of `s` after
/// the first occurrence.
fn url_extract(s: &Vec<char>, lower: &Vec<char>, pat: &Vec<char>) -> (r: Option<Vec<char>>)
    requires
        lower@ == lower_seq(s@),
    ensures
        r is Some <==> contains_seq(lower@, pat@),
        r is Some ==> r->0@ == after_pat(s@, pat@),
{
    proof {
        assert(lower@.len() == s@.len());
    }
    match find_sub(lower, pat) {
        Some(i) => {
            proof {
                assert(is_first_match(lower@, pat@, i as int));
                assert(is_first_match(lower@, pat@, first_ix(lower@, pat@))) by {
                    assert(exists|j: int| is_first_match(lower@, pat@, j));
                }
                lemma_first_match_unique(lower@, pat@, i as int, first_ix(lower@, pat@));
            }
            let total = s.len();
            let tail = copy_range(s, i + pat.len(), total);
            proof {
                assert(tail@ =~= s@.skip(first_ix(lower_seq(s@), pat@) + pat@.len()));
            }
            Some(tail)
        },
        None => None,
    }
}

/// Normalises a caller-supplied identifier. The result is exactly what
/// `spec_normalize` describes: the recognised kind, the canonical and
/// display spellings, and the warnings and errors of the recognition
/// cascade, in order.
pub fn normalize_identifier_internal(input: &str) -> (r: NormalizedIdentifier)
    ensures
        norm_view(r) == spec_normalize(input@),
{
    let cs = chars_of(input);
    let t0 = trim(&cs);
    let t1 = trim_matches(&t0, '"');
    let t2 = trim_matches(&t1, '\'');
    let t3 = trim(&t2);
    let t4 = replace_char(&t3, '\u{3000}', ' ');
    let s = trim(&t4);
    proof {
        assert(s@ == cleaned(input@));
    }
    let mut warnings: Vec<String> = Vec::new();
    let mut errors: Vec<String> = Vec::new();
    proof {
        assert(warnings.deep_view() =~= Seq::<Seq<char>>::empty());
        assert(errors.deep_view() =~= Seq::<Seq<char>>::empty());
    }

    if s.len() == 0 {
        errors.push(String::from_str("identifier is empty"));
        proof {
            assert(errors.deep_view() =~= Seq::<Seq<char>>::empty().push(
                "identifier is empty"@,
            ));
        }
        return NormalizedIdentifier {
            kind: String::from_str("unknown"),
            canonical: String::new(),
            display: String::new(),
            warnings,
            errors,
        };
    }

    let lower = to_lower(&s);

    // DOI in a doi.org URL.
    let pat = chars_of("doi.org/");
    match url_extract(&s, &lower, &pat) {
        Some(tail0) => {
            let tail = split_url_tail(&tail0);
            let d0 = trim_end_matches(&tail, '/');
            let d1 = trim(&d0);
            let body = to_lower(&d1);
            proof {
                assert(body@ == doi_url_body(s@));
            }
            if body.len() > 0 {
                warnings.push(String::from_str("DOI extracted from URL"));
                proof {
                    assert(warnings.deep_view() =~= Seq::<Seq<char>>::empty().push(
                        "DOI extracted from URL"@,
                    ));
                }
                return NormalizedIdentifier {
                    kind: String::from_str("doi"),
                    canonical: string_of(&body),
                    display: string_of(&concat_lit("doi:", &body)),
                    warnings,
                    errors,
                };
            }
            errors.push(String::from_str("failed to parse DOI from URL"));
            proof {
                assert(errors.deep_view() =~= Seq::<Seq<char>>::empty().push(
                    "failed to parse DOI from URL"@,
                ));
            }
        },
        None => {},
    }
    let ghost e_doi_url = errors.deep_view();

    // DOI with the doi: prefix.
    let pre = chars_of("doi:");
    match prefix_body(&s, &lower, &pre) {
        Some(b0) => {
            let body = to_lower(&b0);
            if body.len() > 0 {
                return NormalizedIdentifier {
                    kind: String::from_str("doi"),
                    canonical: string_of(&body),
                    display: string_of(&concat_lit("doi:", &body)),
                    warnings,
                    errors,
                };
            }
            errors.push(String::from_str("DOI prefix exists but body is empty"));
            proof {
                assert(errors.deep_view() =~= e_doi_url.push(
                    "DOI prefix exists but body is empty"@,
                ));
            }
        },
        None => {},
    }
    let ghost e_doi_pre = errors.deep_view();

    // Bare DOI.
    let pre10 = chars_of("10.");
    let has_10 = starts_with(&s, &pre10);
    let has_slash = contains_char_exec(&s, '/');
    proof {
        assert(s@.take(pre10@.len() as int) =~= s@.subrange(0, pre10@.len() as int));
    }
    if has_10 && has_slash {
        let body = to_lower(&remove_char(&s, ' '));
        return NormalizedIdentifier {
            kind: String::from_str("doi"),
            canonical: string_of(&body),
            display: string_of(&concat_lit("doi:", &body)),
            warnings,
            errors,
        };
    }

    // PubMed URL.
    let pat = chars_of("pubmed.ncbi.nlm.nih.gov/");
    match url_extract(&s, &lower, &pat) {
        Some(tail0) => {
            let tail = split_url_tail(&tail0);
            let p0 = trim_end_matches(&tail, '/');
            let body = trim(&p0);
            proof {
                assert(body@ == pmid_url_body(s@));
            }
            if body.len() > 0 && is_all_digits(&body) {
                warnings.push(String::from_str("PMID extracted from PubMed URL"));
                proof {
                    assert(warnings.deep_view() =~= Seq::<Seq<char>>::empty().push(
                        "PMID extracted from PubMed URL"@,
                    ));
                }
                let canonical = concat_lit("pmid:", &body);
                return NormalizedIdentifier {
                    kind: String::from_str("pmid"),
                    canonical: string_of(&canonical),
                    display: string_of(&canonical),
                    warnings,
                    errors,
                };
            }
            errors.push(String::from_str("failed to parse PMID from PubMed URL"));
            proof {
                assert(errors.deep_view() =~= e_doi_pre.push(
                    "failed to parse PMID from PubMed URL"@,
                ));
            }
        },
        None => {},
    }
    let ghost e_pmid_url = errors.deep_view();

    // pmid: prefix.
    let pre = chars_of("pmid:");
    match prefix_body(&s, &lower, &pre) {
        Some(body) => {
            if body.len() > 0 && is_all_digits(&body) {
                let canonical = concat_lit("pmid:", &body);
                return NormalizedIdentifier {
                    kind: String::from_str("pmid"),
                    canonical: string_of(&canonical),
                    display: string_of(&canonical),
                    warnings,
                    errors,
                };
            }
            errors.push(String::from_str("pmid must be digits"));
            proof {
                assert(errors.deep_view() =~= e_pmid_url.push("pmid must be digits"@));
            }
        },
        None => {},
    }
    let ghost e_pmid_pre = errors.deep_view();

    // Bare PubMed id.
    if is_all_digits(&s) {
        let canonical = concat_lit("pmid:", &s);
        return NormalizedIdentifier {
            kind: String::from_str("pmid"),
            canonical: string_of(&canonical),
            display: string_of(&canonical),
            warnings,
            errors,
        };
    }

    normalize_from_arxiv(&s, &lower, warnings, errors)
}

/// The arXiv branches of the cascade; hands over to the Semantic Scholar
/// branches when none matches.
fn normalize_from_arxiv(
    s: &Vec<char>,
    lower: &Vec<char>,
    warnings: Vec<String>,
    errors: Vec<String>,
) -> (r: NormalizedIdentifier)
    requires
        lower@ == lower_seq(s@),
    ensures
        norm_view(r) == step_arxiv_abs(s@, lower@, warnings.deep_view(), errors.deep_view()),
{
    let mut warnings = warnings;
    let mut errors = errors;
    let ghost w_in = warnings.deep_view();
    let ghost e_pmid_pre = errors.deep_view();

    // arXiv abstract URL.
    let pat = chars_of("arxiv.org/abs/");
    match url_extract(&s, &lower, &pat) {
        Some(tail0) => {
            let tail = split_url_tail(&tail0);
            let a0 = trim_end_matches(&tail, '/');
            let body = trim(&a0);
            proof {
                assert(body@ == arxiv_abs_body(s@));
            }
            if body.len() > 0 {
                warnings.push(String::from_str("arXiv id extracted from URL"));
                proof {
                    assert(warnings.deep_view() =~= w_in.push(
                        "arXiv id extracted from URL"@,
                    ));
                }
                let canonical = concat_lit("arxiv:", &body);
                return NormalizedIdentifier {
                    kind: String::from_str("arxiv"),
                    canonical: string_of(&canonical),
                    display: string_of(&canonical),
                    warnings,
                    errors,
                };
            }
            errors.push(String::from_str("failed to parse arXiv id from URL"));
            proof {
                assert(errors.deep_view() =~= e_pmid_pre.push(
                    "failed to parse arXiv id from URL"@,
                ));
            }
        },
        None => {},
    }
    let ghost e_abs = errors.deep_view();

    // arXiv PDF URL.
    let pat = chars_of("arxiv.org/pdf/");
    match url_extract(&s, &lower, &pat) {
        Some(tail0) => {
            let tail = split_url_tail(&tail0);
            let pdf = chars_of(".pdf");
            let a0 = trim_end_matches_str(&tail, &pdf);
            let a1 = trim_end_matches(&a0, '/');
            let body = trim(&a1);
            proof {
                assert(body@ == arxiv_pdf_body(s@));
            }
            if body.len() > 0 {
                warnings.push(String::from_str("arXiv id extracted from PDF URL"));
                proof {
                    assert(warnings.deep_view() =~= w_in.push(
                        "arXiv id extracted from PDF URL"@,
                    ));
                }
                let canonical = concat_lit("arxiv:", &body);
                return NormalizedIdentifier {
                    kind: String::from_str("arxiv"),
                    canonical: string_of(&canonical),
                    display: string_of(&canonical),
                    warnings,
                    errors,
                };
            }
            errors.push(String::from_str("failed to parse arXiv id from PDF URL"));
            proof {
                assert(errors.deep_view() =~= e_abs.push(
                    "failed to parse arXiv id from PDF URL"@,
                ));
            }
        },
        None => {},
    }
    let ghost e_pdf = errors.deep_view();

    // arxiv: prefix.
    let pre = chars_of("arxiv:");
    match prefix_body(&s, &lower, &pre) {
        Some(body) => {
            if body.len() > 0 {
                let canonical = concat_lit("arxiv:", &body);
                return NormalizedIdentifier {
                    kind: String::from_str("arxiv"),
                    canonical: string_of(&canonical),
                    display: string_of(&canonical),
                    warnings,
                    errors,
                };
            }
            errors.push(String::from_str("arxiv prefix exists but body is empty"));
            proof {
                assert(errors.deep_view() =~= e_pdf.push(
                    "arxiv prefix exists but body is empty"@,
                ));
            }
        },
        None => {},
    }
    let ghost e_arxiv_pre = errors.deep_view();

    // Bare arXiv id.
    let charset_ok = all_arxiv_raw_exec(&s);
    let has_dot = contains_char_exec(&s, '.');
    let has_slash2 = contains_char_exec(&s, '/');
    if charset_ok && (has_dot || has_slash2) {
        let canonical = concat_lit("arxiv:", &s);
        return NormalizedIdentifier {
            kind: String::from_str("arxiv"),
            canonical: string_of(&canonical),
            display: string_of(&canonical),
            warnings,
            errors,
        };
    }

    normalize_from_s2(&s, &lower, warnings, errors)
}

/// The Semantic Scholar branches and the unknown fallback of the cascade.
fn normalize_from_s2(
    s: &Vec<char>,
    lower: &Vec<char>,
    warnings: Vec<String>,
    errors: Vec<String>,
) -> (r: NormalizedIdentifier)
    requires
        lower@ == lower_seq(s@),
    ensures
        norm_view(r) == step_s2_url(s@, lower@, warnings.deep_view(), errors.deep_view()),
{
    let mut warnings = warnings;
    let mut errors = errors;
    let ghost w_in = warnings.deep_view();
    let ghost e_arxiv_pre = errors.deep_view();

    // Semantic Scholar paper URL.
    let pat = chars_of("semanticscholar.org/paper/");
    match find_sub(&lower, &pat) {
        Some(_) => {
            let t = trim_end_matches(&s, '/');
            let mut body: Vec<char> = Vec::new();
            if t.len() > 0 {
                match rfind_char(&t, '/') {
                    Some(j) => {
                        let seg = copy_range(&t, j + 1, t.len());
                        proof {
                            assert(seg@ =~= t@.skip(j + 1));
                            let cj = choose|k: int|
                                0 <= k < t@.len() && t@[k] == '/' && (forall|m: int|
                                    k < m < t@.len() ==> t@[m] != '/');
                            assert(0 <= cj < t@.len() && t@[cj] == '/' && (forall|m: int|
                                cj < m < t@.len() ==> t@[m] != '/')) by {
                                assert(0 <= j < t@.len() && t@[j as int] == '/' && (forall|
                                    m: int,
                                |
                                    j < m < t@.len() ==> t@[m] != '/'));
                            }
                            if cj != j {
                                if cj < j {
                                    assert(t@[j as int] != '/');
                                } else {
                                    assert(t@[cj] != '/');
                                }
                            }
                        }
                        body = split_url_tail(&seg);
                    },
                    None => {
                        body = split_url_tail(&t);
                    },
                }
                proof {
                    assert(body@ == s2_url_body(s@));
                }
            }
            proof {
                if t@.len() == 0 {
                    assert(s2_url_body(s@).len() == 0);
                    assert(body@ =~= Seq::<char>::empty());
                }
            }
            if body.len() > 0 {
                warnings.push(String::from_str("S2 id extracted from URL"));
                proof {
                    assert(warnings.deep_view() =~= w_in.push(
                        "S2 id extracted from URL"@,
                    ));
                }
                let canonical = concat_lit("S2PaperId:", &body);
                return NormalizedIdentifier {
                    kind: String::from_str("s2"),
                    canonical: string_of(&canonical),
                    display: string_of(&canonical),
                    warnings,
                    errors,
                };
            }
            errors.push(String::from_str("failed to parse Semantic Scholar id from URL"));
            proof {
                assert(errors.deep_view() =~= e_arxiv_pre.push(
                    "failed to parse Semantic Scholar id from URL"@,
                ));
            }
        },
        None => {},
    }
    let ghost e_s2_url = errors.deep_view();

    // CorpusId: prefix.
    let pre = chars_of("corpusid:");
    match prefix_body(&s, &lower, &pre) {
        Some(body) => {
            if body.len() > 0 {
                let canonical = concat_lit("CorpusId:", &body);
                return NormalizedIdentifier {
                    kind: String::from_str("s2"),
                    canonical: string_of(&canonical),
                    display: string_of(&canonical),
                    warnings,
                    errors,
                };
            }
            errors.push(String::from_str("CorpusId prefix exists but body is empty"));
            proof {
                assert(errors.deep_view() =~= e_s2_url.push(
                    "CorpusId prefix exists but body is empty"@,
                ));
            }
        },
        None => {},
    }
    let ghost e_corpus = errors.deep_view();

    // S2PaperId: prefix.
    let pre = chars_of("s2paperid:");
    match prefix_body(&s, &lower, &pre) {
        Some(body) => {
            if body.len() > 0 {
                let canonical = concat_lit("S2PaperId:", &body);
                return NormalizedIdentifier {
                    kind: String::from_str("s2"),
                    canonical: string_of(&canonical),
                    display: string_of(&canonical),
                    warnings,
                    errors,
                };
            }
            errors.push(String::from_str("S2PaperId prefix exists but body is empty"));
            proof {
                assert(errors.deep_view() =~= e_corpus.push(
                    "S2PaperId prefix exists but body is empty"@,
                ));
            }
        },
        None => {},
    }
    let ghost e_s2paperid = errors.deep_view();

    // s2: prefix.
    let pre = chars_of("s2:");
    match prefix_body(&s, &lower, &pre) {
        Some(body) => {
            if body.len() > 0 {
                let canonical = concat_lit("S2PaperId:", &body);
                return NormalizedIdentifier {
                    kind: String::from_str("s2"),
                    canonical: string_of(&canonical),
                    display: string_of(&canonical),
                    warnings,
                    errors,
                };
            }
            errors.push(String::from_str("s2 prefix exists but body is empty"));
            proof {
                assert(errors.deep_view() =~= e_s2paperid.push(
                    "s2 prefix exists but body is empty"@,
                ));
            }
        },
        None => {},
    }
    let ghost e_short = errors.deep_view();

    // Unknown.
    errors.push(String::from_str("unknown identifier format"));
    proof {
        assert(errors.deep_view() =~= e_short.push("unknown identifier format"@));
    }
    NormalizedIdentifier {
        kind: String::from_str("unknown"),
        canonical: string_of(&s),
        display: String::from_str("unknown"),
        warnings,
        errors,
    }
}

/// True when `v` holds the character `c`.
fn contains_char_exec(v: &Vec<char>, c: char) -> (r: bool)
    ensures
        r == contains_char(v@, c),
{
    let mut i: usize = 0;
    while i < v.len()
        invariant
            0 <= i <= v@.len(),
            forall|t: int| 0 <= t < i ==> v@[t] != c,
        decreases v@.len() - i,
    {
        if v[i] == c {
            return true;
        }
        i = i + 1;
    }
    false
}

/// True when every character of `v` may appear in a bare arXiv id.
fn all_arxiv_raw_exec(v: &Vec<char>) -> (r: bool)
    ensures
        r == all_arxiv_raw(v@),
{
    let mut i: usize = 0;
    while i < v.len()
        invariant
            0 <= i <= v@.len(),
            forall|t: int| 0 <= t < i ==> arxiv_raw_char(#[trigger] v@[t]),
        decreases v@.len() - i,
    {
        let c = v[i];
        if !(('a' <= c && c <= 'z') || ('A' <= c && c <= 'Z') || ('0' <= c && c <= '9')
            || c == '.' || c == '/' || c == '-') {
            return false;
        }
        i = i + 1;
    }
    true
}


/// The errors of a normalised identifier joined with `"; "`, most recent
/// last.
pub open spec fn join_semi(parts: Seq<Seq<char>>) -> Seq<char>
    decreases parts.len(),
{
    if parts.len() == 0 {
        Seq::empty()
    } else if parts.len() == 1 {
        parts[0]
    } else {
        join_semi(parts.drop_last()) + "; "@ + parts.last()
    }
}

/// Joins strings with `"; "`.
pub fn join_semicolon(parts: &Vec<String>) -> (r: String)
    ensures
        r@ == join_semi(parts.deep_view()),
{
    let mut acc: Vec<char> = Vec::new();
    let mut i: usize = 0;
    while i < parts.len()
        invariant
            0 <= i <= parts@.len(),
            acc@ == join_semi(parts.deep_view().take(i as int)),
        decreases parts@.len() - i,
    {
        if i > 0 {
            let sep = chars_of("; ");
            push_all(&mut acc, &sep);
        }
        let piece = chars_of(parts[i].as_str());
        push_all(&mut acc, &piece);
        i = i + 1;
        proof {
            let dv = parts.deep_view();
            assert(dv.take(i as int).drop_last() =~= dv.take(i - 1));
            assert(dv.take(i as int).last() == dv[i - 1]);
            assert(dv[i - 1] == parts@[i - 1]@);
        }
    }
    proof {
        assert(parts.deep_view().take(parts@.len() as int) =~= parts.deep_view());
    }
    string_of(&acc)
}

/// What `to_pipeline_identifier` hands the task runner for a recognised
/// identifier of the given kind and canonical spelling.
pub open spec fn spec_pipeline_identifier(kind: Seq<char>, canonical: Seq<char>) -> Option<
    Seq<char>,
> {
    if kind == "doi"@ {
        Some("doi:"@ + canonical)
    } else if kind == "pmid"@ || kind == "arxiv"@ {
        Some(canonical)
    } else if kind == "s2"@ {
        Some("s2:"@ + canonical)
    } else {
        None
    }
}

/// Renders a normalised identifier in the exact spelling the task runner
/// expects. Fails with `InvalidInput` exactly when the identifier carries
/// errors or its kind is unknown.
pub fn to_pipeline_identifier(normalized: &NormalizedIdentifier) -> (r: Result<String, CoreError>)
    ensures
        normalized.errors.deep_view().len() > 0 ==> r is Err && r->Err_0.kind
            == ErrorKind::InvalidInput && r->Err_0.message@ == join_semi(
            normalized.errors.deep_view(),
        ),
        normalized.errors.deep_view().len() == 0 ==> match spec_pipeline_identifier(
            normalized.kind@,
            normalized.canonical@,
        ) {
            Some(text) => r is Ok && r->Ok_0@ == text,
            None => r is Err && r->Err_0.kind == ErrorKind::InvalidInput,
        },
{
    if normalized.errors.len() > 0 {
        proof {
            assert(normalized.errors.deep_view().len() == normalized.errors@.len());
        }
        return Err(
            CoreError::new(ErrorKind::InvalidInput, join_semicolon(&normalized.errors)),
        );
    }
    proof {
        assert(normalized.errors.deep_view().len() == normalized.errors@.len());
    }
    if str_eq(normalized.kind.as_str(), "doi") {
        let body = chars_of(normalized.canonical.as_str());
        Ok(string_of(&concat_lit("doi:", &body)))
    } else if str_eq(normalized.kind.as_str(), "pmid") || str_eq(
        normalized.kind.as_str(),
        "arxiv",
    ) {
        let body = chars_of(normalized.canonical.as_str());
        Ok(string_of(&body))
    } else if str_eq(normalized.kind.as_str(), "s2") {
        let body = chars_of(normalized.canonical.as_str());
        Ok(string_of(&concat_lit("s2:", &body)))
    } else {
        Err(
            CoreError::new(
                ErrorKind::InvalidInput,
                String::from_str("unknown identifier kind"),
            ),
        )
    }
}

/// The source kind read off a canonical identifier, lower-cased: `doi`,
/// `pmid`, `arxiv`, `s2` or `unknown`.
pub open spec fn spec_canonical_kind(s: Seq<char>) -> Seq<char> {
    let l = lower_seq(s);
    if has_prefix(l, "doi:"@) || has_prefix(l, "10."@) {
        "doi"@
    } else if has_prefix(l, "pmid:"@) {
        "pmid"@
    } else if has_prefix(l, "arxiv:"@) {
        "arxiv"@
    } else if has_prefix(l, "s2:"@) || has_prefix(l, "corpusid:"@) || has_prefix(
        l,
        "s2paperid:"@,
    ) {
        "s2"@
    } else {
        "unknown"@
    }
}

/// Classifies a canonical identifier by its prefix; `None` in, `None` out.
pub fn canonical_kind(canonical_id: Option<&String>) -> (r: Option<String>)
    ensures
        match r {
            Some(k) => canonical_id is Some && k@ == spec_canonical_kind(canonical_id->0@),
            None => canonical_id is None,
        },
{
    match canonical_id {
        None => None,
        Some(c) => {
            let cs = chars_of(c.as_str());
            let l = to_lower(&cs);
            let kind: &str = if starts_with_lit(&l, "doi:") || starts_with_lit(&l, "10.") {
                "doi"
            } else if starts_with_lit(&l, "pmid:") {
                "pmid"
            } else if starts_with_lit(&l, "arxiv:") {
                "arxiv"
            } else if starts_with_lit(&l, "s2:") || starts_with_lit(&l, "corpusid:")
                || starts_with_lit(&l, "s2paperid:") {
                "s2"
            } else {
                "unknown"
            };
            Some(String::from_str(kind))
        },
    }
}

/// `starts_with` against a literal prefix.
fn starts_with_lit(v: &Vec<char>, pre: &str) -> (r: bool)
    ensures
        r == has_prefix(v@, pre@),
{
    let p = chars_of(pre);
    let b = starts_with(v, &p);
    proof {
        if b {
            assert(v@.subrange(0, p@.len() as int) =~= v@.take(p@.len() as int));
        } else if has_prefix(v@, pre@) {
            assert(v@.take(p@.len() as int) =~= v@.subrange(0, p@.len() as int));
        }
    }
    b
}

} // verus!
