//! Sandboxing of HTML artifacts for safe preview: script removal, external
//! reference detection, and the CSP-wrapped preview document.

use vstd::prelude::*;
use crate::identifier::{first_ix, is_first_match, lemma_first_exists, lemma_first_match_unique};
use crate::text::{
    chars_of, contains_seq, contains_sub, copy_range, find_sub, lower_seq, push_all, string_of,
    to_lower,
};

verus! {

/// The text holds an opening script tag, in any case.
pub open spec fn has_script_tag(s: Seq<char>) -> bool {
    contains_seq(lower_seq(s), "<script"@)
}

/// `s` with every `<script ... </script>` span removed, scanning case
/// insensitively from the front; an unterminated script tag is cut to the
/// end of the text.
pub open spec fn strip_scripts(s: Seq<char>) -> Seq<char>
    decreases s.len(),
    via strip_scripts_decreases
{
    if !has_script_tag(s) {
        s
    } else {
        let i = first_ix(lower_seq(s), "<script"@);
        let rest = s.skip(i);
        if contains_seq(lower_seq(rest), "</script>"@) {
            let e = first_ix(lower_seq(rest), "</script>"@);
            s.take(i) + strip_scripts(rest.skip(e + "</script>"@.len()))
        } else {
            s.take(i)
        }
    }
}

#[via_fn]
proof fn strip_scripts_decreases(s: Seq<char>) {
    if has_script_tag(s) {
        let w = choose|j: int| crate::text::match_at(lower_seq(s), "<script"@, j);
        lemma_first_exists(lower_seq(s), "<script"@, w);
        let i = first_ix(lower_seq(s), "<script"@);
        assert(is_first_match(lower_seq(s), "<script"@, i)) by {
            assert(exists|j: int| is_first_match(lower_seq(s), "<script"@, j));
        }
        let rest = s.skip(i);
        if contains_seq(lower_seq(rest), "</script>"@) {
            let w2 = choose|j: int| crate::text::match_at(lower_seq(rest), "</script>"@, j);
            lemma_first_exists(lower_seq(rest), "</script>"@, w2);
            let e = first_ix(lower_seq(rest), "</script>"@);
            assert(is_first_match(lower_seq(rest), "</script>"@, e)) by {
                assert(exists|j: int| is_first_match(lower_seq(rest), "</script>"@, j));
            }
            assert("<script"@.len() > 0) by {
                reveal_strlit("<script");
            }
            assert("</script>"@.len() == 9) by {
                reveal_strlit("</script>");
            }
        }
    }
}

/// Removes every script span of `v`. Returns the cleaned text and whether
/// anything was removed.
pub fn strip_script_tags(v: &Vec<char>) -> (r: (Vec<char>, bool))
    ensures
        r.0@ == strip_scripts(v@),
        r.1 == has_script_tag(v@),
    decreases v@.len(),
{
    let low = to_lower(v);
    let open_pat = chars_of("<script");
    match find_sub(&low, &open_pat) {
        None => {
            let out = copy_range(v, 0, v.len());
            proof {
                assert(out@ =~= v@);
            }
            (out, false)
        },
        Some(i) => {
            proof {
                assert(is_first_match(lower_seq(v@), "<script"@, i as int));
                assert(is_first_match(
                    lower_seq(v@),
                    "<script"@,
                    first_ix(lower_seq(v@), "<script"@),
                )) by {
                    assert(exists|j: int| is_first_match(lower_seq(v@), "<script"@, j));
                }
                lemma_first_match_unique(
                    lower_seq(v@),
                    "<script"@,
                    i as int,
                    first_ix(lower_seq(v@), "<script"@),
                );
            }
            let rest = copy_range(v, i, v.len());
            proof {
                assert(rest@ =~= v@.skip(i as int));
            }
            let rest_low = to_lower(&rest);
            let close_pat = chars_of("</script>");
            match find_sub(&rest_low, &close_pat) {
                None => {
                    let out = copy_range(v, 0, i);
                    proof {
                        assert(out@ =~= v@.take(i as int));
                    }
                    (out, true)
                },
                Some(e) => {
                    proof {
                        assert(is_first_match(lower_seq(rest@), "</script>"@, e as int));
                        assert(is_first_match(
                            lower_seq(rest@),
                            "</script>"@,
                            first_ix(lower_seq(rest@), "</script>"@),
                        )) by {
                            assert(exists|j: int|
                                is_first_match(lower_seq(rest@), "</script>"@, j));
                        }
                        lemma_first_match_unique(
                            lower_seq(rest@),
                            "</script>"@,
                            e as int,
                            first_ix(lower_seq(rest@), "</script>"@),
                        );
                    }
                    let cut = e + close_pat.len();
                    let tail = copy_range(&rest, cut, rest.len());
                    proof {
                        assert(tail@ =~= rest@.skip(cut as int));
                        assert("</script>"@.len() == 9) by {
                            reveal_strlit("</script>");
                        }
                        assert(tail@.len() < v@.len());
                    }
                    let (stripped_tail, _removed) = strip_script_tags(&tail);
                    let mut out = copy_range(v, 0, i);
                    push_all(&mut out, &stripped_tail);
                    proof {
                        assert(out@ =~= v@.take(i as int) + strip_scripts(
                            v@.skip(i as int).skip((e + "</script>"@.len()) as int),
                        ));
                    }
                    (out, true)
                },
            }
        },
    }
}

/// The text references an external resource: a `src` or `href` pointing at
/// a network or javascript URL.
pub open spec fn spec_has_external_refs(s: Seq<char>) -> bool {
    let l = lower_seq(s);
    ||| contains_seq(l, "src=\"http://"@)
    ||| contains_seq(l, "src=\"https://"@)
    ||| contains_seq(l, "src=\"//"@)
    ||| contains_seq(l, "src='http://"@)
    ||| contains_seq(l, "src='https://"@)
    ||| contains_seq(l, "src='//"@)
    ||| contains_seq(l, "href=\"http://"@)
    ||| contains_seq(l, "href=\"https://"@)
    ||| contains_seq(l, "href=\"//"@)
    ||| contains_seq(l, "href='http://"@)
    ||| contains_seq(l, "href='https://"@)
    ||| contains_seq(l, "href='//"@)
    ||| contains_seq(l, "href=\"javascript:"@)
    ||| contains_seq(l, "href='javascript:"@)
}

/// True when the text references an external resource.
pub fn contains_external_refs(v: &Vec<char>) -> (r: bool)
    ensures
        r == spec_has_external_refs(v@),
{
    let l = to_lower(v);
    contains_sub(&l, &chars_of("src=\"http://")) || contains_sub(&l, &chars_of("src=\"https://"))
        || contains_sub(&l, &chars_of("src=\"//")) || contains_sub(
        &l,
        &chars_of("src='http://"),
    ) || contains_sub(&l, &chars_of("src='https://")) || contains_sub(&l, &chars_of("src='//"))
        || contains_sub(&l, &chars_of("href=\"http://")) || contains_sub(
        &l,
        &chars_of("href=\"https://"),
    ) || contains_sub(&l, &chars_of("href=\"//")) || contains_sub(&l, &chars_of("href='http://"))
        || contains_sub(&l, &chars_of("href='https://")) || contains_sub(
        &l,
        &chars_of("href='//"),
    ) || contains_sub(&l, &chars_of("href=\"javascript:")) || contains_sub(
        &l,
        &chars_of("href='javascript:"),
    )
}

/// The content-security policy of a sandboxed preview.
pub open spec fn spec_csp() -> Seq<char> {
    "default-src 'none'; img-src data:; style-src 'unsafe-inline'; script-src 'none'; connect-src 'none'; frame-ancestors 'none'; form-action 'none'; navigate-to 'none'"@
}

/// The warnings a sandboxed preview carries.
pub open spec fn spec_sandbox_warnings(raw: Seq<char>) -> Seq<Seq<char>> {
    let w0: Seq<Seq<char>> = Seq::empty();
    let w1: Seq<Seq<char>> = if has_script_tag(raw) {
        w0.push("scripts were removed for safe preview"@)
    } else {
        w0
    };
    if spec_has_external_refs(strip_scripts(raw)) {
        w1.push("external refs detected; CSP blocks network/navigation"@)
    } else {
        w1
    }
}

/// The banner shown above a preview that carries warnings.
pub open spec fn spec_banner(warnings: Seq<Seq<char>>) -> Seq<char> {
    if warnings.len() == 0 {
        Seq::empty()
    } else {
        "<div style=\"padding:8px;border:1px solid #d6b36a;background:#fff8e6;color:#6f4a00;font:12px sans-serif;\">"@
            + crate::text::join_with(warnings, " | "@) + "</div>"@
    }
}

/// The full sandboxed preview document.
pub open spec fn spec_sandboxed_html(raw: Seq<char>) -> Seq<char> {
    "<!doctype html><html><head><meta charset=\"utf-8\"><meta http-equiv=\"Content-Security-Policy\" content=\""@
        + spec_csp() + "\"></head><body>"@ + spec_banner(spec_sandbox_warnings(raw))
        + strip_scripts(raw) + "</body></html>"@
}

/// Builds the sandboxed preview of raw HTML: scripts removed, a restrictive
/// CSP installed, and a warning banner when anything was removed or an
/// external reference remains.
pub fn build_sandboxed_html(raw: &str) -> (r: (String, Vec<String>))
    ensures
        r.0@ == spec_sandboxed_html(raw@),
        r.1.deep_view() == spec_sandbox_warnings(raw@),
{
    let rv = chars_of(raw);
    let (without_scripts, removed) = strip_script_tags(&rv);
    let has_ext = contains_external_refs(&without_scripts);
    let mut warnings: Vec<String> = Vec::new();
    if removed {
        warnings.push(crate::text::string_of(&chars_of("scripts were removed for safe preview")));
    }
    if has_ext {
        warnings.push(
            crate::text::string_of(
                &chars_of("external refs detected; CSP blocks network/navigation"),
            ),
        );
    }
    proof {
        assert(warnings.deep_view() =~~= spec_sandbox_warnings(raw@));
    }
    let mut content = chars_of(
        "<!doctype html><html><head><meta charset=\"utf-8\"><meta http-equiv=\"Content-Security-Policy\" content=\"",
    );
    let csp = chars_of(
        "default-src 'none'; img-src data:; style-src 'unsafe-inline'; script-src 'none'; connect-src 'none'; frame-ancestors 'none'; form-action 'none'; navigate-to 'none'",
    );
    push_all(&mut content, &csp);
    let mid = chars_of("\"></head><body>");
    push_all(&mut content, &mid);
    if warnings.len() > 0 {
        let open_div = chars_of(
            "<div style=\"padding:8px;border:1px solid #d6b36a;background:#fff8e6;color:#6f4a00;font:12px sans-serif;\">",
        );
        push_all(&mut content, &open_div);
        let joined = crate::text::join_with_exec(&warnings, " | ");
        let jv = chars_of(joined.as_str());
        push_all(&mut content, &jv);
        let close_div = chars_of("</div>");
        push_all(&mut content, &close_div);
    }
    push_all(&mut content, &without_scripts);
    let tail = chars_of("</body></html>");
    push_all(&mut content, &tail);
    proof {
        assert(content@ =~= spec_sandboxed_html(raw@));
    }
    (string_of(&content), warnings)
}


/// `needle` occurs in `hay` at `i`, comparing ASCII case-insensitively.
pub open spec fn ci_match_at(hay: Seq<char>, needle: Seq<char>, i: int) -> bool {
    crate::text::match_at(lower_seq(hay), lower_seq(needle), i)
}

/// Finds the first case-insensitive occurrence of `needle` in `hay`.
pub fn find_ascii_nocase(hay: &Vec<char>, needle: &Vec<char>) -> (r: Option<usize>)
    ensures
        match r {
            Some(i) => ci_match_at(hay@, needle@, i as int) && (forall|j: int|
                0 <= j < i ==> !ci_match_at(hay@, needle@, j)),
            None => forall|j: int| !ci_match_at(hay@, needle@, j),
        },
{
    let lh = to_lower(hay);
    let ln = to_lower(needle);
    find_sub(&lh, &ln)
}

} // verus!
