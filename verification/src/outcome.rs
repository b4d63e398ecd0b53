//! Classification of raw task output into a coarse status, as the process
//! execution adapter hands it over.

use vstd::prelude::*;
use crate::text::{chars_of, contains_seq, contains_sub, lower_seq, push_all, string_of};

verus! {

/// The combined, lower-cased output text the retry scan looks at: stdout,
/// a newline, stderr. Lower-casing is ASCII-only; every pattern the scan
/// matches is ASCII, so only text with non-ASCII cased letters could read
/// differently, and none of the patterns contains such letters.
pub open spec fn spec_combined_output(stdout: Seq<char>, stderr: Seq<char>) -> Seq<char> {
    lower_seq(stdout + "\n"@ + stderr)
}

/// The output carries an explicit retry signal: a rate-limit or retry
/// marker anywhere in the combined text.
pub open spec fn spec_has_retry_signal(all: Seq<char>) -> bool {
    ||| contains_seq(all, "status: needs_retry"@)
    ||| contains_seq(all, "\"status\": \"needs_retry\""@)
    ||| contains_seq(all, "s2_retry_exhausted"@)
    ||| contains_seq(all, "status=429"@)
    ||| contains_seq(all, " 429 "@)
    ||| contains_seq(all, "http 429"@)
    ||| contains_seq(all, "retry exhausted"@)
}

/// The status read off raw task output: `needs_retry` on any explicit retry
/// signal, whatever the exit code; else `error` on a non-zero exit; else
/// `ok`.
pub open spec fn spec_read_status(stdout: Seq<char>, stderr: Seq<char>, exit_code: i32) -> Seq<
    char,
> {
    if spec_has_retry_signal(spec_combined_output(stdout, stderr)) {
        "needs_retry"@
    } else if exit_code != 0 {
        "error"@
    } else {
        "ok"@
    }
}

/// Classifies raw task output. A retry signal wins over the exit code: a
/// rate-limited run maps to `needs_retry` even when the process exited
/// non-zero.
pub fn read_status(stdout: &str, stderr: &str, exit_code: i32) -> (r: String)
    ensures
        r@ == spec_read_status(stdout@, stderr@, exit_code),
{
    let mut all = chars_of(stdout);
    let nl = chars_of("\n");
    push_all(&mut all, &nl);
    let err = chars_of(stderr);
    push_all(&mut all, &err);
    let low = crate::text::to_lower(&all);
    proof {
        assert(low@ == spec_combined_output(stdout@, stderr@));
    }
    let signal = contains_sub(&low, &chars_of("status: needs_retry")) || contains_sub(
        &low,
        &chars_of("\"status\": \"needs_retry\""),
    ) || contains_sub(&low, &chars_of("s2_retry_exhausted")) || contains_sub(
        &low,
        &chars_of("status=429"),
    ) || contains_sub(&low, &chars_of(" 429 ")) || contains_sub(&low, &chars_of("http 429"))
        || contains_sub(&low, &chars_of("retry exhausted"));
    if signal {
        string_of(&chars_of("needs_retry"))
    } else if exit_code != 0 {
        string_of(&chars_of("error"))
    } else {
        string_of(&chars_of("ok"))
    }
}


/// The length of the first line: the prefix before the first newline, or
/// the whole text.
pub open spec fn line_len(s: Seq<char>) -> nat
    decreases s.len(),
{
    if s.len() == 0 || s[0] == '\n' {
        0
    } else {
        1 + line_len(s.drop_first())
    }
}

/// A line never runs past the end of the text.
proof fn lemma_line_len_bound(s: Seq<char>)
    ensures
        line_len(s) <= s.len(),
    decreases s.len(),
{
    if s.len() > 0 && s[0] != '\n' {
        lemma_line_len_bound(s.drop_first());
    }
}

/// The line length is exactly the distance to the first newline.
proof fn lemma_line_len(s: Seq<char>, k: int)
    requires
        0 <= k <= s.len(),
        forall|t: int| 0 <= t < k ==> s[t] != '\n',
        k < s.len() ==> s[k] == '\n',
    ensures
        line_len(s) == k,
    decreases k,
{
    if k > 0 {
        assert(s[0] != '\n');
        lemma_line_len(s.drop_first(), k - 1);
        assert forall|t: int| 0 <= t < k - 1 implies s.drop_first()[t] != '\n' by {
            assert(s.drop_first()[t] == s[t + 1]);
        }
    }
}

/// The first line of the text that is not blank after trimming, trimmed;
/// `None` when every line is blank.
pub open spec fn spec_first_non_empty_line(s: Seq<char>) -> Option<Seq<char>>
    decreases s.len(),
    via first_line_decreases
{
    let k = line_len(s) as int;
    let line = crate::text::trim_spec(s.take(k));
    if line.len() > 0 {
        Some(line)
    } else if k == s.len() {
        None
    } else {
        spec_first_non_empty_line(s.skip(k + 1))
    }
}

#[via_fn]
proof fn first_line_decreases(s: Seq<char>) {
    lemma_line_len_bound(s);
}

/// Finds the first non-blank line of raw output, trimmed: the line used as
/// a short failure message.
pub fn first_non_empty_line(raw: &str) -> (r: Option<String>)
    ensures
        match r {
            Some(line) => spec_first_non_empty_line(raw@) == Some(line@),
            None => spec_first_non_empty_line(raw@) is None,
        },
{
    let cs = chars_of(raw);
    let n = cs.len();
    let mut i: usize = 0;
    proof {
        assert(cs@.skip(0) =~= cs@);
    }
    loop
        invariant
            0 <= i <= n,
            n == cs@.len(),
            spec_first_non_empty_line(raw@) == spec_first_non_empty_line(cs@.skip(i as int)),
        decreases n - i,
    {
        let mut j = i;
        while j < n && cs[j] != '\n'
            invariant
                i <= j <= n,
                n == cs@.len(),
                forall|t: int| i <= t < j ==> cs@[t] != '\n',
            decreases n - j,
        {
            j = j + 1;
        }
        let line_chars = crate::text::copy_range(&cs, i, j);
        let line = crate::text::trim(&line_chars);
        proof {
            let tail = cs@.skip(i as int);
            assert forall|t: int| 0 <= t < (j - i) implies tail[t] != '\n' by {
                assert(tail[t] == cs@[i + t]);
            }
            if (j - i) < tail.len() {
                assert(tail[(j - i) as int] == cs@[j as int]);
            }
            lemma_line_len(tail, j - i);
            assert(tail.take((j - i) as int) =~= cs@.subrange(i as int, j as int));
        }
        if line.len() > 0 {
            return Some(crate::text::string_of(&line));
        }
        if j == n {
            proof {
                let tail = cs@.skip(i as int);
                assert(line_len(tail) == tail.len());
            }
            return None;
        }
        proof {
            let tail = cs@.skip(i as int);
            assert(tail.skip((j - i) as int + 1) =~= cs@.skip(j as int + 1));
        }
        i = j + 1;
    }
}

} // verus!
