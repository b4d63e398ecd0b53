//! The backoff formula of the auto-retry scheduler.
//!
//! All instants and delays are integer milliseconds since the Unix epoch. A
//! retry-after hint supplied by the failing task is likewise carried in
//! milliseconds.

use vstd::prelude::*;
use crate::settings::DesktopSettings;
use crate::text::{all_digits, chars_of, dec_value, parse_u64_chars};

verus! {

/// Two to the power `e`.
pub open spec fn pow2n(e: nat) -> nat
    decreases e,
{
    if e == 0 {
        1
    } else {
        2 * pow2n((e - 1) as nat)
    }
}

/// Addition capped at `u64::MAX`.
pub open spec fn sat_add_u64(a: int, b: int) -> int {
    if a + b > u64::MAX {
        u64::MAX as int
    } else {
        a + b
    }
}

/// Multiplication capped at `u64::MAX`.
pub open spec fn sat_mul_u64(a: int, b: int) -> int {
    if a * b > u64::MAX {
        u64::MAX as int
    } else {
        a * b
    }
}

/// The backoff delay in milliseconds for the upcoming auto-retry attempt
/// (`attempt_index` is one-based). With a hint, the delay is the hint capped
/// at the maximum delay; without one it is the base delay doubled per prior
/// attempt (the exponent capped at 31) and capped at the maximum delay.
pub open spec fn spec_backoff_delay_ms(
    retry_after_ms: Option<u64>,
    attempt_index: u32,
    settings: DesktopSettings,
) -> int {
    let max_ms = sat_mul_u64(settings.auto_retry_max_delay_seconds as int, 1000);
    match retry_after_ms {
        Some(hint) => if hint as int <= max_ms {
            hint as int
        } else {
            max_ms
        },
        None => {
            let exp: nat = if attempt_index == 0 {
                0
            } else if attempt_index - 1 < 31 {
                (attempt_index - 1) as nat
            } else {
                31
            };
            let raw = sat_mul_u64(
                settings.auto_retry_base_delay_seconds as int,
                pow2n(exp) as int,
            );
            let capped = if raw <= settings.auto_retry_max_delay_seconds as int {
                raw
            } else {
                settings.auto_retry_max_delay_seconds as int
            };
            sat_mul_u64(capped, 1000)
        },
    }
}

/// The absolute instant of the next retry: now plus the backoff delay.
pub open spec fn spec_next_retry_at_ms(
    now_ms: u64,
    retry_after_ms: Option<u64>,
    attempt_index: u32,
    settings: DesktopSettings,
) -> int {
    sat_add_u64(now_ms as int, spec_backoff_delay_ms(retry_after_ms, attempt_index, settings))
}

/// Multiplies, saturating at `u64::MAX`.
fn sat_mul(a: u64, b: u64) -> (r: u64)
    ensures
        r as int == sat_mul_u64(a as int, b as int),
{
    match a.checked_mul(b) {
        Some(x) => x,
        None => u64::MAX,
    }
}

/// Computes the instant of the next automatic retry. Pure and deterministic
/// in its arguments: the same time, hint, attempt index and settings always
/// give the same instant.
pub fn compute_next_retry_at_ms(
    now_ms: u64,
    retry_after_ms: Option<u64>,
    attempt_index: u32,
    settings: &DesktopSettings,
) -> (r: u64)
    ensures
        r as int == spec_next_retry_at_ms(now_ms, retry_after_ms, attempt_index, *settings),
        r >= now_ms,
{
    let max_ms = sat_mul(settings.auto_retry_max_delay_seconds, 1000);
    let delay_ms: u64 = match retry_after_ms {
        Some(hint) => if hint <= max_ms {
            hint
        } else {
            max_ms
        },
        None => {
            let exp: u32 = if attempt_index == 0 {
                0
            } else if attempt_index - 1 < 31 {
                attempt_index - 1
            } else {
                31
            };
            let mut factor: u64 = 1;
            let mut k: u32 = 0;
            while k < exp
                invariant
                    0 <= k <= exp <= 31,
                    factor as int == pow2n(k as nat),
                    factor <= 0x8000_0000u64,
                decreases exp - k,
            {
                proof {
                    assert(pow2n((k + 1) as nat) == 2 * pow2n(k as nat));
                    lemma_pow2n_bound((k + 1) as nat);
                }
                factor = factor * 2;
                k = k + 1;
            }
            let raw = sat_mul(settings.auto_retry_base_delay_seconds, factor);
            let capped = if raw <= settings.auto_retry_max_delay_seconds {
                raw
            } else {
                settings.auto_retry_max_delay_seconds
            };
            sat_mul(capped, 1000)
        },
    };
    now_ms.saturating_add(delay_ms)
}

/// `pow2n` of an exponent up to 31 stays below `2^31`.
proof fn lemma_pow2n_bound(e: nat)
    requires
        e <= 31,
    ensures
        pow2n(e) <= 0x8000_0000,
{
    lemma_pow2n_le(e, 31);
    reveal_with_fuel(pow2n, 33);
    assert(pow2n(31) == 0x8000_0000);
}

/// `pow2n` is monotone.
proof fn lemma_pow2n_le(a: nat, b: nat)
    requires
        a <= b,
    ensures
        pow2n(a) <= pow2n(b),
    decreases b,
{
    if a < b {
        lemma_pow2n_le(a, (b - 1) as nat);
    }
}

/// Reads a persisted retry instant. The field is a decimal string of epoch
/// milliseconds; anything else, the empty string included, reads as absent.
pub fn parse_retry_at_ms(text: Option<&String>) -> (r: Option<u64>)
    ensures
        match r {
            Some(n) => text is Some && {
                let s = trimmed_view(text->0@);
                s.len() > 0 && all_digits(s) && n as nat == dec_value(s)
            },
            None => text is None || {
                let s = trimmed_view(text->0@);
                s.len() == 0 || !all_digits(s) || dec_value(s) > u64::MAX
            },
        },
{
    match text {
        None => None,
        Some(raw) => {
            let cs = chars_of(raw.as_str());
            let t = crate::text::trim(&cs);
            parse_u64_chars(&t)
        },
    }
}

/// The whitespace-trimmed view of a retry-at field.
pub open spec fn trimmed_view(s: Seq<char>) -> Seq<char> {
    crate::text::trim_spec(s)
}

} // verus!
