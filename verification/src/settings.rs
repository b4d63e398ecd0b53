//! The process-wide auto-retry policy record.

use vstd::prelude::*;
use vstd::string::StringExecFns;
use crate::errors::{CoreError, ErrorKind};

verus! {

/// Persisted, versioned settings controlling the auto-retry scheduler.
#[derive(Clone, Copy, Debug)]
pub struct DesktopSettings {
    /// Master switch; when false the scheduler never acts.
    pub auto_retry_enabled: bool,
    /// Budget of scheduler-initiated retries per job.
    pub auto_retry_max_per_job: u32,
    /// Budget of scheduler-initiated retries per pipeline.
    pub auto_retry_max_per_pipeline: u32,
    /// Upper bound on a computed backoff delay, in seconds.
    pub auto_retry_max_delay_seconds: u64,
    /// First backoff delay, in seconds; later attempts double it.
    pub auto_retry_base_delay_seconds: u64,
}

impl Default for DesktopSettings {
    /// The defaults written back when no settings document exists.
    fn default() -> (r: Self)
        ensures
            r.auto_retry_enabled == false,
            r.auto_retry_max_per_job == 2,
            r.auto_retry_max_per_pipeline == 3,
            r.auto_retry_max_delay_seconds == 3600,
            r.auto_retry_base_delay_seconds == 30,
    {
        DesktopSettings {
            auto_retry_enabled: false,
            auto_retry_max_per_job: 2,
            auto_retry_max_per_pipeline: 3,
            auto_retry_max_delay_seconds: 3600,
            auto_retry_base_delay_seconds: 30,
        }
    }
}

/// Every numeric bound of a settings update must be at least one.
pub open spec fn spec_settings_valid(s: DesktopSettings) -> bool {
    s.auto_retry_max_per_job >= 1 && s.auto_retry_max_per_pipeline >= 1
        && s.auto_retry_base_delay_seconds >= 1 && s.auto_retry_max_delay_seconds >= 1
}

/// Accepts a settings update, or rejects it with `InvalidInput` exactly when
/// one of the numeric bounds is zero.
pub fn validate_settings(s: &DesktopSettings) -> (r: Result<(), CoreError>)
    ensures
        r is Ok <==> spec_settings_valid(*s),
        r is Err ==> r->Err_0.kind == ErrorKind::InvalidInput,
{
    if s.auto_retry_max_per_job == 0 {
        return Err(
            CoreError::new(
                ErrorKind::InvalidInput,
                String::from_str("auto_retry_max_per_job must be >= 1"),
            ),
        );
    }
    if s.auto_retry_max_per_pipeline == 0 {
        return Err(
            CoreError::new(
                ErrorKind::InvalidInput,
                String::from_str("auto_retry_max_per_pipeline must be >= 1"),
            ),
        );
    }
    if s.auto_retry_base_delay_seconds == 0 {
        return Err(
            CoreError::new(
                ErrorKind::InvalidInput,
                String::from_str("auto_retry_base_delay_seconds must be >= 1"),
            ),
        );
    }
    if s.auto_retry_max_delay_seconds == 0 {
        return Err(
            CoreError::new(
                ErrorKind::InvalidInput,
                String::from_str("auto_retry_max_delay_seconds must be >= 1"),
            ),
        );
    }
    Ok(())
}

} // verus!
