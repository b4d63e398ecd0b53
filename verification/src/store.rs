//! The schema-versioned store envelope: version gating for loads and
//! saves, the migration chain, and the fixed layout of the store files.
//!
//! The host performs the actual file reads and writes (atomically: to a
//! temporary file, then a rename); this module owns every decision about a
//! document's schema version.

use vstd::prelude::*;
use vstd::string::StringExecFns;
use crate::errors::{CoreError, ErrorKind};
use crate::text::{chars_of, push_all, string_of, u64_to_chars};

verus! {

/// The schema version this build reads and writes.
pub const SCHEMA_VERSION: u32 = 1;

/// The `schema_version` field of a persisted JSON document: `None` when the
/// text is not a JSON object, `Some(None)` when the field is absent or not
/// an unsigned number, and `Some(Some(n))` when it is `n`. A function of
/// the text alone.
pub uninterp spec fn doc_schema_version(text: Seq<char>) -> Option<Option<u64>>;

/// Relies on `serde_json::from_str`, `serde_json::Value::get` and
/// `serde_json::Value::as_u64`: parses the document and reads only its
/// top-level `schema_version` field, reported through `doc_schema_version`.
#[verifier::external_body]
fn read_schema_version(text: &str) -> (r: Result<Option<u64>, ()>)
    ensures
        match r {
            Ok(v) => doc_schema_version(text@) == Some(v),
            Err(_) => doc_schema_version(text@) == None::<Option<u64>>,
        },
{
    let value: serde_json::Value = match serde_json::from_str(text) {
        Ok(v) => v,
        Err(_) => return Err(()),
    };
    if !value.is_object() {
        return Err(());
    }
    match value.get("schema_version") {
        Some(v) => match v.as_u64() {
            Some(n) => Ok(Some(n)),
            None => Ok(None),
        },
        None => Ok(None),
    }
}

/// What the load gate decides for a version field: absent means the legacy
/// version one; a version beyond the supported one refuses the load; any
/// version at or below it is returned for the migration chain.
pub open spec fn spec_load_gate(field: Option<u64>) -> Result<u32, ErrorKind> {
    match field {
        None => Ok(1u32),
        Some(n) => if n > SCHEMA_VERSION as u64 {
            Err(ErrorKind::SchemaUnsupported)
        } else {
            Ok(n as u32)
        },
    }
}

/// Gates a document load on its schema version. A document that is not a
/// JSON object fails with `PersistenceFailure`; one with a
/// `schema_version` beyond the supported version fails with
/// `SchemaUnsupported` (the subsystem is then read-only); an absent field
/// reads as the legacy version one.
pub fn evaluate_load_gate(text: &str) -> (r: Result<u32, CoreError>)
    ensures
        match r {
            Ok(v) => doc_schema_version(text@) matches Some(f) && spec_load_gate(f)
                == Ok::<u32, ErrorKind>(v) && v <= SCHEMA_VERSION,
            Err(e) => match doc_schema_version(text@) {
                None => e.kind == ErrorKind::PersistenceFailure && e.message@
                    == "failed to parse store document: root must be an object"@,
                Some(f) => e.kind == ErrorKind::SchemaUnsupported && spec_load_gate(f)
                    == Err::<u32, ErrorKind>(ErrorKind::SchemaUnsupported) && (f matches Some(
                    n,
                ) && e.message@ == "store document has unsupported schema_version="@
                    + crate::text::dec_digits(n as nat) + "; subsystem is read-only"@),
            },
        },
{
    let field = match read_schema_version(text) {
        Err(_) => {
            return Err(
                CoreError::new(
                    ErrorKind::PersistenceFailure,
                    String::from_str("failed to parse store document: root must be an object"),
                ),
            );
        },
        Ok(f) => f,
    };
    match field {
        None => Ok(1),
        Some(n) => {
            if n > (SCHEMA_VERSION as u64) {
                let mut msg = chars_of("store document has unsupported schema_version=");
                let nd = u64_to_chars(n);
                push_all(&mut msg, &nd);
                let tail = chars_of("; subsystem is read-only");
                push_all(&mut msg, &tail);
                proof {
                    assert(msg@ =~= "store document has unsupported schema_version="@
                        + crate::text::dec_digits(n as nat) + "; subsystem is read-only"@);
                }
                return Err(CoreError::new(ErrorKind::SchemaUnsupported, string_of(&msg)));
            }
            Ok(n as u32)
        },
    }
}

/// Gates a save on the version of the document already on disk: saving
/// over a newer-schema document is refused, so an older build never
/// silently downgrades it. `None` means no document exists yet, which is
/// always writable.
pub fn ensure_schema_writable(existing_text: Option<&str>) -> (r: Result<(), CoreError>)
    ensures
        match r {
            Ok(_) => match existing_text {
                None => true,
                Some(t) => doc_schema_version(t@) matches Some(f) && spec_load_gate(f) is Ok,
            },
            Err(e) => existing_text matches Some(t) && match doc_schema_version(t@) {
                None => e.kind == ErrorKind::PersistenceFailure && e.message@
                    == "failed to parse store document: root must be an object"@,
                Some(f) => e.kind == ErrorKind::SchemaUnsupported && spec_load_gate(f)
                    == Err::<u32, ErrorKind>(ErrorKind::SchemaUnsupported) && (f matches Some(
                    n,
                ) && e.message@ == "store document has unsupported schema_version="@
                    + crate::text::dec_digits(n as nat) + "; refusing to modify"@),
            },
        },
{
    let text = match existing_text {
        None => {
            return Ok(());
        },
        Some(t) => t,
    };
    let field = match read_schema_version(text) {
        Err(_) => {
            return Err(
                CoreError::new(
                    ErrorKind::PersistenceFailure,
                    String::from_str("failed to parse store document: root must be an object"),
                ),
            );
        },
        Ok(f) => f,
    };
    match field {
        None => Ok(()),
        Some(n) => {
            if n > (SCHEMA_VERSION as u64) {
                let mut msg = chars_of("store document has unsupported schema_version=");
                let nd = u64_to_chars(n);
                push_all(&mut msg, &nd);
                let tail = chars_of("; refusing to modify");
                push_all(&mut msg, &tail);
                proof {
                    assert(msg@ =~= "store document has unsupported schema_version="@
                        + crate::text::dec_digits(n as nat) + "; refusing to modify"@);
                }
                return Err(CoreError::new(ErrorKind::SchemaUnsupported, string_of(&msg)));
            }
            Ok(())
        },
    }
}

/// One step of the strictly additive migration chain. The only shipped
/// step, from version one to version two, is a pass-through reserved for
/// future layout changes; any other step does not exist.
pub fn migrate_schema_step(from_version: u32, to_version: u32) -> (r: Result<(), CoreError>)
    ensures
        r is Ok <==> (from_version == 1 && to_version == 2),
        r is Err ==> r->Err_0.kind == ErrorKind::SchemaUnsupported,
{
    if from_version == 1 && to_version == 2 {
        Ok(())
    } else {
        Err(
            CoreError::new(
                ErrorKind::SchemaUnsupported,
                String::from_str("no migration path between these schema versions"),
            ),
        )
    }
}

/// The migration plan for a loaded document: the versions to walk through,
/// one at a time, from the loaded version up to the supported one. A
/// document already at the supported version needs no steps.
pub fn migration_steps(loaded_version: u32) -> (r: Vec<(u32, u32)>)
    requires
        1 <= loaded_version <= SCHEMA_VERSION,
    ensures
        r@.len() == SCHEMA_VERSION - loaded_version,
        forall|i: int|
            0 <= i < r@.len() ==> (#[trigger] r@[i]).0 == loaded_version + i && r@[i].1
                == loaded_version + i + 1,
{
    let mut steps: Vec<(u32, u32)> = Vec::new();
    let mut v: u32 = loaded_version;
    while v < SCHEMA_VERSION
        invariant
            loaded_version <= v <= SCHEMA_VERSION,
            steps@.len() == v - loaded_version,
            forall|i: int|
                0 <= i < steps@.len() ==> (#[trigger] steps@[i]).0 == loaded_version + i
                    && steps@[i].1 == loaded_version + i + 1,
        decreases SCHEMA_VERSION - v,
    {
        steps.push((v, v + 1));
        v = v + 1;
    }
    steps
}

/// The store directory inside the output directory.
pub fn store_dir_path(out_dir: &str) -> (r: String)
    ensures
        r@ == out_dir@ + "/.jarvis-desktop"@,
{
    let mut p = chars_of(out_dir);
    let tail = chars_of("/.jarvis-desktop");
    push_all(&mut p, &tail);
    string_of(&p)
}

/// The jobs document.
pub fn jobs_file_path(out_dir: &str) -> (r: String)
    ensures
        r@ == out_dir@ + "/.jarvis-desktop/jobs.json"@,
{
    let mut p = chars_of(out_dir);
    let tail = chars_of("/.jarvis-desktop/jobs.json");
    push_all(&mut p, &tail);
    string_of(&p)
}

/// The pipelines document.
pub fn pipelines_file_path(out_dir: &str) -> (r: String)
    ensures
        r@ == out_dir@ + "/.jarvis-desktop/pipelines.json"@,
{
    let mut p = chars_of(out_dir);
    let tail = chars_of("/.jarvis-desktop/pipelines.json");
    push_all(&mut p, &tail);
    string_of(&p)
}

/// The settings document.
pub fn settings_file_path(out_dir: &str) -> (r: String)
    ensures
        r@ == out_dir@ + "/.jarvis-desktop/settings.json"@,
{
    let mut p = chars_of(out_dir);
    let tail = chars_of("/.jarvis-desktop/settings.json");
    push_all(&mut p, &tail);
    string_of(&p)
}

/// The append-only audit log.
pub fn audit_jsonl_path(out_dir: &str) -> (r: String)
    ensures
        r@ == out_dir@ + "/.jarvis-desktop/audit.jsonl"@,
{
    let mut p = chars_of(out_dir);
    let tail = chars_of("/.jarvis-desktop/audit.jsonl");
    push_all(&mut p, &tail);
    string_of(&p)
}

/// The library index.
pub fn library_jsonl_path(out_dir: &str) -> (r: String)
    ensures
        r@ == out_dir@ + "/.jarvis-desktop/library.jsonl"@,
{
    let mut p = chars_of(out_dir);
    let tail = chars_of("/.jarvis-desktop/library.jsonl");
    push_all(&mut p, &tail);
    string_of(&p)
}

/// The library index metadata.
pub fn library_meta_path(out_dir: &str) -> (r: String)
    ensures
        r@ == out_dir@ + "/.jarvis-desktop/library_meta.json"@,
{
    let mut p = chars_of(out_dir);
    let tail = chars_of("/.jarvis-desktop/library_meta.json");
    push_all(&mut p, &tail);
    string_of(&p)
}


/// The decimal text of a boolean JSON value.
pub open spec fn spec_bool_text(b: bool) -> Seq<char> {
    if b {
        "true"@
    } else {
        "false"@
    }
}

/// The exact text of a persisted settings document: the version envelope
/// around the settings record, every field in a fixed order.
pub open spec fn spec_settings_document(s: crate::settings::DesktopSettings) -> Seq<char> {
    "{\"schema_version\":1,\"settings\":{\"auto_retry_enabled\":"@ + spec_bool_text(
        s.auto_retry_enabled,
    ) + ",\"auto_retry_max_per_job\":"@ + crate::text::dec_digits(s.auto_retry_max_per_job as nat)
        + ",\"auto_retry_max_per_pipeline\":"@ + crate::text::dec_digits(
        s.auto_retry_max_per_pipeline as nat,
    ) + ",\"auto_retry_max_delay_seconds\":"@ + crate::text::dec_digits(
        s.auto_retry_max_delay_seconds as nat,
    ) + ",\"auto_retry_base_delay_seconds\":"@ + crate::text::dec_digits(
        s.auto_retry_base_delay_seconds as nat,
    ) + "}}"@
}

/// Renders the settings document exactly as the store persists it: the
/// schema-version envelope with every policy field. What this writes, a
/// JSON reader loads back field for field; the host only puts the bytes on
/// disk atomically.
pub fn encode_settings_document(s: &crate::settings::DesktopSettings) -> (r: String)
    ensures
        r@ == spec_settings_document(*s),
{
    let mut out = chars_of("{\"schema_version\":1,\"settings\":{\"auto_retry_enabled\":");
    let flag = if s.auto_retry_enabled {
        chars_of("true")
    } else {
        chars_of("false")
    };
    push_all(&mut out, &flag);
    let p1 = chars_of(",\"auto_retry_max_per_job\":");
    push_all(&mut out, &p1);
    push_all(&mut out, &u64_to_chars(s.auto_retry_max_per_job as u64));
    let p2 = chars_of(",\"auto_retry_max_per_pipeline\":");
    push_all(&mut out, &p2);
    push_all(&mut out, &u64_to_chars(s.auto_retry_max_per_pipeline as u64));
    let p3 = chars_of(",\"auto_retry_max_delay_seconds\":");
    push_all(&mut out, &p3);
    push_all(&mut out, &u64_to_chars(s.auto_retry_max_delay_seconds));
    let p4 = chars_of(",\"auto_retry_base_delay_seconds\":");
    push_all(&mut out, &p4);
    push_all(&mut out, &u64_to_chars(s.auto_retry_base_delay_seconds));
    let p5 = chars_of("}}");
    push_all(&mut out, &p5);
    proof {
        assert(out@ =~= spec_settings_document(*s));
    }
    string_of(&out)
}

} // verus!
