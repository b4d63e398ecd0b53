//! Artifact classification and the primary-visualisation choice.

use vstd::prelude::*;
use vstd::string::StringExecFns;
use crate::errors::{CoreError, ErrorKind};
use crate::text::{
    chars_of, chars_lt, contains_seq, contains_sub, ends_with, lex_lt, lower_seq, string_of,
    to_lower, trim_spec,
};

verus! {

broadcast use vstd::string::group_string_axioms;

/// A reference to the artifact a run is best shown by.
#[derive(Debug)]
pub struct PrimaryVizRef {
    pub name: String,
    pub kind: String,
}

impl PrimaryVizRef {
    /// An equal copy.
    pub fn duplicate(&self) -> (r: PrimaryVizRef)
        ensures
            r == *self,
    {
        PrimaryVizRef { name: self.name.clone(), kind: self.kind.clone() }
    }
}


/// `suffix` ends the sequence.
pub open spec fn has_suffix(s: Seq<char>, suf: Seq<char>) -> bool {
    suf.len() <= s.len() && s.subrange(s.len() - suf.len(), s.len() as int) == suf
}

/// The artifact kind read off a file name alone: by its extension, case
/// insensitively.
pub open spec fn spec_kind_by_name(name: Seq<char>) -> Seq<char> {
    let l = lower_seq(name);
    if has_suffix(l, ".md"@) {
        "markdown"@
    } else if has_suffix(l, ".html"@) || has_suffix(l, ".htm"@) {
        "html"@
    } else if has_suffix(l, ".json"@) {
        "json"@
    } else if has_suffix(l, ".log"@) || has_suffix(l, ".txt"@) {
        "text"@
    } else {
        "unknown"@
    }
}

/// `ends_with` against a literal suffix.
fn ends_with_lit(v: &Vec<char>, suf: &str) -> (r: bool)
    ensures
        r == has_suffix(v@, suf@),
{
    let sc = chars_of(suf);
    let b = ends_with(v, &sc);
    proof {
        if b {
            assert(v@.subrange(v@.len() - sc@.len(), v@.len() as int) == suf@);
        }
    }
    b
}

/// Classifies an artifact by its file name extension.
pub fn detect_artifact_kind_by_name(name: &str) -> (r: String)
    ensures
        r@ == spec_kind_by_name(name@),
{
    let l = to_lower(&chars_of(name));
    let kind: &str = if ends_with_lit(&l, ".md") {
        "markdown"
    } else if ends_with_lit(&l, ".html") || ends_with_lit(&l, ".htm") {
        "html"
    } else if ends_with_lit(&l, ".json") {
        "json"
    } else if ends_with_lit(&l, ".log") || ends_with_lit(&l, ".txt") {
        "text"
    } else {
        "unknown"
    };
    String::from_str(kind)
}

/// The name suggests a graph artifact: it mentions graph, map or viz.
pub open spec fn spec_probable_graph_name(name: Seq<char>) -> bool {
    let l = lower_seq(name);
    contains_seq(l, "graph"@) || contains_seq(l, "map"@) || contains_seq(l, "viz"@)
}

/// True when the name suggests a graph artifact.
pub fn is_probable_graph_name(name: &str) -> (r: bool)
    ensures
        r == spec_probable_graph_name(name@),
{
    let l = to_lower(&chars_of(name));
    contains_sub(&l, &chars_of("graph")) || contains_sub(&l, &chars_of("map")) || contains_sub(
        &l,
        &chars_of("viz"),
    )
}

/// A JSON artifact is probably a graph when its name says so, or when it is
/// small enough to inspect and its parsed structure showed the graph shape
/// (top-level nodes and edges, or a map or graph key). The host parses the
/// file and reports the shape; this function owns the decision.
pub open spec fn spec_probable_graph_json(
    name: Seq<char>,
    size_bytes: Option<u64>,
    structure_is_graph: bool,
) -> bool {
    if !has_suffix(lower_seq(name), ".json"@) {
        false
    } else if spec_probable_graph_name(name) {
        true
    } else {
        let size: u64 = match size_bytes {
            Some(s) => s,
            None => 0,
        };
        size != 0 && size <= 262144 && structure_is_graph
    }
}

/// The kind of an artifact: its name-derived kind, upgraded to `graph_json`
/// for a JSON file that is probably a graph.
pub open spec fn spec_classify_kind(
    name: Seq<char>,
    size_bytes: Option<u64>,
    structure_is_graph: bool,
) -> Seq<char> {
    if spec_kind_by_name(name) == "json"@ && spec_probable_graph_json(
        name,
        size_bytes,
        structure_is_graph,
    ) {
        "graph_json"@
    } else {
        spec_kind_by_name(name)
    }
}

/// Classifies an artifact, upgrading probable graph payloads.
pub fn classify_artifact_kind(name: &str, size_bytes: Option<u64>, structure_is_graph: bool) -> (r:
    String)
    ensures
        r@ == spec_classify_kind(name@, size_bytes, structure_is_graph),
{
    let base = detect_artifact_kind_by_name(name);
    let is_json = crate::identifier::str_eq(base.as_str(), "json");
    if is_json {
        let probable = if is_probable_graph_name(name) {
            true
        } else {
            let size: u64 = match size_bytes {
                Some(s) => s,
                None => 0,
            };
            size != 0 && size <= 262144 && structure_is_graph
        };
        if probable {
            proof {
                reveal_strlit("json");
                reveal_strlit("markdown");
                reveal_strlit("html");
                reveal_strlit("text");
                reveal_strlit("unknown");
                assert(base@ == spec_kind_by_name(name@));
                assert(spec_kind_by_name(name@) == "json"@);
                assert("markdown"@.len() == 8);
                assert("json"@.len() == 4);
                assert("markdown"@ != "json"@);
                assert("html"@[0] == 'h');
                assert("json"@[0] == 'j');
                assert("text"@[0] == 't');
                assert("html"@ != "json"@);
                assert("text"@ != "json"@);
                assert("unknown"@ != "json"@);
                assert(has_suffix(lower_seq(name@), ".json"@));
            }
            return String::from_str("graph_json");
        }
    }
    proof {
        if spec_kind_by_name(name@) == "json"@ {
            reveal_strlit("json");
        }
    }
    base
}

/// The display rank of an artifact kind in the catalog.
pub open spec fn spec_kind_priority(kind: Seq<char>) -> i32 {
    if kind == "markdown"@ {
        0
    } else if kind == "html"@ {
        1
    } else if kind == "graph_json"@ {
        2
    } else if kind == "json"@ {
        3
    } else if kind == "text"@ {
        4
    } else {
        5
    }
}

/// Ranks an artifact kind for catalog ordering.
pub fn kind_priority(kind: &str) -> (r: i32)
    ensures
        r == spec_kind_priority(kind@),
{
    if crate::identifier::str_eq(kind, "markdown") {
        0
    } else if crate::identifier::str_eq(kind, "html") {
        1
    } else if crate::identifier::str_eq(kind, "graph_json") {
        2
    } else if crate::identifier::str_eq(kind, "json") {
        3
    } else if crate::identifier::str_eq(kind, "text") {
        4
    } else {
        5
    }
}

/// One artifact of a run, as the catalog lists it.
pub struct ArtifactItem {
    pub name: String,
    pub rel_path: String,
    pub kind: String,
    pub size_bytes: Option<u64>,
    pub mtime_iso: Option<String>,
}

/// The artifact can serve as the primary visualisation.
pub open spec fn viz_candidate(a: ArtifactItem) -> bool {
    a.kind@ == "html"@ || a.kind@ == "graph_json"@
}

/// Candidate `a` is shown in preference to candidate `b`: HTML before
/// graph JSON, then by name, then by relative path.
pub open spec fn viz_preferred(a: ArtifactItem, b: ArtifactItem) -> bool {
    let pa: int = if a.kind@ == "html"@ {
        0
    } else {
        1
    };
    let pb: int = if b.kind@ == "html"@ {
        0
    } else {
        1
    };
    ||| pa < pb
    ||| (pa == pb && lex_lt(a.name@, b.name@))
    ||| (pa == pb && a.name@ == b.name@ && lex_lt(a.rel_path@, b.rel_path@))
}

/// Chooses the primary visualisation of a run: the most preferred HTML or
/// graph-JSON artifact, or nothing when the run has neither.
pub fn select_primary_viz_artifact(items: &Vec<ArtifactItem>) -> (r: Option<PrimaryVizRef>)
    ensures
        match r {
            None => forall|i: int| 0 <= i < items@.len() ==> !viz_candidate(#[trigger] items@[i]),
            Some(pv) => exists|i: int|
                {
                    &&& 0 <= i < items@.len()
                    &&& viz_candidate(#[trigger] items@[i])
                    &&& pv.name@ == items@[i].name@
                    &&& pv.kind@ == items@[i].kind@
                    &&& (forall|j: int|
                        0 <= j < items@.len() && viz_candidate(#[trigger] items@[j])
                            ==> !viz_preferred(items@[j], items@[i]))
                },
        },
{
    let mut best: Option<usize> = None;
    let mut i: usize = 0;
    while i < items.len()
        invariant
            0 <= i <= items@.len(),
            match best {
                None => forall|m: int| 0 <= m < i ==> !viz_candidate(#[trigger] items@[m]),
                Some(b) => {
                    &&& (b as int) < i
                    &&& viz_candidate(items@[b as int])
                    &&& (forall|m: int|
                        0 <= m < i && viz_candidate(#[trigger] items@[m]) ==> !viz_preferred(
                            items@[m],
                            items@[b as int],
                        ))
                },
            },
        decreases items@.len() - i,
    {
        let is_html = crate::identifier::str_eq(items[i].kind.as_str(), "html");
        let is_graph = crate::identifier::str_eq(items[i].kind.as_str(), "graph_json");
        if !(is_html || is_graph) {
            proof {
                assert(!viz_candidate(items@[i as int]));
            }
        }
        if is_html || is_graph {
            let take = match best {
                None => true,
                Some(b) => {
                    let b_html = crate::identifier::str_eq(items[b].kind.as_str(), "html");
                    if is_html && !b_html {
                        true
                    } else if !is_html && b_html {
                        false
                    } else {
                        let ni = chars_of(items[i].name.as_str());
                        let nb = chars_of(items[b].name.as_str());
                        if chars_lt(&ni, &nb) {
                            true
                        } else if chars_eq_exec(&ni, &nb) {
                            let ri = chars_of(items[i].rel_path.as_str());
                            let rb = chars_of(items[b].rel_path.as_str());
                            chars_lt(&ri, &rb)
                        } else {
                            false
                        }
                    }
                },
            };
            if take {
                proof {
                    assert(viz_candidate(items@[i as int]));
                    crate::text::lemma_lex_irrefl(items@[i as int].name@);
                    crate::text::lemma_lex_irrefl(items@[i as int].rel_path@);
                    assert(!viz_preferred(items@[i as int], items@[i as int]));
                    match best {
                        None => {},
                        Some(b) => {
                            assert(viz_preferred(items@[i as int], items@[b as int]));
                            assert forall|m: int|
                                0 <= m < i + 1 && viz_candidate(#[trigger] items@[m]) && m != i as int
                                implies !viz_preferred(items@[m], items@[i as int]) by {
                                if viz_preferred(items@[m], items@[i as int]) {
                                    if m == b as int {
                                        lemma_viz_preferred_asym(items@[m], items@[i as int]);
                                        assert(false);
                                    } else {
                                        assert(!viz_preferred(items@[m], items@[b as int]));
                                        lemma_viz_preferred_trans(
                                            items@[m],
                                            items@[i as int],
                                            items@[b as int],
                                        );
                                        assert(false);
                                    }
                                }
                            }
                        },
                    }
                }
                best = Some(i);
            } else {
                proof {
                    match best {
                        None => {
                            assert(false);
                        },
                        Some(b) => {
                            assert(!viz_preferred(items@[i as int], items@[b as int]));
                        },
                    }
                }
            }
        }
        i = i + 1;
    }
    match best {
        None => None,
        Some(b) => Some(
            PrimaryVizRef { name: items[b].name.clone(), kind: items[b].kind.clone() },
        ),
    }
}

/// Equality of two character vectors, as an executable helper.
fn chars_eq_exec(a: &Vec<char>, b: &Vec<char>) -> (r: bool)
    ensures
        r == (a@ == b@),
{
    let e = crate::text::chars_eq(a, b);
    e
}

/// The preference order is asymmetric.
proof fn lemma_viz_preferred_asym(a: ArtifactItem, b: ArtifactItem)
    requires
        viz_preferred(a, b),
    ensures
        !viz_preferred(b, a),
{
    if lex_lt(a.name@, b.name@) {
        crate::text::lemma_lex_asym(a.name@, b.name@);
    }
    if lex_lt(a.rel_path@, b.rel_path@) {
        crate::text::lemma_lex_asym(a.rel_path@, b.rel_path@);
    }
}

/// The preference order is transitive.
proof fn lemma_viz_preferred_trans(a: ArtifactItem, b: ArtifactItem, c: ArtifactItem)
    requires
        viz_preferred(a, b),
        viz_preferred(b, c),
    ensures
        viz_preferred(a, c),
{
    if lex_lt(a.name@, b.name@) && lex_lt(b.name@, c.name@) {
        crate::text::lemma_lex_trans(a.name@, b.name@, c.name@);
    }
    if lex_lt(a.rel_path@, b.rel_path@) && lex_lt(b.rel_path@, c.rel_path@) {
        crate::text::lemma_lex_trans(a.rel_path@, b.rel_path@, c.rel_path@);
    }
}

/// A run id usable as a single path component: non-blank after trimming,
/// not a dot name, and free of path separators.
pub open spec fn spec_run_id_ok(run_id: Seq<char>) -> bool {
    let t = trim_spec(run_id);
    &&& t.len() > 0
    &&& t != "."@
    &&& t != ".."@
    &&& !crate::identifier::contains_char(t, '\\')
    &&& !crate::identifier::contains_char(t, '/')
}

/// Validates a run id for use as a path component, returning its trimmed
/// form; rejects blanks, dot names and anything with a path separator.
pub fn validate_run_id_component(run_id: &str) -> (r: Result<String, CoreError>)
    ensures
        match r {
            Ok(s) => spec_run_id_ok(run_id@) && s@ == trim_spec(run_id@),
            Err(e) => !spec_run_id_ok(run_id@) && e.kind == ErrorKind::InvalidInput,
        },
{
    let cs = chars_of(run_id);
    let t = crate::text::trim(&cs);
    if t.len() == 0 {
        return Err(CoreError::new(ErrorKind::InvalidInput, String::from_str("run_id is empty")));
    }
    let dot = chars_of(".");
    let dotdot = chars_of("..");
    if crate::text::chars_eq(&t, &dot) || crate::text::chars_eq(&t, &dotdot) {
        return Err(
            CoreError::new(ErrorKind::InvalidInput, String::from_str("run_id is invalid")),
        );
    }
    let mut k: usize = 0;
    while k < t.len()
        invariant
            0 <= k <= t@.len(),
            t@ == trim_spec(run_id@),
            forall|m: int| 0 <= m < k ==> t@[m] != '\\' && t@[m] != '/',
        decreases t@.len() - k,
    {
        if t[k] == '\\' || t[k] == '/' {
            proof {
                assert(crate::identifier::contains_char(t@, '\\') || crate::identifier::contains_char(
                    t@,
                    '/',
                ));
            }
            return Err(
                CoreError::new(
                    ErrorKind::InvalidInput,
                    String::from_str("run_id must not contain path separators"),
                ),
            );
        }
        k = k + 1;
    }
    Ok(string_of(&t))
}


/// The RFC 3339 rendering of an epoch instant in UTC; a function of the
/// millisecond value alone, on every machine.
pub uninterp spec fn iso8601_utc_of(epoch_ms: u64) -> Seq<char>;

/// Relies on `chrono::DateTime::<chrono::Utc>::from_timestamp_millis` and
/// `chrono::DateTime::to_rfc3339`: renders an epoch instant as RFC 3339
/// text in UTC. An instant past the range chrono can represent renders as
/// the empty string.
#[verifier::external_body]
fn iso_of_epoch_ms(epoch_ms: u64) -> (r: String)
    ensures
        r@ == iso8601_utc_of(epoch_ms),
{
    let ms = i64::try_from(epoch_ms).unwrap_or(i64::MAX);
    match chrono::DateTime::<chrono::Utc>::from_timestamp_millis(ms) {
        Some(dt) => dt.to_rfc3339(),
        None => String::new(),
    }
}

/// Builds one catalog entry from what the host read off the file system:
/// the artifact's name and relative path, its size, its modification
/// instant, and whether a JSON payload showed the graph shape. The kind
/// and the displayed timestamp are computed here.
pub fn make_artifact_item(
    name: String,
    rel_path: String,
    size_bytes: Option<u64>,
    mtime_ms: Option<u64>,
    structure_is_graph: bool,
) -> (r: ArtifactItem)
    ensures
        r.name == name,
        r.rel_path == rel_path,
        r.size_bytes == size_bytes,
        r.kind@ == spec_classify_kind(name@, size_bytes, structure_is_graph),
        match r.mtime_iso {
            Some(s) => mtime_ms matches Some(ms) && s@ == iso8601_utc_of(ms),
            None => mtime_ms is None,
        },
{
    let kind = classify_artifact_kind(name.as_str(), size_bytes, structure_is_graph);
    let mtime_iso = match mtime_ms {
        Some(ms) => Some(iso_of_epoch_ms(ms)),
        None => None,
    };
    ArtifactItem { name, rel_path, kind, size_bytes, mtime_iso }
}

} // verus!
