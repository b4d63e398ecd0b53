//! Task templates and the parameter records jobs carry.

use vstd::prelude::*;
use vstd::string::StringExecFns;
use crate::errors::{CoreError, ErrorKind};
use crate::identifier::str_eq;
use crate::jobs::ParamValueImage;
use crate::text::{all_digits, chars_of, copy_range, dec_value, parse_u64_chars};

verus! {

/// One parameter value carried in a job's parameter record. `Other` stands
/// for any value that is neither absent, null, a number nor text; such a
/// value never parses as an integer.
#[derive(Debug)]
pub enum ParamValue {
    Null,
    Int(i64),
    Text(String),
    Other,
}

/// One named parameter.
#[derive(Debug)]
pub struct ParamEntry {
    pub key: String,
    pub value: ParamValue,
}

/// The parameter record of a job or a pipeline step: named values, looked up
/// by first occurrence of a key.
#[derive(Debug)]
pub struct Params {
    pub entries: Vec<ParamEntry>,
}

impl Params {
    /// An empty parameter record.
    pub fn new() -> (r: Params)
        ensures
            r.entries@.len() == 0,
    {
        Params { entries: Vec::new() }
    }

    /// Adds a named value at the end.
    pub fn push(&mut self, key: String, value: ParamValue)
        ensures
            final(self).entries@ == old(self).entries@.push(
                ParamEntry { key, value },
            ),
    {
        self.entries.push(ParamEntry { key, value });
    }

    /// Looks a key up; the first entry wins.
    pub fn get(&self, key: &str) -> (r: Option<&ParamValue>)
        ensures
            match r {
                Some(v) => spec_lookup((*self)@, key@) == Some((*v)@),
                None => spec_lookup((*self)@, key@) is None,
            },
    {
        proof {
            assert((*self)@.skip(0) =~= (*self)@);
        }
        let mut i: usize = 0;
        while i < self.entries.len()
            invariant
                0 <= i <= self.entries@.len(),
                spec_lookup((*self)@, key@) == spec_lookup((*self)@.skip(i as int), key@),
            decreases self.entries@.len() - i,
        {
            proof {
                let tail = (*self)@.skip(i as int);
                assert(tail[0] == (*self)@[i as int]);
                assert((*self)@[i as int] == (self.entries@[i as int].key@, self.entries@[
                    i as int
                ].value@));
                assert(tail.drop_first() =~= (*self)@.skip(i + 1));
            }
            if str_eq(self.entries[i].key.as_str(), key) {
                return Some(&self.entries[i].value);
            }
            i = i + 1;
        }
        proof {
            assert((*self)@.skip(self.entries@.len() as int).len() == 0);
        }
        None
    }
}

/// The first value stored under `key`, if any.
pub open spec fn spec_lookup(
    params: Seq<(Seq<char>, crate::jobs::ParamValueImage)>,
    key: Seq<char>,
) -> Option<crate::jobs::ParamValueImage>
    decreases params.len(),
{
    if params.len() == 0 {
        None
    } else if params[0].0 == key {
        Some(params[0].1)
    } else {
        spec_lookup(params.drop_first(), key)
    }
}

/// The template ids this build ships.
pub open spec fn known_template(id: Seq<char>) -> bool {
    id == "TEMPLATE_TREE"@ || id == "TEMPLATE_MAP"@ || id == "TEMPLATE_RELATED"@ || id
        == "TEMPLATE_GRAPH"@ || id == "TEMPLATE_SUMMARY"@
}

/// The template ids that are wired to a runnable task. `TEMPLATE_SUMMARY`
/// exists in the catalog but is not wired.
pub open spec fn wired_template(id: Seq<char>) -> bool {
    id == "TEMPLATE_TREE"@ || id == "TEMPLATE_MAP"@ || id == "TEMPLATE_RELATED"@ || id
        == "TEMPLATE_GRAPH"@
}

/// True when the id names a template of the catalog.
pub fn is_known_template(id: &str) -> (r: bool)
    ensures
        r == known_template(id@),
{
    str_eq(id, "TEMPLATE_TREE") || str_eq(id, "TEMPLATE_MAP") || str_eq(id, "TEMPLATE_RELATED")
        || str_eq(id, "TEMPLATE_GRAPH") || str_eq(id, "TEMPLATE_SUMMARY")
}

/// True when the id names a wired template.
pub fn is_wired_template(id: &str) -> (r: bool)
    ensures
        r == wired_template(id@),
{
    str_eq(id, "TEMPLATE_TREE") || str_eq(id, "TEMPLATE_MAP") || str_eq(id, "TEMPLATE_RELATED")
        || str_eq(id, "TEMPLATE_GRAPH")
}


/// The integer a piece of parameter text denotes: an optional ASCII sign
/// followed by decimal digits; anything else, or a value outside the
/// signed 64-bit range, denotes nothing.
pub open spec fn spec_parse_i64(s: Seq<char>) -> Option<int> {
    if s.len() == 0 {
        None
    } else if s[0] == '+' || s[0] == '-' {
        let body = s.drop_first();
        if body.len() > 0 && all_digits(body) {
            let mag = dec_value(body) as int;
            let v = if s[0] == '-' {
                -mag
            } else {
                mag
            };
            if i64::MIN <= v <= i64::MAX {
                Some(v)
            } else {
                None
            }
        } else {
            None
        }
    } else if all_digits(s) && dec_value(s) <= i64::MAX {
        Some(dec_value(s) as int)
    } else {
        None
    }
}

/// Parses signed decimal text.
pub fn parse_i64_chars(v: &Vec<char>) -> (r: Option<i64>)
    ensures
        match r {
            Some(n) => spec_parse_i64(v@) == Some(n as int),
            None => spec_parse_i64(v@) is None,
        },
{
    if v.len() == 0 {
        return None;
    }
    let c0 = v[0];
    if c0 == '+' || c0 == '-' {
        let body = copy_range(v, 1, v.len());
        proof {
            assert(body@ =~= v@.drop_first());
        }
        let mag = match parse_u64_chars(&body) {
            Some(m) => m,
            None => {
                return None;
            },
        };
        if c0 == '-' {
            if mag > 0x8000_0000_0000_0000u64 {
                return None;
            }
            if mag == 0x8000_0000_0000_0000u64 {
                return Some(i64::MIN);
            }
            Some(-(mag as i64))
        } else {
            if mag > i64::MAX as u64 {
                return None;
            }
            Some(mag as i64)
        }
    } else {
        let mag = match parse_u64_chars(v) {
            Some(m) => m,
            None => {
                return None;
            },
        };
        if mag > i64::MAX as u64 {
            return None;
        }
        Some(mag as i64)
    }
}

/// The integer a stored parameter denotes, before range checking: absent
/// and null fall back to the default, numbers stand for themselves, text
/// is trimmed and parsed, and anything else denotes nothing.
pub open spec fn spec_param_i64(v: Option<ParamValueImage>, default_value: i64) -> Option<int> {
    match v {
        None => Some(default_value as int),
        Some(ParamValueImage::Null) => Some(default_value as int),
        Some(ParamValueImage::Int(n)) => Some(n as int),
        Some(ParamValueImage::Text(s)) => spec_parse_i64(crate::text::trim_spec(s)),
        Some(ParamValueImage::Other) => None,
    }
}

/// Reads an integer parameter with a default and an allowed range. Fails
/// with `InvalidInput` exactly when the stored value does not denote an
/// integer or the integer falls outside the range.
pub fn param_i64_with_default(
    value: Option<&ParamValue>,
    default_value: i64,
    min: i64,
    max: i64,
) -> (r: Result<i64, CoreError>)
    ensures
        match r {
            Ok(n) => spec_param_i64(opt_param_view(value), default_value) == Some(n as int)
                && min <= n <= max,
            Err(e) => e.kind == ErrorKind::InvalidInput && match spec_param_i64(
                opt_param_view(value),
                default_value,
            ) {
                None => true,
                Some(p) => !(min <= p <= max),
            },
        },
{
    let parsed: i64 = match value {
        None => default_value,
        Some(ParamValue::Null) => default_value,
        Some(ParamValue::Int(n)) => *n,
        Some(ParamValue::Text(s)) => {
            let cs = chars_of(s.as_str());
            let tr = crate::text::trim(&cs);
            match parse_i64_chars(&tr) {
                Some(n) => n,
                None => {
                    return Err(
                        CoreError::new(
                            ErrorKind::InvalidInput,
                            String::from_str("invalid integer parameter"),
                        ),
                    );
                },
            }
        },
        Some(ParamValue::Other) => {
            return Err(
                CoreError::new(
                    ErrorKind::InvalidInput,
                    String::from_str("expected integer parameter"),
                ),
            );
        },
    };
    if parsed < min || parsed > max {
        return Err(
            CoreError::new(ErrorKind::InvalidInput, String::from_str("parameter out of range")),
        );
    }
    Ok(parsed)
}

/// The view of an optional borrowed parameter value.
pub open spec fn opt_param_view(v: Option<&ParamValue>) -> Option<ParamValueImage> {
    match v {
        None => None,
        Some(p) => Some((*p)@),
    }
}

/// One declared parameter of a task template.
pub struct TemplateParamDef {
    pub key: String,
    pub label: String,
    pub param_type: String,
    pub default_value: i64,
    pub min: Option<i64>,
    pub max: Option<i64>,
}

/// One task template of the catalog.
pub struct TaskTemplateDef {
    pub id: String,
    pub title: String,
    pub description: String,
    pub wired: bool,
    pub disabled_reason: String,
    pub params: Vec<TemplateParamDef>,
}

/// The task templates this build ships: four wired templates and one
/// placeholder.
pub fn template_registry() -> (r: Vec<TaskTemplateDef>)
    ensures
        r@.len() == 5,
        r@[0].id@ == "TEMPLATE_TREE"@ && r@[0].wired && r@[0].params@.len() == 2 && r@[
            0
        ].params@[0].key@ == "depth"@ && r@[0].params@[0].default_value == 2 && r@[0].params@[
            1
        ].key@ == "max_per_level"@ && r@[0].params@[1].default_value == 50,
        r@[1].id@ == "TEMPLATE_MAP"@ && r@[1].wired && r@[1].params@.len() == 2 && r@[
            1
        ].params@[0].key@ == "k"@ && r@[1].params@[0].default_value == 24 && r@[1].params@[
            1
        ].key@ == "seed"@ && r@[1].params@[1].default_value == 42,
        r@[2].id@ == "TEMPLATE_RELATED"@ && r@[2].wired && r@[2].params@.len() == 2 && r@[
            2
        ].params@[0].default_value == 1 && r@[2].params@[1].default_value == 30,
        r@[3].id@ == "TEMPLATE_GRAPH"@ && r@[3].wired && r@[3].params@.len() == 2 && r@[
            3
        ].params@[0].default_value == 40 && r@[3].params@[1].default_value == 42,
        r@[4].id@ == "TEMPLATE_SUMMARY"@ && !r@[4].wired,
        forall|i: int| 0 <= i < 5 ==> known_template((#[trigger] r@[i]).id@),
        forall|i: int| 0 <= i < 5 ==> (wired_template((#[trigger] r@[i]).id@) <==> r@[i].wired),
{
    let mut r: Vec<TaskTemplateDef> = Vec::new();
    let mut tree_params: Vec<TemplateParamDef> = Vec::new();
    tree_params.push(
        TemplateParamDef {
            key: String::from_str("depth"),
            label: String::from_str("Depth"),
            param_type: String::from_str("integer"),
            default_value: 2,
            min: Some(1),
            max: Some(2),
        },
    );
    tree_params.push(
        TemplateParamDef {
            key: String::from_str("max_per_level"),
            label: String::from_str("Max per level"),
            param_type: String::from_str("integer"),
            default_value: 50,
            min: Some(1),
            max: Some(200),
        },
    );
    r.push(
        TaskTemplateDef {
            id: String::from_str("TEMPLATE_TREE"),
            title: String::from_str("Papers Tree"),
            description: String::from_str("Build citation tree from canonical identifier"),
            wired: true,
            disabled_reason: String::new(),
            params: tree_params,
        },
    );
    let mut map_params: Vec<TemplateParamDef> = Vec::new();
    map_params.push(
        TemplateParamDef {
            key: String::from_str("k"),
            label: String::from_str("Neighbors (k)"),
            param_type: String::from_str("integer"),
            default_value: 24,
            min: Some(10),
            max: Some(50),
        },
    );
    map_params.push(
        TemplateParamDef {
            key: String::from_str("seed"),
            label: String::from_str("Random seed"),
            param_type: String::from_str("integer"),
            default_value: 42,
            min: Some(0),
            max: Some(2147483647),
        },
    );
    r.push(
        TaskTemplateDef {
            id: String::from_str("TEMPLATE_MAP"),
            title: String::from_str("Paper Map"),
            description: String::from_str("Generate 3D paper map artifacts (graph/json/html)"),
            wired: true,
            disabled_reason: String::new(),
            params: map_params,
        },
    );
    let mut related_params: Vec<TemplateParamDef> = Vec::new();
    related_params.push(
        TemplateParamDef {
            key: String::from_str("depth"),
            label: String::from_str("Depth"),
            param_type: String::from_str("integer"),
            default_value: 1,
            min: Some(1),
            max: Some(2),
        },
    );
    related_params.push(
        TemplateParamDef {
            key: String::from_str("max_per_level"),
            label: String::from_str("Max related per level"),
            param_type: String::from_str("integer"),
            default_value: 30,
            min: Some(1),
            max: Some(200),
        },
    );
    r.push(
        TaskTemplateDef {
            id: String::from_str("TEMPLATE_RELATED"),
            title: String::from_str("Related Papers"),
            description: String::from_str("Expand related papers as a focused citation tree"),
            wired: true,
            disabled_reason: String::new(),
            params: related_params,
        },
    );
    let mut graph_params: Vec<TemplateParamDef> = Vec::new();
    graph_params.push(
        TemplateParamDef {
            key: String::from_str("k"),
            label: String::from_str("Neighbors (k)"),
            param_type: String::from_str("integer"),
            default_value: 40,
            min: Some(10),
            max: Some(50),
        },
    );
    graph_params.push(
        TemplateParamDef {
            key: String::from_str("seed"),
            label: String::from_str("Random seed"),
            param_type: String::from_str("integer"),
            default_value: 42,
            min: Some(0),
            max: Some(2147483647),
        },
    );
    r.push(
        TaskTemplateDef {
            id: String::from_str("TEMPLATE_GRAPH"),
            title: String::from_str("Graph Explorer Seed"),
            description: String::from_str(
                "Generate graph/map artifacts with larger neighborhood",
            ),
            wired: true,
            disabled_reason: String::new(),
            params: graph_params,
        },
    );
    r.push(
        TaskTemplateDef {
            id: String::from_str("TEMPLATE_SUMMARY"),
            title: String::from_str("Paper Summary"),
            description: String::from_str("Generate summary (placeholder)"),
            wired: false,
            disabled_reason: String::from_str("not wired"),
            params: Vec::new(),
        },
    );
    proof {
        reveal_strlit("TEMPLATE_TREE");
        reveal_strlit("TEMPLATE_MAP");
        reveal_strlit("TEMPLATE_RELATED");
        reveal_strlit("TEMPLATE_GRAPH");
        reveal_strlit("TEMPLATE_SUMMARY");
        assert("TEMPLATE_TREE"@.len() == 13);
        assert("TEMPLATE_MAP"@.len() == 12);
        assert("TEMPLATE_GRAPH"@.len() == 14);
        assert("TEMPLATE_SUMMARY"@.len() == 16);
        assert("TEMPLATE_RELATED"@.len() == 16);
        assert("TEMPLATE_SUMMARY"@[9] == 'S');
        assert("TEMPLATE_RELATED"@[9] == 'R');
        assert("TEMPLATE_SUMMARY"@ != "TEMPLATE_RELATED"@);
        assert(!wired_template("TEMPLATE_SUMMARY"@));
        assert forall|i: int| 0 <= i < 5 implies known_template((#[trigger] r@[i]).id@) by {}
    }
    r
}

/// Finds a template of the catalog by id.
pub fn find_template(id: &str) -> (r: Option<TaskTemplateDef>)
    ensures
        match r {
            Some(t) => known_template(id@) && t.id@ == id@,
            None => !known_template(id@),
        },
{
    let mut registry = template_registry();
    let mut i: usize = 0;
    let n = registry.len();
    while i < n
        invariant
            0 <= i <= n,
            n == registry@.len(),
            n == 5,
            forall|j: int| 0 <= j < n ==> known_template((#[trigger] registry@[j]).id@),
            forall|j: int|
                0 <= j < i ==> (#[trigger] registry@[j]).id@ != id@,
            registry@[0].id@ == "TEMPLATE_TREE"@,
            registry@[1].id@ == "TEMPLATE_MAP"@,
            registry@[2].id@ == "TEMPLATE_RELATED"@,
            registry@[3].id@ == "TEMPLATE_GRAPH"@,
            registry@[4].id@ == "TEMPLATE_SUMMARY"@,
        decreases n - i,
    {
        if str_eq(registry[i].id.as_str(), id) {
            let t = registry.remove(i);
            return Some(t);
        }
        i = i + 1;
    }
    proof {
        assert(!known_template(id@));
    }
    None
}


/// The argument vector of a citation-tree task.
pub open spec fn spec_tree_argv(pid: Seq<char>, depth: int, mpl: int) -> Seq<Seq<char>> {
    seq![
        "papers"@,
        "tree"@,
        "--id"@,
        pid,
        "--depth"@,
        crate::text::dec_digits(depth as nat),
        "--max-per-level"@,
        crate::text::dec_digits(mpl as nat),
    ]
}

/// The argument vector of a map task.
pub open spec fn spec_map_argv(pid: Seq<char>, k: int, seed: int) -> Seq<Seq<char>> {
    seq![
        "papers"@,
        "map3d"@,
        "--id"@,
        pid,
        "--k"@,
        crate::text::dec_digits(k as nat),
        "--seed"@,
        crate::text::dec_digits(seed as nat),
    ]
}

/// Renders a non-negative parameter value in decimal.
fn small_int_string(n: i64) -> (r: String)
    requires
        n >= 0,
    ensures
        r@ == crate::text::dec_digits(n as nat),
{
    crate::text::string_of(&crate::text::u64_to_chars(n as u64))
}

/// Builds the tree-shaped argument vector.
fn build_tree_argv(pid: String, depth: i64, mpl: i64) -> (r: Vec<String>)
    requires
        depth >= 0,
        mpl >= 0,
    ensures
        r.deep_view() == spec_tree_argv(pid@, depth as int, mpl as int),
{
    let mut argv: Vec<String> = Vec::new();
    argv.push(String::from_str("papers"));
    argv.push(String::from_str("tree"));
    argv.push(String::from_str("--id"));
    argv.push(pid);
    argv.push(String::from_str("--depth"));
    argv.push(small_int_string(depth));
    argv.push(String::from_str("--max-per-level"));
    argv.push(small_int_string(mpl));
    proof {
        assert(argv.deep_view() =~~= spec_tree_argv(argv@[3]@, depth as int, mpl as int));
    }
    argv
}

/// Builds the map-shaped argument vector.
fn build_map_argv(pid: String, k: i64, seed: i64) -> (r: Vec<String>)
    requires
        k >= 0,
        seed >= 0,
    ensures
        r.deep_view() == spec_map_argv(pid@, k as int, seed as int),
{
    let mut argv: Vec<String> = Vec::new();
    argv.push(String::from_str("papers"));
    argv.push(String::from_str("map3d"));
    argv.push(String::from_str("--id"));
    argv.push(pid);
    argv.push(String::from_str("--k"));
    argv.push(small_int_string(k));
    argv.push(String::from_str("--seed"));
    argv.push(small_int_string(seed));
    proof {
        assert(argv.deep_view() =~~= spec_map_argv(argv@[3]@, k as int, seed as int));
    }
    argv
}

/// The normalised parameter record kept for a tree-shaped task.
pub open spec fn spec_tree_params(depth: int, mpl: int) -> Seq<(Seq<char>, ParamValueImage)> {
    seq![
        ("depth"@, ParamValueImage::Int(depth as i64)),
        ("max_per_level"@, ParamValueImage::Int(mpl as i64)),
    ]
}

/// The normalised parameter record kept for a map-shaped task.
pub open spec fn spec_map_params(k: int, seed: int) -> Seq<(Seq<char>, ParamValueImage)> {
    seq![("k"@, ParamValueImage::Int(k as i64)), ("seed"@, ParamValueImage::Int(seed as i64))]
}

/// Builds the command line and the normalised parameters of a task: the
/// business key is normalised into the spelling the task runner expects,
/// each declared parameter is read with its default and checked against
/// its range, and the argument vector is laid out for the template. Fails
/// with `InvalidInput` on an unwired template, an unrecognised key or a
/// bad parameter.
pub fn build_template_args(
    template_id: &str,
    canonical_id: &str,
    params: &Params,
) -> (r: Result<(Vec<String>, Params), CoreError>)
    ensures
        r is Err ==> r->Err_0.kind == ErrorKind::InvalidInput,
        !wired_template(template_id@) ==> r is Err,
        r matches Ok(v) ==> {
            let norm = crate::identifier::spec_normalize(canonical_id@);
            &&& crate::identifier::spec_identifier_ok(canonical_id@)
            &&& crate::identifier::spec_pipeline_identifier(norm.kind, norm.canonical)
                matches Some(pid) && {
                if template_id@ == "TEMPLATE_TREE"@ || template_id@ == "TEMPLATE_RELATED"@ {
                    let dflt_d: i64 = if template_id@ == "TEMPLATE_TREE"@ {
                        2
                    } else {
                        1
                    };
                    let dflt_m: i64 = if template_id@ == "TEMPLATE_TREE"@ {
                        50
                    } else {
                        30
                    };
                    &&& (spec_param_i64(spec_lookup((*params)@, "depth"@), dflt_d)
                        matches Some(d) && (spec_param_i64(
                        spec_lookup((*params)@, "max_per_level"@),
                        dflt_m,
                    ) matches Some(m) && (1 <= d <= 2 && 1 <= m <= 200 && v.0.deep_view()
                        == spec_tree_argv(pid, d, m) && v.1@ == spec_tree_params(d, m))))
                } else if template_id@ == "TEMPLATE_MAP"@ || template_id@ == "TEMPLATE_GRAPH"@ {
                    let dflt_k: i64 = if template_id@ == "TEMPLATE_GRAPH"@ {
                        40
                    } else {
                        24
                    };
                    &&& (spec_param_i64(spec_lookup((*params)@, "k"@), dflt_k) matches Some(
                        k,
                    ) && (spec_param_i64(spec_lookup((*params)@, "seed"@), 42) matches Some(s)
                        && (10 <= k <= 50 && 0 <= s <= 2147483647 && v.0.deep_view()
                        == spec_map_argv(pid, k, s) && v.1@ == spec_map_params(k, s))))
                } else {
                    false
                }
            }
        },
{
    let is_tree = str_eq(template_id, "TEMPLATE_TREE");
    let is_related = str_eq(template_id, "TEMPLATE_RELATED");
    let is_map = str_eq(template_id, "TEMPLATE_MAP");
    let is_graph = str_eq(template_id, "TEMPLATE_GRAPH");
    if !(is_tree || is_related || is_map || is_graph) {
        return Err(
            CoreError::new(ErrorKind::InvalidInput, String::from_str("template not wired")),
        );
    }
    let normalized = crate::identifier::normalize_identifier_internal(canonical_id);
    let pid = match crate::identifier::to_pipeline_identifier(&normalized) {
        Ok(p) => p,
        Err(_) => {
            return Err(
                CoreError::new(
                    ErrorKind::InvalidInput,
                    String::from_str("identifier normalize error"),
                ),
            );
        },
    };
    proof {
        if normalized.errors.deep_view().len() > 0 {
        } else {
            assert(normalized.errors.deep_view().len() == 0);
        }
    }
    if is_tree || is_related {
        let dflt_d: i64 = if is_tree {
            2
        } else {
            1
        };
        let dflt_m: i64 = if is_tree {
            50
        } else {
            30
        };
        let depth = match param_i64_with_default(params.get("depth"), dflt_d, 1, 2) {
            Ok(v) => v,
            Err(e) => {
                return Err(e);
            },
        };
        let mpl = match param_i64_with_default(params.get("max_per_level"), dflt_m, 1, 200) {
            Ok(v) => v,
            Err(e) => {
                return Err(e);
            },
        };
        let argv = build_tree_argv(pid, depth, mpl);
        let mut np = Params::new();
        np.push(String::from_str("depth"), ParamValue::Int(depth));
        np.push(String::from_str("max_per_level"), ParamValue::Int(mpl));
        proof {
            assert(np@ =~= spec_tree_params(depth as int, mpl as int));
            if is_tree {
                assert(!(template_id@ == "TEMPLATE_RELATED"@)) by {
                    reveal_strlit("TEMPLATE_TREE");
                    reveal_strlit("TEMPLATE_RELATED");
                    assert("TEMPLATE_TREE"@.len() == 13);
                    assert("TEMPLATE_RELATED"@.len() == 16);
                }
            }
        }
        return Ok((argv, np));
    }
    let dflt_k: i64 = if is_graph {
        40
    } else {
        24
    };
    let k = match param_i64_with_default(params.get("k"), dflt_k, 10, 50) {
        Ok(v) => v,
        Err(e) => {
            return Err(e);
        },
    };
    let seed = match param_i64_with_default(params.get("seed"), 42, 0, 2147483647) {
        Ok(v) => v,
        Err(e) => {
            return Err(e);
        },
    };
    let argv = build_map_argv(pid, k, seed);
    let mut np = Params::new();
    np.push(String::from_str("k"), ParamValue::Int(k));
    np.push(String::from_str("seed"), ParamValue::Int(seed));
    proof {
        assert(np@ =~= spec_map_params(k as int, seed as int));
        if is_graph {
            assert(!(template_id@ == "TEMPLATE_MAP"@)) by {
                reveal_strlit("TEMPLATE_MAP");
                reveal_strlit("TEMPLATE_GRAPH");
                assert("TEMPLATE_MAP"@.len() == 12);
                assert("TEMPLATE_GRAPH"@.len() == 14);
            }
        }
        if is_map || is_graph {
            assert(!(template_id@ == "TEMPLATE_TREE"@ || template_id@ == "TEMPLATE_RELATED"@))
                by {
                reveal_strlit("TEMPLATE_TREE");
                reveal_strlit("TEMPLATE_RELATED");
                reveal_strlit("TEMPLATE_MAP");
                reveal_strlit("TEMPLATE_GRAPH");
                assert("TEMPLATE_MAP"@.len() == 12);
                assert("TEMPLATE_GRAPH"@.len() == 14);
                assert("TEMPLATE_TREE"@.len() == 13);
                assert("TEMPLATE_RELATED"@.len() == 16);
            }
        }
    }
    Ok((argv, np))
}

} // verus!
