//! Readiness checks and run settings of the official benchmarks (GPQA
//! Diamond, HumanEval, MMMU-Pro and Terminal-Bench).

use vstd::prelude::*;

use crate::quant::tensor_set::{
    absent_from, ascending_ids, ascending_names, lemma_filter_keeps_ascending, lex_le, str_views,
};
use crate::text::{
    chars_of, contains_seq, first_index, index_of_chars, join, join_strings, lines, lines_of,
    occurs_at, opt_chars, parse_u64_range, parsed_integer, split_char, split_chars, split_once,
    split_once_chars, starts_with_seq, trim_both, decimal, decimal_string,
    str_contains, str_eq, string_from_chars, string_views, trim, trim_chars, TrimSet,
};

verus! {

// ---------------------------------------------------------------------------
// Probe output
// ---------------------------------------------------------------------------

/// The value a probe line `key=value` gives, trimmed, if it is not blank.
pub open spec fn probe_line_value(line: Seq<char>, key: Seq<char>) -> Option<Seq<char>> {
    let prefix = key + "="@;
    if starts_with_seq(line, prefix) {
        let v = trim(line.skip(prefix.len() as int));
        if v.len() > 0 {
            Some(v)
        } else {
            None
        }
    } else {
        None
    }
}

/// The first non-blank value for `key` among probe lines.
pub open spec fn probe_in(ls: Seq<Seq<char>>, key: Seq<char>) -> Option<Seq<char>>
    decreases ls.len(),
{
    if ls.len() == 0 {
        None
    } else {
        match probe_line_value(ls[0], key) {
            Some(v) => Some(v),
            None => probe_in(ls.drop_first(), key),
        }
    }
}

/// The value the probe output reports for `key`.
pub fn probe_value(output: &str, key: &str) -> (r: Option<String>)
    ensures
        match probe_in(lines(output@), key@) {
            Some(v) => r matches Some(x) && x@ == v,
            None => r is None,
        },
{
    let mut prefix = String::from_str(key);
    prefix.append("=");
    let pv = chars_of(prefix.as_str());
    let ls = lines_of(output);
    let ghost views = ls@.map_values(|l: String| l@);
    let mut i: usize = 0;
    assert(views.skip(0) == views);
    while i < ls.len()
        invariant
            i <= ls@.len(),
            views == ls@.map_values(|l: String| l@),
            views == lines(output@),
            pv@ == key@ + "="@,
            probe_in(views.skip(i as int), key@) == probe_in(views, key@),
        decreases ls.len() - i,
    {
        let ghost rest = views.skip(i as int);
        assert(rest[0] == ls@[i as int]@);
        assert(rest.drop_first() == views.skip(i + 1));
        let lv = chars_of(ls[i].as_str());
        if crate::text::matches_at(&lv, &pv, 0) {
            assert(starts_with_seq(lv@, pv@)) by {
                assert(lv@.subrange(0, pv@.len() as int) == pv@);
            }
            let tail = crate::text::suffix_chars(&lv, pv.len());
            let t = trim_chars(TrimSet::Whitespace, &tail);
            if t.len() > 0 {
                return Some(crate::text::string_from_chars(&t));
            }
        } else {
            assert(!starts_with_seq(lv@, pv@)) by {
                if starts_with_seq(lv@, pv@) {
                    assert(crate::text::occurs_at(lv@, pv@, 0));
                }
            }
        }
        i = i + 1;
    }
    None
}

// ---------------------------------------------------------------------------
// Probe errors
// ---------------------------------------------------------------------------

/// The lines among `ls` that report an import failure (`..._error=...`).
pub open spec fn error_lines(ls: Seq<Seq<char>>) -> Seq<Seq<char>>
    decreases ls.len(),
{
    if ls.len() == 0 {
        seq![]
    } else if contains_seq(ls.last(), "_error="@) {
        error_lines(ls.drop_last()).push(ls.last())
    } else {
        error_lines(ls.drop_last())
    }
}

/// The failure lines of a probe's output, joined with `"; "`.
pub open spec fn probe_errors(output: Seq<char>) -> Seq<char> {
    join(error_lines(lines(output)), "; "@)
}

/// Collects the failure lines of a probe's output, joined with `"; "`.
pub fn probe_error_detail(output: &str) -> (r: String)
    ensures
        r@ == probe_errors(output@),
{
    let ls = lines_of(output);
    let ghost views = ls@.map_values(|l: String| l@);
    let mut kept: Vec<String> = Vec::new();
    let mut i: usize = 0;
    while i < ls.len()
        invariant
            i <= ls@.len(),
            views == ls@.map_values(|l: String| l@),
            views == lines(output@),
            kept@.map_values(|l: String| l@) == error_lines(views.take(i as int)),
        decreases ls.len() - i,
    {
        assert(views.take(i + 1).drop_last() == views.take(i as int));
        assert(views.take(i + 1).last() == ls@[i as int]@);
        if str_contains(ls[i].as_str(), "_error=") {
            let ghost before = kept@.map_values(|l: String| l@);
            let line = ls[i].clone();
            kept.push(line);
            assert(kept@.map_values(|l: String| l@) == before.push(ls@[i as int]@));
        }
        i = i + 1;
    }
    assert(views.take(ls.len() as int) == views);
    join_strings(&kept, "; ")
}

/// Whether a probed value is exactly `ok`.
fn reports_ok(value: &Option<String>) -> (r: bool)
    ensures
        r == (opt_chars(*value) == Some("ok"@)),
{
    match value {
        Some(v) => str_eq(v.as_str(), "ok"),
        None => false,
    }
}

// ---------------------------------------------------------------------------
// Dataset markers
// ---------------------------------------------------------------------------

/// What is known of a downloaded benchmark dataset.
#[derive(Clone, Debug)]
pub enum GpqaDatasetState {
    /// No marker file exists.
    Missing,
    /// The marker file names the expected dataset.
    Verified { path: String, hash: String },
    /// The marker file exists but could not be read or names something else.
    Invalid { path: String, hash: Option<String>, detail: String },
}

/// The label shown for a dataset state.
pub open spec fn dataset_label(state: GpqaDatasetState) -> Seq<char> {
    match state {
        GpqaDatasetState::Missing => "Missing"@,
        GpqaDatasetState::Verified { .. } => "Verified"@,
        GpqaDatasetState::Invalid { .. } => "Invalid"@,
    }
}

/// The marker path of a dataset state, if there is a marker.
pub open spec fn dataset_path(state: GpqaDatasetState) -> Option<Seq<char>> {
    match state {
        GpqaDatasetState::Missing => None,
        GpqaDatasetState::Verified { path, .. } => Some(path@),
        GpqaDatasetState::Invalid { path, .. } => Some(path@),
    }
}

/// The marker hash of a dataset state, if one is known.
pub open spec fn dataset_hash(state: GpqaDatasetState) -> Option<Seq<char>> {
    match state {
        GpqaDatasetState::Missing => None,
        GpqaDatasetState::Verified { hash, .. } => Some(hash@),
        GpqaDatasetState::Invalid { hash, .. } => opt_chars(hash),
    }
}

/// The GPQA Diamond detail text of a dataset state.
pub open spec fn gpqa_dataset_detail(state: GpqaDatasetState) -> Seq<char> {
    match state {
        GpqaDatasetState::Missing => "GPQA Diamond dataset is not downloaded or verified yet."@,
        GpqaDatasetState::Verified { .. } => "GPQA Diamond dataset is downloaded and hash verified."@,
        GpqaDatasetState::Invalid { detail, .. } => detail@,
    }
}

/// The label of a dataset state.
pub fn dataset_status_label(state: &GpqaDatasetState) -> (r: &'static str)
    ensures
        r@ == dataset_label(*state),
{
    match state {
        GpqaDatasetState::Missing => "Missing",
        GpqaDatasetState::Verified { .. } => "Verified",
        GpqaDatasetState::Invalid { .. } => "Invalid",
    }
}

/// The marker path of a dataset state.
pub fn dataset_path_string(state: &GpqaDatasetState) -> (r: Option<String>)
    ensures
        opt_chars(r) == dataset_path(*state),
{
    match state {
        GpqaDatasetState::Missing => None,
        GpqaDatasetState::Verified { path, .. } => Some(path.clone()),
        GpqaDatasetState::Invalid { path, .. } => Some(path.clone()),
    }
}

/// The marker hash of a dataset state.
pub fn dataset_hash_string(state: &GpqaDatasetState) -> (r: Option<String>)
    ensures
        opt_chars(r) == dataset_hash(*state),
{
    match state {
        GpqaDatasetState::Missing => None,
        GpqaDatasetState::Verified { hash, .. } => Some(hash.clone()),
        GpqaDatasetState::Invalid { hash, .. } => match hash {
            Some(h) => Some(h.clone()),
            None => None,
        },
    }
}

/// The GPQA Diamond detail text of a dataset state.
pub fn dataset_detail(state: &GpqaDatasetState) -> (r: String)
    ensures
        r@ == gpqa_dataset_detail(*state),
{
    match state {
        GpqaDatasetState::Missing => String::from_str("GPQA Diamond dataset is not downloaded or verified yet."),
        GpqaDatasetState::Verified { .. } => String::from_str("GPQA Diamond dataset is downloaded and hash verified."),
        GpqaDatasetState::Invalid { detail, .. } => detail.clone(),
    }
}

/// The fields a dataset marker file holds, as read from its JSON: each is
/// present only where the JSON has it with the right type.
#[derive(Clone, Debug)]
pub struct DatasetMarker {
    pub version: Option<u64>,
    pub dataset: Option<String>,
    pub dataset_id: Option<String>,
    pub sample_count: Option<u64>,
}

/// Whether a marker names the expected dataset (version 1).
pub open spec fn marker_ok(
    m: DatasetMarker,
    dataset: Seq<char>,
    dataset_id: Option<Seq<char>>,
    sample_count: Option<u64>,
) -> bool {
    &&& m.version == Some(1u64)
    &&& opt_chars(m.dataset) == Some(dataset)
    &&& (dataset_id matches Some(id) ==> opt_chars(m.dataset_id) == Some(id))
    &&& (sample_count matches Some(n) ==> m.sample_count == Some(n))
}

/// The state a marker gives: `marker` is `None` when there is no marker
/// file and `Err` with the reason when it could not be read.
pub open spec fn state_from_marker(
    r: GpqaDatasetState,
    path: Seq<char>,
    marker: Option<Result<DatasetMarker, String>>,
    dataset: Seq<char>,
    dataset_id: Option<Seq<char>>,
    sample_count: Option<u64>,
    invalid: Seq<char>,
    read_error_prefix: Seq<char>,
) -> bool {
    match marker {
        None => r is Missing,
        Some(Ok(m)) => if marker_ok(m, dataset, dataset_id, sample_count) {
            r matches GpqaDatasetState::Verified { path: p, hash: h } && p@ == path && h@
                == "marker-v1"@
        } else {
            r matches GpqaDatasetState::Invalid { path: p, hash: h, detail: d } && p@ == path
                && h is None && d@ == invalid
        },
        Some(Err(e)) => r matches GpqaDatasetState::Invalid { path: p, hash: h, detail: d } && p@
            == path && h is None && d@ == read_error_prefix + e@,
    }
}

fn opt_str_is(value: &Option<String>, expected: &str) -> (r: bool)
    ensures
        r == (opt_chars(*value) == Some(expected@)),
{
    match value {
        Some(v) => str_eq(v.as_str(), expected),
        None => false,
    }
}

fn marker_state(
    path: String,
    marker: Option<Result<DatasetMarker, String>>,
    dataset: &str,
    dataset_id: Option<&str>,
    sample_count: Option<u64>,
    invalid: &str,
    read_error_prefix: &str,
) -> (r: GpqaDatasetState)
    ensures
        state_from_marker(
            r,
            path@,
            marker,
            dataset@,
            match dataset_id {
                Some(id) => Some(id@),
                None => None,
            },
            sample_count,
            invalid@,
            read_error_prefix@,
        ),
{
    match marker {
        None => GpqaDatasetState::Missing,
        Some(Ok(m)) => {
            let id_ok = match dataset_id {
                Some(id) => opt_str_is(&m.dataset_id, id),
                None => true,
            };
            let count_ok = match sample_count {
                Some(n) => m.sample_count == Some(n),
                None => true,
            };
            if m.version == Some(1u64) && opt_str_is(&m.dataset, dataset) && id_ok && count_ok {
                GpqaDatasetState::Verified { path, hash: String::from_str("marker-v1") }
            } else {
                GpqaDatasetState::Invalid { path, hash: None, detail: String::from_str(invalid) }
            }
        },
        Some(Err(e)) => {
            let mut d = String::from_str(read_error_prefix);
            d.append(e.as_str());
            GpqaDatasetState::Invalid { path, hash: None, detail: d }
        },
    }
}

/// The GPQA Diamond dataset state, from its marker file at `path`.
pub fn detect_gpqa_dataset_state(path: String, marker: Option<Result<DatasetMarker, String>>) -> (r:
    GpqaDatasetState)
    ensures
        state_from_marker(
            r,
            path@,
            marker,
            "gpqa_diamond"@,
            None,
            Some(198u64),
            "GPQA Diamond EvalScope dataset marker is invalid."@,
            seq![],
        ),
{
    proof {
        reveal_strlit("");
    }
    marker_state(path, marker, "gpqa_diamond", None, Some(198u64), "GPQA Diamond EvalScope dataset marker is invalid.", "")
}

/// The HumanEval dataset state, from its marker file at `path`.
pub fn detect_humaneval_dataset_state(path: String, marker: Option<Result<DatasetMarker, String>>) -> (r:
    GpqaDatasetState)
    ensures
        state_from_marker(
            r,
            path@,
            marker,
            "humaneval"@,
            None,
            Some(164u64),
            "HumanEval EvalScope dataset marker is invalid."@,
            seq![],
        ),
{
    proof {
        reveal_strlit("");
    }
    marker_state(path, marker, "humaneval", None, Some(164u64), "HumanEval EvalScope dataset marker is invalid.", "")
}

/// The MMMU-Pro dataset state, from its marker file at `path`.
pub fn detect_mmmu_pro_dataset_state(path: String, marker: Option<Result<DatasetMarker, String>>) -> (r:
    GpqaDatasetState)
    ensures
        state_from_marker(
            r,
            path@,
            marker,
            "mmmu_pro"@,
            Some("AI-ModelScope/MMMU_Pro"@),
            Some(1730u64),
            "MMMU-Pro EvalScope dataset marker is invalid."@,
            seq![],
        ),
{
    proof {
        reveal_strlit("");
    }
    marker_state(
        path,
        marker,
        "mmmu_pro",
        Some("AI-ModelScope/MMMU_Pro"),
        Some(1730u64),
        "MMMU-Pro EvalScope dataset marker is invalid.",
        "",
    )
}

/// The Terminal-Bench dataset state, from its marker file at `path`.
pub fn detect_terminal_bench_dataset_state(path: String, marker: Option<Result<DatasetMarker, String>>) -> (r:
    GpqaDatasetState)
    ensures
        state_from_marker(
            r,
            path@,
            marker,
            "terminal-bench-2-1"@,
            None,
            None,
            "Terminal-Bench Harbor dataset marker is invalid."@,
            "Failed to read Terminal-Bench dataset marker: "@,
        ),
{
    marker_state(
        path,
        marker,
        "terminal-bench-2-1",
        None,
        None,
        "Terminal-Bench Harbor dataset marker is invalid.",
        "Failed to read Terminal-Bench dataset marker: ",
    )
}

// ---------------------------------------------------------------------------
// Readiness of the benchmark harnesses
// ---------------------------------------------------------------------------

/// How ready the GPQA Diamond benchmark is to run.
#[derive(Clone, Debug)]
pub struct GpqaDiamondStatus {
    pub ready: bool,
    pub status_label: String,
    pub python: Option<String>,
    pub evalscope: Option<String>,
    pub dataset_ready: bool,
    pub dataset_status_label: String,
    pub dataset_path: Option<String>,
    pub dataset_hash: Option<String>,
    pub dataset_url: String,
    pub expected_dataset_hash: String,
    pub detail: String,
}

/// How ready the HumanEval benchmark is to run.
#[derive(Clone, Debug)]
pub struct HumanEvalStatus {
    pub ready: bool,
    pub status_label: String,
    pub python: Option<String>,
    pub evalscope: Option<String>,
    pub docker_ready: bool,
    pub docker: Option<String>,
    pub detail: String,
}

/// How ready the Terminal-Bench benchmark is to run.
#[derive(Clone, Debug)]
pub struct TerminalBenchStatus {
    pub ready: bool,
    pub status_label: String,
    pub harbor_ready: bool,
    pub harbor: Option<String>,
    pub docker_ready: bool,
    pub docker: Option<String>,
    pub detail: String,
}

/// Whether the dataset fields of a status report `state`.
pub open spec fn reports_dataset(
    ready: bool,
    label: String,
    path: Option<String>,
    hash: Option<String>,
    state: GpqaDatasetState,
) -> bool {
    &&& ready == (state is Verified)
    &&& label@ == dataset_label(state)
    &&& opt_chars(path) == dataset_path(state)
    &&& opt_chars(hash) == dataset_hash(state)
}

/// The value a probe reports for `key`.
pub open spec fn probed(output: Seq<char>, key: Seq<char>) -> Option<Seq<char>> {
    probe_in(lines(output), key)
}

/// The GPQA Diamond harness is importable: Python, EvalScope, its GPQA
/// task and the OpenAI client all answered the probe.
pub open spec fn gpqa_harness_ready(output: Seq<char>) -> bool {
    &&& probed(output, "python"@) is Some
    &&& probed(output, "evalscope"@) is Some
    &&& probed(output, "gpqa_task"@) == Some("ok"@)
    &&& probed(output, "openai"@) is Some
}

/// The fields every GPQA Diamond status shares.
pub open spec fn gpqa_common(r: GpqaDiamondStatus, state: GpqaDatasetState) -> bool {
    &&& reports_dataset(r.dataset_ready, r.dataset_status_label, r.dataset_path, r.dataset_hash, state)
    &&& r.dataset_url@ == "AI-ModelScope/gpqa_diamond"@
    &&& r.expected_dataset_hash@ == "EvalScope dataset cache marker"@
}

/// The GPQA Diamond status that a probe's output and a dataset state give.
pub open spec fn gpqa_reported(r: GpqaDiamondStatus, output: Seq<char>, state: GpqaDatasetState) -> bool {
    let harness = gpqa_harness_ready(output);
    let dataset = state is Verified;
    &&& r.ready == (harness && dataset)
    &&& r.status_label@ == (if !harness {
        "Needs harness"@
    } else if !dataset {
        "Download"@
    } else {
        "Ready"@
    })
    &&& opt_chars(r.python) == probed(output, "python"@)
    &&& opt_chars(r.evalscope) == probed(output, "evalscope"@)
    &&& gpqa_common(r, state)
    &&& r.detail@ == (if harness && dataset {
        "EvalScope, GPQA Diamond adapter, OpenAI client, and dataset cache marker are verified."@
    } else if harness {
        gpqa_dataset_detail(state)
    } else {
        probe_errors(output)
    })
}

/// The GPQA Diamond status when no probe ran: the managed environment is
/// missing (`venv_exists` false) or gave no output.
pub open spec fn gpqa_unprobed(
    r: GpqaDiamondStatus,
    venv_exists: bool,
    system_python_exists: bool,
    state: GpqaDatasetState,
) -> bool {
    let install = !venv_exists && system_python_exists;
    &&& !r.ready
    &&& r.python is None
    &&& r.evalscope is None
    &&& gpqa_common(r, state)
    &&& r.status_label@ == (if install {
        "Install"@
    } else {
        "Needs Python"@
    })
    &&& r.detail@ == (if install {
        "System Python is available, but the managed benchmark environment has not been created yet."@
    } else {
        "Python was not found on PATH."@
    })
}

fn gpqa_status(
    ready: bool,
    status_label: &str,
    python: Option<String>,
    evalscope: Option<String>,
    state: &GpqaDatasetState,
    detail: String,
) -> (r: GpqaDiamondStatus)
    ensures
        r.ready == ready,
        r.status_label@ == status_label@,
        r.python == python,
        r.evalscope == evalscope,
        gpqa_common(r, *state),
        r.detail == detail,
{
    GpqaDiamondStatus {
        ready,
        status_label: String::from_str(status_label),
        python,
        evalscope,
        dataset_ready: match state {
            GpqaDatasetState::Verified { .. } => true,
            _ => false,
        },
        dataset_status_label: String::from_str(dataset_status_label(state)),
        dataset_path: dataset_path_string(state),
        dataset_hash: dataset_hash_string(state),
        dataset_url: String::from_str("AI-ModelScope/gpqa_diamond"),
        expected_dataset_hash: String::from_str("EvalScope dataset cache marker"),
        detail,
    }
}

/// The GPQA Diamond status from a probe's output and the dataset state.
pub fn classify_gpqa_status(output: &str, dataset_state: GpqaDatasetState) -> (r: GpqaDiamondStatus)
    ensures
        gpqa_reported(r, output@, dataset_state),
{
    let python = probe_value(output, "python");
    let evalscope = probe_value(output, "evalscope");
    let gpqa_task = probe_value(output, "gpqa_task");
    let openai = probe_value(output, "openai");
    let harness_ready = python.is_some() && evalscope.is_some() && reports_ok(&gpqa_task)
        && openai.is_some();
    let dataset_ready = match dataset_state {
        GpqaDatasetState::Verified { .. } => true,
        _ => false,
    };
    let ready = harness_ready && dataset_ready;
    let label = if !harness_ready {
        "Needs harness"
    } else if !dataset_ready {
        "Download"
    } else {
        "Ready"
    };
    let detail = if ready {
        String::from_str(
            "EvalScope, GPQA Diamond adapter, OpenAI client, and dataset cache marker are verified.",
        )
    } else if harness_ready {
        dataset_detail(&dataset_state)
    } else {
        probe_error_detail(output)
    };
    gpqa_status(ready, label, python, evalscope, &dataset_state, detail)
}

/// The GPQA Diamond status of a probe output, with the dataset marker
/// verified.
pub fn classify_probe_output(output: &str) -> (r: GpqaDiamondStatus)
    ensures
        exists|path: String, hash: String|
            path@ == "gpqa_diamond_dataset_ready.json"@ && hash@ == "marker-v1"@ && gpqa_reported(
                r,
                output@,
                GpqaDatasetState::Verified { path, hash },
            ),
{
    let path = String::from_str("gpqa_diamond_dataset_ready.json");
    let hash = String::from_str("marker-v1");
    let state = GpqaDatasetState::Verified { path, hash };
    let r = classify_gpqa_status(output, state);
    assert(gpqa_reported(r, output@, GpqaDatasetState::Verified { path, hash }));
    r
}

/// The GPQA Diamond status of the managed benchmark environment, from
/// whether it exists, whether a system Python exists, and the probe's
/// output where one ran.
pub fn managed_env_status(
    venv_exists: bool,
    system_python_exists: bool,
    probe_output: Option<&str>,
    dataset_state: GpqaDatasetState,
) -> (r: GpqaDiamondStatus)
    ensures
        match probe_output {
            Some(output) => gpqa_reported(r, output@, dataset_state),
            None => gpqa_unprobed(r, venv_exists, system_python_exists, dataset_state),
        },
{
    match probe_output {
        Some(output) => classify_gpqa_status(output, dataset_state),
        None => {
            if !venv_exists && system_python_exists {
                gpqa_status(
                    false,
                    "Install",
                    None,
                    None,
                    &dataset_state,
                    String::from_str(
                        "System Python is available, but the managed benchmark environment has not been created yet.",
                    ),
                )
            } else {
                gpqa_status(
                    false,
                    "Needs Python",
                    None,
                    None,
                    &dataset_state,
                    String::from_str("Python was not found on PATH."),
                )
            }
        },
    }
}

/// The GPQA Diamond status, from whether a system Python exists, the probe
/// of the managed environment (`None` when that environment does not
/// exist, `Err` when the probe could not run) and the dataset state.
pub fn detect_gpqa_diamond_status(
    system_python_exists: bool,
    probe: Option<Result<String, String>>,
    dataset_state: GpqaDatasetState,
) -> (r: GpqaDiamondStatus)
    ensures
        match probe {
            None => gpqa_unprobed(r, false, system_python_exists, dataset_state),
            Some(Ok(output)) => gpqa_reported(r, output@, dataset_state),
            Some(Err(e)) => {
                &&& !r.ready
                &&& r.status_label@ == "Needs harness"@
                &&& r.python is None
                &&& r.evalscope is None
                &&& gpqa_common(r, dataset_state)
                &&& r.detail@ == e@
            },
        },
{
    match probe {
        None => managed_env_status(false, system_python_exists, None, dataset_state),
        Some(Ok(output)) => managed_env_status(true, system_python_exists, Some(output.as_str()), dataset_state),
        Some(Err(e)) => gpqa_status(false, "Needs harness", None, None, &dataset_state, e),
    }
}

/// The HumanEval harness is importable: Python, EvalScope, its HumanEval
/// task and the code sandbox all answered the probe.
pub open spec fn humaneval_harness_ready(output: Seq<char>) -> bool {
    &&& probed(output, "python"@) is Some
    &&& probed(output, "evalscope"@) is Some
    &&& probed(output, "humaneval_task"@) == Some("ok"@)
    &&& probed(output, "sandbox"@) == Some("ok"@)
}

/// The HumanEval status a probe's output and the Docker check give.
pub open spec fn humaneval_reported(
    r: HumanEvalStatus,
    output: Seq<char>,
    docker_ready: bool,
    docker: Option<String>,
    docker_detail: Seq<char>,
) -> bool {
    let harness = humaneval_harness_ready(output);
    &&& r.ready == (harness && docker_ready)
    &&& r.status_label@ == (if !harness {
        "Needs harness"@
    } else if !docker_ready {
        "Needs Docker"@
    } else {
        "Ready"@
    })
    &&& opt_chars(r.python) == probed(output, "python"@)
    &&& opt_chars(r.evalscope) == probed(output, "evalscope"@)
    &&& r.docker_ready == docker_ready
    &&& r.docker == docker
    &&& r.detail@ == (if !harness {
        probe_errors(output)
    } else if docker_ready {
        "EvalScope HumanEval adapter and Docker daemon are verified."@
    } else {
        docker_detail
    })
}

/// The HumanEval status from a probe's output and the Docker check.
pub fn classify_humaneval_status(
    output: &str,
    docker_ready: bool,
    docker: Option<String>,
    docker_detail: String,
) -> (r: HumanEvalStatus)
    ensures
        humaneval_reported(r, output@, docker_ready, docker, docker_detail@),
{
    let python = probe_value(output, "python");
    let evalscope = probe_value(output, "evalscope");
    let task = probe_value(output, "humaneval_task");
    let sandbox = probe_value(output, "sandbox");
    let harness_ready = python.is_some() && evalscope.is_some() && reports_ok(&task) && reports_ok(
        &sandbox,
    );
    let ready = harness_ready && docker_ready;
    let label = if !harness_ready {
        "Needs harness"
    } else if !docker_ready {
        "Needs Docker"
    } else {
        "Ready"
    };
    let detail = if !harness_ready {
        probe_error_detail(output)
    } else if ready {
        String::from_str("EvalScope HumanEval adapter and Docker daemon are verified.")
    } else {
        docker_detail
    };
    HumanEvalStatus {
        ready,
        status_label: String::from_str(label),
        python,
        evalscope,
        docker_ready,
        docker,
        detail,
    }
}

/// The HumanEval status, from the Docker check, whether a system Python
/// exists, and the probe of the managed environment (`None` when that
/// environment does not exist, `Err` when the probe could not run).
pub fn detect_humaneval_status(
    docker_ready: bool,
    docker: Option<String>,
    docker_detail: String,
    system_python_exists: bool,
    probe: Option<Result<String, String>>,
) -> (r: HumanEvalStatus)
    ensures
        r.docker_ready == docker_ready,
        r.docker == docker,
        match probe {
            None => {
                &&& !r.ready
                &&& r.python is None
                &&& r.evalscope is None
                &&& r.status_label@ == (if system_python_exists {
                    "Needs harness"@
                } else if !docker_ready {
                    "Needs Docker"@
                } else {
                    "Needs Python"@
                })
                &&& r.detail@ == (if system_python_exists {
                    "HumanEval harness has not been installed in the managed benchmark environment."@
                } else if !docker_ready {
                    docker_detail@
                } else {
                    "Python was not found on PATH."@
                })
            },
            Some(Ok(output)) => humaneval_reported(r, output@, docker_ready, docker, docker_detail@),
            Some(Err(e)) => {
                &&& !r.ready
                &&& r.python is None
                &&& r.evalscope is None
                &&& r.status_label@ == (if docker_ready {
                    "Needs harness"@
                } else {
                    "Needs Docker"@
                })
                &&& r.detail@ == (if docker_ready {
                    e@
                } else {
                    docker_detail@
                })
            },
        },
{
    match probe {
        None => {
            let label = if system_python_exists {
                "Needs harness"
            } else if !docker_ready {
                "Needs Docker"
            } else {
                "Needs Python"
            };
            let detail = if system_python_exists {
                String::from_str(
                    "HumanEval harness has not been installed in the managed benchmark environment.",
                )
            } else if !docker_ready {
                docker_detail
            } else {
                String::from_str("Python was not found on PATH.")
            };
            HumanEvalStatus {
                ready: false,
                status_label: String::from_str(label),
                python: None,
                evalscope: None,
                docker_ready,
                docker,
                detail,
            }
        },
        Some(Ok(output)) => classify_humaneval_status(output.as_str(), docker_ready, docker, docker_detail),
        Some(Err(e)) => HumanEvalStatus {
            ready: false,
            status_label: String::from_str(
                if docker_ready {
                    "Needs harness"
                } else {
                    "Needs Docker"
                },
            ),
            python: None,
            evalscope: None,
            docker_ready,
            docker,
            detail: if docker_ready {
                e
            } else {
                docker_detail
            },
        },
    }
}

/// The Terminal-Bench status from the Harbor probe and the Docker check.
pub fn classify_terminal_bench_status(
    harbor_probe: Result<String, String>,
    docker_ready: bool,
    docker: Option<String>,
    docker_detail: String,
) -> (r: TerminalBenchStatus)
    ensures
        r.harbor_ready == (harbor_probe is Ok),
        r.ready == (harbor_probe is Ok && docker_ready),
        r.status_label@ == (if harbor_probe is Err {
            "Needs Harbor"@
        } else if !docker_ready {
            "Needs Docker"@
        } else {
            "Ready"@
        }),
        opt_chars(r.harbor) == (if harbor_probe is Ok {
            Some("uvx harbor"@)
        } else {
            None
        }),
        r.docker_ready == docker_ready,
        r.docker == docker,
        r.detail@ == match harbor_probe {
            Err(e) => e@,
            Ok(_) => if docker_ready {
                "Harbor and Docker daemon are verified for Terminal-Bench."@
            } else {
                docker_detail@
            },
        },
{
    let (harbor_ready, harbor, harbor_detail) = match harbor_probe {
        Ok(_) => (true, Some(String::from_str("uvx harbor")), String::from_str("Harbor is available through uvx.")),
        Err(error) => (false, None, error),
    };
    let ready = harbor_ready && docker_ready;
    let label = if !harbor_ready {
        "Needs Harbor"
    } else if !docker_ready {
        "Needs Docker"
    } else {
        "Ready"
    };
    let detail = if ready {
        String::from_str("Harbor and Docker daemon are verified for Terminal-Bench.")
    } else if !harbor_ready {
        harbor_detail
    } else {
        docker_detail
    };
    TerminalBenchStatus {
        ready,
        status_label: String::from_str(label),
        harbor_ready,
        harbor,
        docker_ready,
        docker,
        detail,
    }
}

// ---------------------------------------------------------------------------
// Dataset statuses
// ---------------------------------------------------------------------------

/// Whether the HumanEval dataset is downloaded and verified.
#[derive(Clone, Debug)]
pub struct HumanEvalDatasetStatus {
    pub dataset_ready: bool,
    pub dataset_status_label: String,
    pub dataset_path: Option<String>,
    pub dataset_hash: Option<String>,
    pub dataset_url: String,
    pub expected_dataset_hash: String,
}

/// Whether the MMMU-Pro dataset is downloaded and verified.
#[derive(Clone, Debug)]
pub struct MmmuProDatasetStatus {
    pub dataset_ready: bool,
    pub dataset_status_label: String,
    pub dataset_path: Option<String>,
    pub dataset_hash: Option<String>,
    pub dataset_url: String,
    pub expected_dataset_hash: String,
}

/// Whether the Terminal-Bench dataset is downloaded and verified.
#[derive(Clone, Debug)]
pub struct TerminalBenchDatasetStatus {
    pub dataset_ready: bool,
    pub dataset_status_label: String,
    pub dataset_path: Option<String>,
    pub dataset_hash: Option<String>,
    pub dataset_url: String,
    pub expected_dataset_hash: String,
}

/// The HumanEval dataset status of a dataset state.
pub fn detect_humaneval_dataset_status(state: &GpqaDatasetState) -> (r: HumanEvalDatasetStatus)
    ensures
        reports_dataset(r.dataset_ready, r.dataset_status_label, r.dataset_path, r.dataset_hash, *state),
        r.dataset_url@ == "opencompass/humaneval"@,
        r.expected_dataset_hash@ == "EvalScope dataset cache marker"@,
{
    HumanEvalDatasetStatus {
        dataset_ready: match state {
            GpqaDatasetState::Verified { .. } => true,
            _ => false,
        },
        dataset_status_label: String::from_str(dataset_status_label(state)),
        dataset_path: dataset_path_string(state),
        dataset_hash: dataset_hash_string(state),
        dataset_url: String::from_str("opencompass/humaneval"),
        expected_dataset_hash: String::from_str("EvalScope dataset cache marker"),
    }
}

/// The MMMU-Pro dataset status of a dataset state.
pub fn detect_mmmu_pro_dataset_status(state: &GpqaDatasetState) -> (r: MmmuProDatasetStatus)
    ensures
        reports_dataset(r.dataset_ready, r.dataset_status_label, r.dataset_path, r.dataset_hash, *state),
        r.dataset_url@ == "AI-ModelScope/MMMU_Pro"@,
        r.expected_dataset_hash@ == "EvalScope dataset cache marker"@,
{
    MmmuProDatasetStatus {
        dataset_ready: match state {
            GpqaDatasetState::Verified { .. } => true,
            _ => false,
        },
        dataset_status_label: String::from_str(dataset_status_label(state)),
        dataset_path: dataset_path_string(state),
        dataset_hash: dataset_hash_string(state),
        dataset_url: String::from_str("AI-ModelScope/MMMU_Pro"),
        expected_dataset_hash: String::from_str("EvalScope dataset cache marker"),
    }
}

/// The Terminal-Bench dataset status of a dataset state.
pub fn detect_terminal_bench_dataset_status(state: &GpqaDatasetState) -> (r: TerminalBenchDatasetStatus)
    ensures
        reports_dataset(r.dataset_ready, r.dataset_status_label, r.dataset_path, r.dataset_hash, *state),
        r.dataset_url@ == "terminal-bench/terminal-bench-2-1"@,
        r.expected_dataset_hash@ == "Harbor dataset cache marker"@,
{
    TerminalBenchDatasetStatus {
        dataset_ready: match state {
            GpqaDatasetState::Verified { .. } => true,
            _ => false,
        },
        dataset_status_label: String::from_str(dataset_status_label(state)),
        dataset_path: dataset_path_string(state),
        dataset_hash: dataset_hash_string(state),
        dataset_url: String::from_str("terminal-bench/terminal-bench-2-1"),
        expected_dataset_hash: String::from_str("Harbor dataset cache marker"),
    }
}

// ---------------------------------------------------------------------------
// Sandbox containers
// ---------------------------------------------------------------------------

fn strings_contain(v: &Vec<String>, x: &str) -> (r: bool)
    ensures
        r == string_views(v@).contains(x@),
{
    let mut i: usize = 0;
    while i < v.len()
        invariant
            i <= v.len(),
            forall|k: int| 0 <= k < i ==> string_views(v@)[k] != x@,
        decreases v.len() - i,
    {
        if str_eq(v[i].as_str(), x) {
            assert(string_views(v@)[i as int] == x@);
            return true;
        }
        i = i + 1;
    }
    false
}

/// The sandbox containers present after a run that were not there before,
/// in the order of `after` (the ascending order of the container set).
pub fn new_sandbox_container_ids(before: &Vec<String>, after: &Vec<String>) -> (r: Vec<String>)
    ensures
        string_views(r@) == absent_from(string_views(after@), string_views(before@)),
        ascending_names(string_views(after@)) ==> ascending_names(string_views(r@)),
{
    proof {
        if ascending_names(string_views(after@)) {
            lemma_filter_keeps_ascending(
                string_views(after@),
                |n: Seq<char>| !string_views(before@).contains(n),
            );
        }
    }
    let ghost pred = |n: Seq<char>| !string_views(before@).contains(n);
    let ghost a = string_views(after@);
    let mut out: Vec<String> = Vec::new();
    let mut i: usize = 0;
    proof {
        reveal(Seq::filter);
    }
    assert(a.take(0).filter(pred) =~= Seq::<Seq<char>>::empty());
    while i < after.len()
        invariant
            i <= after.len(),
            a == string_views(after@),
            pred == (|n: Seq<char>| !string_views(before@).contains(n)),
            string_views(out@) == a.take(i as int).filter(pred),
        decreases after.len() - i,
    {
        let ghost t = a.take(i + 1);
        assert(t.drop_last() == a.take(i as int));
        assert(t.last() == after@[i as int]@);
        let present = strings_contain(before, after[i].as_str());
        proof {
            reveal(Seq::filter);
        }
        assert(pred(t.last()) == !present);
        assert(t.filter(pred) == (if pred(t.last()) {
            t.drop_last().filter(pred).push(t.last())
        } else {
            t.drop_last().filter(pred)
        }));
        if !present {
            let ghost prev = string_views(out@);
            let id = after[i].clone();
            out.push(id);
            assert(string_views(out@) =~= prev.push(after@[i as int]@));
        }
        i = i + 1;
    }
    assert(a.take(after.len() as int) == a);
    out
}

/// The container id and image of a `docker ps` line `id<TAB>image`, both
/// trimmed, where neither is blank.
pub open spec fn container_image_entry(line: Seq<char>) -> Option<(Seq<char>, Seq<char>)> {
    match split_once(line, '\t') {
        Some((id, image)) => if trim(id).len() > 0 && trim(image).len() > 0 {
            Some((trim(id), trim(image)))
        } else {
            None
        },
        None => None,
    }
}

/// The container ids and images that the lines `ls` list, in order.
pub open spec fn container_image_entries(ls: Seq<Seq<char>>) -> Seq<(Seq<char>, Seq<char>)>
    decreases ls.len(),
{
    if ls.len() == 0 {
        seq![]
    } else {
        let prev = container_image_entries(ls.drop_last());
        match container_image_entry(ls.last()) {
            Some(e) => prev.push(e),
            None => prev,
        }
    }
}

/// The characters of a list of string pairs.
pub open spec fn pair_views(v: Seq<(String, String)>) -> Seq<(Seq<char>, Seq<char>)> {
    v.map_values(|p: (String, String)| (p.0@, p.1@))
}

/// The containers and their images that `docker ps -a --format
/// "{{.ID}}\t{{.Image}}"` listed, in output order.
pub fn container_images_from(run: Result<ProcessOutput, String>) -> (r: Result<Vec<(String, String)>, String>)
    ensures
        match run {
            Ok(o) => if o.success {
                r matches Ok(v) && pair_views(v@) == container_image_entries(lines(o.stdout@))
            } else {
                r matches Err(x) && x@ == "Failed to list Docker containers: "@ + trim(o.stderr@)
            },
            Err(e) => r matches Err(x) && x@ == "Failed to list Docker containers: "@ + e@,
        },
{
    match run {
        Ok(o) => {
            if o.success {
                let ls = lines_of(o.stdout.as_str());
                let ghost views = ls@.map_values(|l: String| l@);
                let mut out: Vec<(String, String)> = Vec::new();
                let mut i: usize = 0;
                while i < ls.len()
                    invariant
                        i <= ls@.len(),
                        views == ls@.map_values(|l: String| l@),
                        views == lines(o.stdout@),
                        pair_views(out@) == container_image_entries(views.take(i as int)),
                    decreases ls.len() - i,
                {
                    assert(views.take(i + 1).drop_last() == views.take(i as int));
                    assert(views.take(i + 1).last() == ls@[i as int]@);
                    let line = chars_of(ls[i].as_str());
                    match split_once_chars(&line, '\t') {
                        Some((id, image)) => {
                            let id_t = trim_chars(TrimSet::Whitespace, &id);
                            let image_t = trim_chars(TrimSet::Whitespace, &image);
                            if id_t.len() > 0 && image_t.len() > 0 {
                                let ghost prev = pair_views(out@);
                                let entry = (string_from_chars(&id_t), string_from_chars(&image_t));
                                out.push(entry);
                                assert(pair_views(out@) =~= prev.push((id_t@, image_t@)));
                            }
                        },
                        None => {},
                    }
                    i = i + 1;
                }
                assert(views.take(ls.len() as int) == views);
                Ok(out)
            } else {
                Err(joined("Failed to list Docker containers: ", trimmed(o.stderr.as_str()).as_str()))
            }
        },
        Err(e) => Err(joined("Failed to list Docker containers: ", e.as_str())),
    }
}

/// The ids of the containers in `after` that were not in `before` and run
/// one of the task images, in the order of `after`.
pub open spec fn new_task_containers(
    after: Seq<(Seq<char>, Seq<char>)>,
    before: Seq<Seq<char>>,
    images: Seq<Seq<char>>,
) -> Seq<Seq<char>>
    decreases after.len(),
{
    if after.len() == 0 {
        seq![]
    } else {
        let prev = new_task_containers(after.drop_last(), before, images);
        let (id, image) = after.last();
        if !before.contains(id) && images.contains(image) {
            prev.push(id)
        } else {
            prev
        }
    }
}

/// The container ids of a listing.
pub open spec fn listed_ids(after: Seq<(Seq<char>, Seq<char>)>) -> Seq<Seq<char>> {
    after.map_values(|p: (Seq<char>, Seq<char>)| p.0)
}

proof fn lemma_new_task_containers_members(
    after: Seq<(Seq<char>, Seq<char>)>,
    before: Seq<Seq<char>>,
    images: Seq<Seq<char>>,
)
    ensures
        forall|k: int| #![trigger new_task_containers(after, before, images)[k]]
            0 <= k < new_task_containers(after, before, images).len() ==> listed_ids(after).contains(
                new_task_containers(after, before, images)[k],
            ),
    decreases after.len(),
{
    if after.len() > 0 {
        let prev_after = after.drop_last();
        lemma_new_task_containers_members(prev_after, before, images);
        let r = new_task_containers(after, before, images);
        let prev = new_task_containers(prev_after, before, images);
        assert forall|k: int| 0 <= k < r.len() implies listed_ids(after).contains(#[trigger] r[k]) by {
            if k < prev.len() {
                assert(r[k] == prev[k]);
                let m = choose|m: int| 0 <= m < listed_ids(prev_after).len() && listed_ids(prev_after)[m] == prev[k];
                assert(listed_ids(after)[m] == listed_ids(prev_after)[m]);
            } else {
                assert(listed_ids(after)[after.len() - 1] == r[k]);
            }
        }
    }
}

/// The new containers of an ascending listing come in ascending order,
/// each once.
pub proof fn lemma_new_task_containers_ascending(
    after: Seq<(Seq<char>, Seq<char>)>,
    before: Seq<Seq<char>>,
    images: Seq<Seq<char>>,
)
    requires
        ascending_names(listed_ids(after)),
    ensures
        ascending_names(new_task_containers(after, before, images)),
    decreases after.len(),
{
    if after.len() > 0 {
        let prev_after = after.drop_last();
        let ids = listed_ids(after);
        assert(ascending_names(listed_ids(prev_after))) by {
            assert forall|i: int, j: int| 0 <= i < j < listed_ids(prev_after).len() implies lex_le(
                listed_ids(prev_after)[i],
                listed_ids(prev_after)[j],
            ) && listed_ids(prev_after)[i] != listed_ids(prev_after)[j] by {
                assert(listed_ids(prev_after)[i] == ids[i] && listed_ids(prev_after)[j] == ids[j]);
                assert(lex_le(ids[i], ids[j]) && ids[i] != ids[j]);
            }
        }
        lemma_new_task_containers_ascending(prev_after, before, images);
        lemma_new_task_containers_members(prev_after, before, images);
        let prev = new_task_containers(prev_after, before, images);
        let r = new_task_containers(after, before, images);
        if r.len() > prev.len() {
            assert forall|i: int, j: int| 0 <= i < j < r.len() implies lex_le(r[i], r[j]) && r[i] != r[j] by {
                if j == r.len() - 1 {
                    assert(r[i] == prev[i]);
                    assert(listed_ids(prev_after).contains(prev[i]));
                    let m = choose|m: int| 0 <= m < listed_ids(prev_after).len() && listed_ids(prev_after)[m] == prev[i];
                    assert(ids[m] == prev[i]);
                    assert(ids[after.len() - 1] == r[j]);
                    assert(lex_le(ids[m], ids[after.len() - 1]) && ids[m] != ids[after.len() - 1]);
                } else {
                    assert(r[i] == prev[i] && r[j] == prev[j]);
                }
            }
        } else {
            assert(r == prev);
        }
    }
}

/// The Terminal-Bench containers a run created: those listed after it and
/// not before, whose image is one of the tasks' images.
pub fn new_task_container_ids(
    before_ids: &Vec<String>,
    after: &Vec<(String, String)>,
    task_images: &Vec<String>,
) -> (r: Vec<String>)
    ensures
        string_views(r@) == new_task_containers(
            pair_views(after@),
            string_views(before_ids@),
            string_views(task_images@),
        ),
        ascending_names(listed_ids(pair_views(after@))) ==> ascending_names(string_views(r@)),
{
    proof {
        if ascending_names(listed_ids(pair_views(after@))) {
            lemma_new_task_containers_ascending(
                pair_views(after@),
                string_views(before_ids@),
                string_views(task_images@),
            );
        }
    }
    let ghost a = pair_views(after@);
    let mut out: Vec<String> = Vec::new();
    let mut i: usize = 0;
    assert(a.take(0) == Seq::<(Seq<char>, Seq<char>)>::empty());
    while i < after.len()
        invariant
            i <= after.len(),
            a == pair_views(after@),
            string_views(out@) == new_task_containers(
                a.take(i as int),
                string_views(before_ids@),
                string_views(task_images@),
            ),
        decreases after.len() - i,
    {
        let ghost t = a.take(i + 1);
        assert(t.drop_last() == a.take(i as int));
        assert(t.last() == (after@[i as int].0@, after@[i as int].1@));
        let known = strings_contain(before_ids, after[i].0.as_str());
        let task = strings_contain(task_images, after[i].1.as_str());
        if !known && task {
            let ghost prev = string_views(out@);
            let id = after[i].0.clone();
            out.push(id);
            assert(string_views(out@) =~= prev.push(after@[i as int].0@));
        }
        i = i + 1;
    }
    assert(a.take(after.len() as int) == a);
    out
}

/// The docker image a Terminal-Bench `task.toml` names: the value of the
/// first `docker_image = ...` line, trimmed and unquoted.
pub open spec fn docker_image_in(ls: Seq<Seq<char>>) -> Option<Seq<char>>
    decreases ls.len(),
{
    if ls.len() == 0 {
        None
    } else {
        match split_once(ls[0], '=') {
            Some((key, value)) => if trim(key) == "docker_image"@ {
                Some(trim_both(TrimSet::DoubleQuote, trim(value)))
            } else {
                docker_image_in(ls.drop_first())
            },
            None => docker_image_in(ls.drop_first()),
        }
    }
}

/// The docker image that a Terminal-Bench task's `task.toml` names.
pub fn task_docker_image(contents: &str) -> (r: Option<String>)
    ensures
        opt_chars(r) == docker_image_in(lines(contents@)),
{
    let ls = lines_of(contents);
    let ghost views = ls@.map_values(|l: String| l@);
    let key_name = chars_of("docker_image");
    let mut i: usize = 0;
    assert(views.skip(0) == views);
    while i < ls.len()
        invariant
            i <= ls.len(),
            views == ls@.map_values(|l: String| l@),
            views == lines(contents@),
            key_name@ == "docker_image"@,
            docker_image_in(views.skip(i as int)) == docker_image_in(views),
        decreases ls.len() - i,
    {
        let ghost rest = views.skip(i as int);
        assert(rest[0] == ls@[i as int]@);
        assert(rest.drop_first() == views.skip(i + 1));
        let line = chars_of(ls[i].as_str());
        match split_once_chars(&line, '=') {
            Some((key, value)) => {
                let k = trim_chars(TrimSet::Whitespace, &key);
                if crate::text::chars_eq(&k, &key_name) {
                    let v = trim_chars(TrimSet::Whitespace, &value);
                    let q = trim_chars(TrimSet::DoubleQuote, &v);
                    return Some(string_from_chars(&q));
                }
            },
            None => {},
        }
        i = i + 1;
    }
    None
}

/// The process ids that a listing printed, one per line.
pub open spec fn process_ids_in(ls: Seq<Seq<char>>) -> Seq<int>
    decreases ls.len(),
{
    if ls.len() == 0 {
        seq![]
    } else {
        let prev = process_ids_in(ls.drop_last());
        match parsed_integer(trim(ls.last()), false) {
            Some(n) => if n <= u32::MAX {
                prev.push(n)
            } else {
                prev
            },
            None => prev,
        }
    }
}

/// The ids of the running Harbor host processes that a process listing
/// printed; none where the listing could not be run or failed.
pub fn harbor_process_ids_from(run: Result<ProcessOutput, String>) -> (r: Vec<u32>)
    ensures
        r@.map_values(|x: u32| x as int) == (match run {
            Ok(o) => if o.success {
                process_ids_in(lines(o.stdout@))
            } else {
                seq![]
            },
            Err(_) => seq![],
        }),
{
    let mut out: Vec<u32> = Vec::new();
    match run {
        Ok(o) => {
            if !o.success {
                assert(out@.map_values(|x: u32| x as int) =~= Seq::<int>::empty());
                return out;
            }
            let ls = lines_of(o.stdout.as_str());
            let ghost views = ls@.map_values(|l: String| l@);
            let mut i: usize = 0;
            assert(out@.map_values(|x: u32| x as int) =~= Seq::<int>::empty());
            while i < ls.len()
                invariant
                    i <= ls@.len(),
                    views == ls@.map_values(|l: String| l@),
                    views == lines(o.stdout@),
                    out@.map_values(|x: u32| x as int) == process_ids_in(views.take(i as int)),
                decreases ls.len() - i,
            {
                assert(views.take(i + 1).drop_last() == views.take(i as int));
                assert(views.take(i + 1).last() == ls@[i as int]@);
                let line = chars_of(ls[i].as_str());
                let t = trim_chars(TrimSet::Whitespace, &line);
                let n = t.len();
                assert(t@.subrange(0, n as int) == t@);
                match parse_u64_range(&t, 0, n) {
                    Some(x) => {
                        if x <= 0xffff_ffff {
                            let ghost prev = out@.map_values(|y: u32| y as int);
                            out.push(x as u32);
                            assert(out@.map_values(|y: u32| y as int) =~= prev.push(x as int));
                        }
                    },
                    None => {},
                }
                i = i + 1;
            }
            assert(views.take(ls.len() as int) == views);
            out
        },
        Err(_) => {
            assert(out@.map_values(|x: u32| x as int) =~= Seq::<int>::empty());
            out
        },
    }
}

/// The elements of `after` that are not in `before`, in the order of
/// `after`.
pub open spec fn ids_not_in(after: Seq<u32>, before: Seq<u32>) -> Seq<u32>
    decreases after.len(),
{
    if after.len() == 0 {
        seq![]
    } else {
        let prev = ids_not_in(after.drop_last(), before);
        if before.contains(after.last()) {
            prev
        } else {
            prev.push(after.last())
        }
    }
}

proof fn lemma_ids_not_in_members(after: Seq<u32>, before: Seq<u32>)
    ensures
        forall|k: int| #![trigger ids_not_in(after, before)[k]]
            0 <= k < ids_not_in(after, before).len() ==> after.contains(ids_not_in(after, before)[k]),
    decreases after.len(),
{
    if after.len() > 0 {
        let pa = after.drop_last();
        lemma_ids_not_in_members(pa, before);
        let r = ids_not_in(after, before);
        let prev = ids_not_in(pa, before);
        assert forall|k: int| 0 <= k < r.len() implies after.contains(#[trigger] r[k]) by {
            if k < prev.len() {
                assert(r[k] == prev[k]);
                let m = choose|m: int| 0 <= m < pa.len() && pa[m] == prev[k];
                assert(after[m] == pa[m]);
            } else {
                assert(after[after.len() - 1] == r[k]);
            }
        }
    }
}

/// The new processes of an ascending listing come in ascending order.
pub proof fn lemma_ids_not_in_ascending(after: Seq<u32>, before: Seq<u32>)
    requires
        ascending_ids(after),
    ensures
        ascending_ids(ids_not_in(after, before)),
    decreases after.len(),
{
    if after.len() > 0 {
        let pa = after.drop_last();
        assert(ascending_ids(pa)) by {
            assert forall|i: int, j: int| 0 <= i < j < pa.len() implies pa[i] < pa[j] by {
                assert(pa[i] == after[i] && pa[j] == after[j]);
                assert(after[i] < after[j]);
            }
        }
        lemma_ids_not_in_ascending(pa, before);
        lemma_ids_not_in_members(pa, before);
        let prev = ids_not_in(pa, before);
        let r = ids_not_in(after, before);
        if r.len() > prev.len() {
            assert forall|i: int, j: int| 0 <= i < j < r.len() implies r[i] < r[j] by {
                if j == r.len() - 1 {
                    assert(r[i] == prev[i]);
                    assert(pa.contains(prev[i]));
                    let m = choose|m: int| 0 <= m < pa.len() && pa[m] == prev[i];
                    assert(after[m] == prev[i]);
                    assert(after[after.len() - 1] == r[j]);
                    assert(after[m] < after[after.len() - 1]);
                } else {
                    assert(r[i] == prev[i] && r[j] == prev[j]);
                }
            }
        } else {
            assert(r == prev);
        }
    }
}

/// The Harbor host processes a run started: those listed after it and not
/// before, in the order of `after`.
pub fn new_process_ids(before: &Vec<u32>, after: &Vec<u32>) -> (r: Vec<u32>)
    ensures
        r@ == ids_not_in(after@, before@),
        ascending_ids(after@) ==> ascending_ids(r@),
{
    proof {
        if ascending_ids(after@) {
            lemma_ids_not_in_ascending(after@, before@);
        }
    }
    let mut out: Vec<u32> = Vec::new();
    let mut i: usize = 0;
    assert(after@.take(0) == Seq::<u32>::empty());
    while i < after.len()
        invariant
            i <= after.len(),
            out@ == ids_not_in(after@.take(i as int), before@),
        decreases after.len() - i,
    {
        let ghost t = after@.take(i + 1);
        assert(t.drop_last() == after@.take(i as int));
        assert(t.last() == after@[i as int]);
        let x = after[i];
        let mut found = false;
        let mut j: usize = 0;
        while j < before.len()
            invariant
                j <= before.len(),
                found == (exists|k: int| 0 <= k < j && before@[k] == x),
            decreases before.len() - j,
        {
            if before[j] == x {
                found = true;
            }
            j = j + 1;
        }
        assert(found == before@.contains(x));
        if !found {
            out.push(x);
        }
        i = i + 1;
    }
    assert(after@.take(after.len() as int) == after@);
    out
}

/// The progress line after `docker rm -f` on `count` containers: `tool`
/// names the harness, `label` the kind of container.
pub fn container_removal_message(
    tool: &str,
    label: &str,
    count: usize,
    run: Result<ProcessOutput, String>,
) -> (r: String)
    ensures
        r@ == (match run {
            Ok(o) => if o.success {
                tool@ + ": removed "@ + decimal(count as nat) + " "@ + label@ + " container(s)"@
            } else {
                tool@ + ": failed to remove "@ + label@ + " containers: "@ + trim(o.stderr@)
            },
            Err(e) => tool@ + ": failed to remove "@ + label@ + " containers: "@ + e@,
        }),
{
    let mut r = String::from_str(tool);
    match run {
        Ok(o) => {
            if o.success {
                r.append(": removed ");
                let n = decimal_string(count as u64);
                r.append(n.as_str());
                r.append(" ");
                r.append(label);
                r.append(" container(s)");
            } else {
                r.append(": failed to remove ");
                r.append(label);
                r.append(" containers: ");
                let t = trimmed(o.stderr.as_str());
                r.append(t.as_str());
            }
        },
        Err(e) => {
            r.append(": failed to remove ");
            r.append(label);
            r.append(" containers: ");
            r.append(e.as_str());
        },
    }
    r
}

// ---------------------------------------------------------------------------
// Run settings
// ---------------------------------------------------------------------------

/// How many worked examples a GPQA prompt carries.
#[derive(Clone, Copy, Debug, PartialEq, Eq, Structural)]
pub enum GpqaShotMode {
    ZeroShot,
    FiveShotCot,
}

impl GpqaShotMode {
    /// The number of worked examples.
    pub fn few_shot_num(self) -> (r: u8)
        ensures
            r == (match self {
                GpqaShotMode::ZeroShot => 0u8,
                GpqaShotMode::FiveShotCot => 5u8,
            }),
    {
        match self {
            GpqaShotMode::ZeroShot => 0,
            GpqaShotMode::FiveShotCot => 5,
        }
    }

    /// The label shown for the mode.
    pub fn label(self) -> (r: &'static str)
        ensures
            r@ == (match self {
                GpqaShotMode::ZeroShot => "0-shot CoT"@,
                GpqaShotMode::FiveShotCot => "5-shot CoT"@,
            }),
    {
        match self {
            GpqaShotMode::ZeroShot => "0-shot CoT",
            GpqaShotMode::FiveShotCot => "5-shot CoT",
        }
    }
}

/// Whether the chat template's thinking mode is on for a benchmark run.
#[derive(Clone, Copy, Debug, PartialEq, Eq, Structural)]
pub enum GpqaThinkingMode {
    Off,
    On,
}

impl GpqaThinkingMode {
    /// Whether thinking is enabled.
    pub fn enable_thinking(self) -> (r: bool)
        ensures
            r == (self is On),
    {
        match self {
            GpqaThinkingMode::On => true,
            GpqaThinkingMode::Off => false,
        }
    }
}

/// The model name Harbor's LiteLLM client is given: the model id with the
/// `openai/` provider prefix, added where it is not there yet.
pub fn terminal_bench_litellm_model_name(model_id: &str) -> (r: String)
    ensures
        r@ == (if starts_with_seq(model_id@, "openai/"@) {
            model_id@
        } else {
            "openai/"@ + model_id@
        }),
{
    if crate::text::str_starts_with(model_id, "openai/") {
        String::from_str(model_id)
    } else {
        let mut name = String::from_str("openai/");
        name.append(model_id);
        name
    }
}

// ---------------------------------------------------------------------------
// MMMU-Pro subjects
// ---------------------------------------------------------------------------

/// One MMMU-Pro subject of a run, with how many of its samples to use.
#[derive(Clone, Debug)]
pub struct MmmuProSubjectRunConfig {
    pub subject: String,
    pub sample_limit: u64,
}

/// The subject names and sample limits of a selection.
pub open spec fn subject_views(v: Seq<MmmuProSubjectRunConfig>) -> Seq<(Seq<char>, u64)> {
    v.map_values(|c: MmmuProSubjectRunConfig| (c.subject@, c.sample_limit))
}

/// The MMMU-Pro subjects a run may select.
pub open spec fn mmmu_pro_subject_names() -> Seq<Seq<char>> {
    seq![
        "Accounting"@,
        "Agriculture"@,
        "Architecture_and_Engineering"@,
        "Art"@,
        "Art_Theory"@,
        "Basic_Medical_Science"@,
        "Biology"@,
        "Chemistry"@,
        "Clinical_Medicine"@,
        "Computer_Science"@,
        "Design"@,
        "Diagnostics_and_Laboratory_Medicine"@,
        "Economics"@,
        "Electronics"@,
        "Energy_and_Power"@,
        "Finance"@,
        "Geography"@,
        "History"@,
        "Literature"@,
        "Manage"@,
        "Marketing"@,
        "Materials"@,
        "Math"@,
        "Mechanical_Engineering"@,
        "Music"@,
        "Pharmacy"@,
        "Physics"@,
        "Psychology"@,
        "Public_Health"@,
        "Sociology"@
    ]
}

/// The MMMU-Pro subjects a run may select.
pub fn mmmu_pro_subsets() -> (r: Vec<&'static str>)
    ensures
        str_views(r@) == mmmu_pro_subject_names(),
{
    let r = vec![
        "Accounting",
        "Agriculture",
        "Architecture_and_Engineering",
        "Art",
        "Art_Theory",
        "Basic_Medical_Science",
        "Biology",
        "Chemistry",
        "Clinical_Medicine",
        "Computer_Science",
        "Design",
        "Diagnostics_and_Laboratory_Medicine",
        "Economics",
        "Electronics",
        "Energy_and_Power",
        "Finance",
        "Geography",
        "History",
        "Literature",
        "Manage",
        "Marketing",
        "Materials",
        "Math",
        "Mechanical_Engineering",
        "Music",
        "Pharmacy",
        "Physics",
        "Psychology",
        "Public_Health",
        "Sociology"
    ];
    assert(str_views(r@) =~= mmmu_pro_subject_names());
    r
}

/// A subject name with its underscores shown as spaces.
pub open spec fn spaced(s: Seq<char>) -> Seq<char> {
    s.map_values(|c: char| if c == '_' { ' ' } else { c })
}

fn spaced_name(s: &str) -> (r: String)
    ensures
        r@ == spaced(s@),
{
    let v = chars_of(s);
    let mut r = String::new();
    let mut i: usize = 0;
    while i < v.len()
        invariant
            v@ == s@,
            i <= v.len(),
            r@ == spaced(v@.take(i as int)),
        decreases v.len() - i,
    {
        let c = v[i];
        assert(spaced(v@.take(i + 1)) =~= spaced(v@.take(i as int)).push(
            if c == '_' { ' ' } else { c },
        ));
        if c == '_' {
            crate::text::push_char(&mut r, ' ');
        } else {
            crate::text::push_char(&mut r, c);
        }
        i = i + 1;
    }
    assert(v@.take(v.len() as int) == v@);
    r
}

/// What is wrong with selecting `x` after the subjects `prior`, if anything.
pub open spec fn subject_problem(prior: Seq<(Seq<char>, u64)>, x: (Seq<char>, u64)) -> Option<Seq<char>> {
    if !mmmu_pro_subject_names().contains(x.0) {
        Some("Unknown MMMU-Pro subject: "@ + x.0 + "."@)
    } else if prior.map_values(|p: (Seq<char>, u64)| p.0).contains(x.0) {
        Some("MMMU-Pro subject "@ + x.0 + " was selected more than once."@)
    } else if x.1 == 0 || x.1 > 1730 {
        Some("MMMU-Pro "@ + spaced(x.0) + " samples must be between 1 and 1730."@)
    } else {
        None
    }
}

/// The first problem with a subject selection, taken in order.
pub open spec fn subjects_problem(s: Seq<(Seq<char>, u64)>) -> Option<Seq<char>>
    decreases s.len(),
{
    if s.len() == 0 {
        None
    } else {
        match subjects_problem(s.drop_last()) {
            Some(e) => Some(e),
            None => subject_problem(s.drop_last(), s.last()),
        }
    }
}

proof fn lemma_subjects_problem_prefix(s: Seq<(Seq<char>, u64)>, k: int)
    requires
        0 <= k <= s.len(),
        subjects_problem(s.take(k)) is Some,
    ensures
        subjects_problem(s) == subjects_problem(s.take(k)),
    decreases s.len(),
{
    if k < s.len() {
        assert(s.drop_last().take(k) == s.take(k));
        lemma_subjects_problem_prefix(s.drop_last(), k);
    } else {
        assert(s.take(k) == s);
    }
}

fn subject_seen(v: &Vec<MmmuProSubjectRunConfig>, upto: usize, x: &str) -> (r: bool)
    requires
        upto <= v.len(),
    ensures
        r == subject_views(v@).take(upto as int).map_values(|p: (Seq<char>, u64)| p.0).contains(x@),
{
    let ghost names = subject_views(v@).take(upto as int).map_values(|p: (Seq<char>, u64)| p.0);
    let mut j: usize = 0;
    while j < upto
        invariant
            upto <= v.len(),
            j <= upto,
            names == subject_views(v@).take(upto as int).map_values(|p: (Seq<char>, u64)| p.0),
            forall|k: int| 0 <= k < j ==> names[k] != x@,
        decreases upto - j,
    {
        if str_eq(v[j].subject.as_str(), x) {
            assert(names[j as int] == x@);
            return true;
        }
        j = j + 1;
    }
    false
}

fn check_subjects(v: &Vec<MmmuProSubjectRunConfig>) -> (r: Result<(), String>)
    ensures
        match r {
            Ok(()) => subjects_problem(subject_views(v@)) is None,
            Err(e) => subjects_problem(subject_views(v@)) == Some(e@),
        },
{
    let allowed = mmmu_pro_subsets();
    let ghost views = subject_views(v@);
    let mut i: usize = 0;
    assert(views.take(0) =~= Seq::<(Seq<char>, u64)>::empty());
    while i < v.len()
        invariant
            i <= v.len(),
            views == subject_views(v@),
            str_views(allowed@) == mmmu_pro_subject_names(),
            subjects_problem(views.take(i as int)) is None,
        decreases v.len() - i,
    {
        let ghost t = views.take(i + 1);
        assert(t.drop_last() == views.take(i as int));
        assert(t.last() == (v@[i as int].subject@, v@[i as int].sample_limit));
        let name = v[i].subject.as_str();
        let problem: Option<String> = if !crate::quant::tensor_set::names_contain(&allowed, name) {
            let mut e = String::from_str("Unknown MMMU-Pro subject: ");
            e.append(name);
            e.append(".");
            Some(e)
        } else if subject_seen(v, i, name) {
            let mut e = String::from_str("MMMU-Pro subject ");
            e.append(name);
            e.append(" was selected more than once.");
            Some(e)
        } else if v[i].sample_limit == 0 || v[i].sample_limit > 1730 {
            let mut e = String::from_str("MMMU-Pro ");
            let shown = spaced_name(name);
            e.append(shown.as_str());
            e.append(" samples must be between 1 and 1730.");
            Some(e)
        } else {
            None
        };
        match problem {
            Some(e) => {
                proof {
                    lemma_subjects_problem_prefix(views, i + 1);
                }
                return Err(e);
            },
            None => {},
        }
        i = i + 1;
    }
    assert(views.take(v.len() as int) == views);
    Ok(())
}

/// The subjects of an MMMU-Pro run, with the default sample limit that the
/// run's generation settings give. Without a selection every subject runs
/// with that limit.
pub fn effective_mmmu_pro_subjects(
    subjects: Option<Vec<MmmuProSubjectRunConfig>>,
    default_sample_limit: u64,
) -> (r: Result<Vec<MmmuProSubjectRunConfig>, String>)
    ensures
        ({
            let chosen = match subjects {
                Some(v) => subject_views(v@),
                None => mmmu_pro_subject_names().map_values(|n: Seq<char>| (n, default_sample_limit)),
            };
            match r {
                Ok(v) => chosen.len() > 0 && subjects_problem(chosen) is None && subject_views(v@)
                    == chosen,
                Err(e) => if chosen.len() == 0 {
                    e@ == "Select at least one MMMU-Pro subject."@
                } else {
                    subjects_problem(chosen) == Some(e@)
                },
            }
        }),
{
    let list = match subjects {
        Some(v) => v,
        None => {
            let names = mmmu_pro_subsets();
            let mut all: Vec<MmmuProSubjectRunConfig> = Vec::new();
            let mut i: usize = 0;
            while i < names.len()
                invariant
                    i <= names.len(),
                    str_views(names@) == mmmu_pro_subject_names(),
                    subject_views(all@) == mmmu_pro_subject_names().take(i as int).map_values(
                        |n: Seq<char>| (n, default_sample_limit),
                    ),
                decreases names.len() - i,
            {
                let ghost prev = subject_views(all@);
                all.push(MmmuProSubjectRunConfig {
                    subject: String::from_str(names[i]),
                    sample_limit: default_sample_limit,
                });
                assert(subject_views(all@) =~= prev.push((names@[i as int]@, default_sample_limit)));
                assert(mmmu_pro_subject_names().take(i + 1).map_values(
                    |n: Seq<char>| (n, default_sample_limit),
                ) =~= mmmu_pro_subject_names().take(i as int).map_values(
                    |n: Seq<char>| (n, default_sample_limit),
                ).push((names@[i as int]@, default_sample_limit)));
                i = i + 1;
            }
            assert(mmmu_pro_subject_names().take(names.len() as int) == mmmu_pro_subject_names());
            all
        },
    };
    if list.len() == 0 {
        return Err(String::from_str("Select at least one MMMU-Pro subject."));
    }
    match check_subjects(&list) {
        Ok(()) => Ok(list),
        Err(e) => Err(e),
    }
}

/// The index of the first group whose sample limit is `limit`.
pub open spec fn group_index(g: Seq<(u64, Seq<Seq<char>>)>, limit: u64) -> Option<int>
    decreases g.len(),
{
    if g.len() == 0 {
        None
    } else if g[0].0 == limit {
        Some(0)
    } else {
        match group_index(g.drop_first(), limit) {
            Some(k) => Some(k + 1),
            None => None,
        }
    }
}

/// Subjects grouped by sample limit, the groups in the order in which
/// their limits first occur and each group's subjects in selection order.
pub open spec fn subject_groups(s: Seq<(Seq<char>, u64)>) -> Seq<(u64, Seq<Seq<char>>)>
    decreases s.len(),
{
    if s.len() == 0 {
        seq![]
    } else {
        let g = subject_groups(s.drop_last());
        let x = s.last();
        match group_index(g, x.1) {
            Some(k) => g.update(k, (x.1, g[k].1.push(x.0))),
            None => g.push((x.1, seq![x.0])),
        }
    }
}

proof fn lemma_group_index(g: Seq<(u64, Seq<Seq<char>>)>, limit: u64, j: int)
    requires
        0 <= j <= g.len(),
        forall|k: int| 0 <= k < j ==> g[k].0 != limit,
        j < g.len() ==> g[j].0 == limit,
    ensures
        group_index(g, limit) == (if j < g.len() {
            Some(j)
        } else {
            None::<int>
        }),
    decreases j,
{
    if j > 0 {
        assert(g[0].0 != limit);
        let t = g.drop_first();
        assert forall|k: int| 0 <= k < j - 1 implies t[k].0 != limit by {
            assert(t[k] == g[k + 1]);
        }
        if j < g.len() {
            assert(t[j - 1] == g[j]);
        }
        lemma_group_index(t, limit, j - 1);
    }
}

/// The views of a grouping.
pub open spec fn group_views(g: Seq<(u64, Vec<String>)>) -> Seq<(u64, Seq<Seq<char>>)> {
    g.map_values(|x: (u64, Vec<String>)| (x.0, string_views(x.1@)))
}

/// The subjects of a run grouped by sample limit: one evaluation runs per
/// group.
pub fn mmmu_pro_subject_groups(subjects: &[MmmuProSubjectRunConfig]) -> (r: Vec<(u64, Vec<String>)>)
    ensures
        group_views(r@) == subject_groups(subject_views(subjects@)),
{
    let ghost views = subject_views(subjects@);
    let mut groups: Vec<(u64, Vec<String>)> = Vec::new();
    let mut i: usize = 0;
    assert(views.take(0) =~= Seq::<(Seq<char>, u64)>::empty());
    while i < subjects.len()
        invariant
            i <= subjects.len(),
            views == subject_views(subjects@),
            group_views(groups@) == subject_groups(views.take(i as int)),
        decreases subjects.len() - i,
    {
        let ghost t = views.take(i + 1);
        let ghost g = group_views(groups@);
        assert(t.drop_last() == views.take(i as int));
        assert(t.last() == (subjects@[i as int].subject@, subjects@[i as int].sample_limit));
        let limit = subjects[i].sample_limit;
        let mut j: usize = 0;
        while j < groups.len()
            invariant
                j <= groups.len(),
                g == group_views(groups@),
                forall|k: int| 0 <= k < j ==> g[k].0 != limit,
            ensures
                j <= groups.len(),
                forall|k: int| 0 <= k < j ==> g[k].0 != limit,
                j < groups.len() ==> g[j as int].0 == limit,
            decreases groups.len() - j,
        {
            if groups[j].0 == limit {
                break;
            }
            j = j + 1;
        }
        proof {
            lemma_group_index(g, limit, j as int);
        }
        let name = subjects[i].subject.clone();
        if j < groups.len() {
            let ghost old_groups = groups@;
            let (l, mut members) = groups.remove(j);
            let ghost old_members = string_views(members@);
            members.push(name);
            assert(string_views(members@) =~= old_members.push(subjects@[i as int].subject@));
            groups.insert(j, (l, members));
            assert(groups@ =~= old_groups.update(j as int, (l, members)));
            assert(group_views(groups@) =~= g.update(
                j as int,
                (limit, g[j as int].1.push(subjects@[i as int].subject@)),
            ));
        } else {
            let mut members: Vec<String> = Vec::new();
            members.push(name);
            assert(string_views(members@) =~= seq![subjects@[i as int].subject@]);
            groups.push((limit, members));
            assert(group_views(groups@) =~= g.push((limit, seq![subjects@[i as int].subject@])));
        }
        i = i + 1;
    }
    assert(views.take(subjects.len() as int) == views);
    groups
}

// ---------------------------------------------------------------------------
// Dataset preview rows
// ---------------------------------------------------------------------------

/// One GPQA Diamond question shown in the dataset preview.
#[derive(Clone, Debug, PartialEq, Eq)]
pub struct GpqaDatasetRow {
    pub index: usize,
    pub question: String,
    pub choices: Vec<String>,
    pub answer: Option<String>,
}

/// One HumanEval task shown in the dataset preview.
#[derive(Clone, Debug, PartialEq, Eq)]
pub struct HumanEvalDatasetRow {
    pub index: usize,
    pub task_id: String,
    pub entry_point: String,
    pub prompt: String,
    pub canonical_solution: String,
}

/// One MMMU-Pro question shown in the dataset preview.
#[derive(Clone, Debug, PartialEq, Eq)]
pub struct MmmuProDatasetRow {
    pub index: usize,
    pub task_id: String,
    pub subject: String,
    pub question: String,
    pub choices: Vec<String>,
    pub image_urls: Vec<String>,
}

/// One Terminal-Bench task shown in the dataset preview.
#[derive(Clone, Debug, PartialEq, Eq)]
pub struct TerminalBenchDatasetRow {
    pub index: usize,
    pub task_id: String,
    pub instruction: String,
    pub path: String,
}

/// The preview row of a Terminal-Bench task: its position, its folder's
/// name, its instruction trimmed, and its folder's path under the dataset
/// root with the parts joined by backslashes.
pub fn terminal_bench_row(
    index: usize,
    task_id: String,
    instruction_text: &str,
    path_parts: &Vec<String>,
) -> (r: TerminalBenchDatasetRow)
    ensures
        r.index == index,
        r.task_id@ == task_id@,
        r.instruction@ == trim(instruction_text@),
        r.path@ == join(string_views(path_parts@), "\\"@),
{
    TerminalBenchDatasetRow {
        index,
        task_id,
        instruction: trimmed(instruction_text),
        path: join_strings(path_parts, "\\"),
    }
}

/// `needle` occurs at `i` and nowhere after.
pub open spec fn last_occurrence_at(hay: Seq<char>, needle: Seq<char>, i: int) -> bool {
    occurs_at(hay, needle, i) && forall|j: int| i < j ==> !occurs_at(hay, needle, j)
}

/// `needle` occurs at `i` and nowhere before.
pub open spec fn first_occurrence_at(hay: Seq<char>, needle: Seq<char>, i: int) -> bool {
    occurs_at(hay, needle, i) && forall|j: int| 0 <= j < i ==> !occurs_at(hay, needle, j)
}

/// The part of `s` before the first `sep`, or all of `s` (std's
/// `split(sep).next()`).
pub open spec fn before_first(s: Seq<char>, sep: Seq<char>) -> Seq<char> {
    if contains_seq(s, sep) {
        s.take(choose|k: int| first_occurrence_at(s, sep, k))
    } else {
        s
    }
}

/// The sentence that ends EvalScope's GPQA instructions.
pub open spec fn gpqa_instruction_end() -> Seq<char> {
    "Think step by step before answering."@
}

/// The question of an EvalScope GPQA prompt: the text after the last
/// "Think step by step before answering." up to the first "\nA)" choice,
/// trimmed, if that is not blank.
pub open spec fn gpqa_question(content: Seq<char>) -> Option<Seq<char>> {
    let m = gpqa_instruction_end();
    if contains_seq(content, m) {
        let i = choose|i: int| last_occurrence_at(content, m, i);
        let q = trim(before_first(content.skip(i + m.len()), "\nA)"@));
        if q.len() > 0 {
            Some(q)
        } else {
            None
        }
    } else {
        None
    }
}

/// The last character position at which `needle` occurs in `hay`.
fn find_last(hay: &Vec<char>, needle: &Vec<char>) -> (r: Option<usize>)
    ensures
        match r {
            Some(i) => last_occurrence_at(hay@, needle@, i as int),
            None => !contains_seq(hay@, needle@),
        },
{
    if needle.len() > hay.len() {
        assert forall|j: int| !occurs_at(hay@, needle@, j) by {}
        return None;
    }
    let mut i: usize = hay.len() - needle.len();
    loop
        invariant
            i <= hay.len() - needle.len(),
            needle.len() <= hay.len(),
            forall|j: int| i < j ==> !occurs_at(hay@, needle@, j),
        decreases i,
    {
        if crate::text::matches_at(hay, needle, i) {
            return Some(i);
        }
        if i == 0 {
            assert forall|j: int| !occurs_at(hay@, needle@, j) by {
                if j == 0 {
                    assert(!occurs_at(hay@, needle@, 0));
                }
            }
            return None;
        }
        i = i - 1;
    }
}

/// The question text of an EvalScope GPQA prompt, if it has one.
pub fn gpqa_question_from_prompt(content: &str) -> (r: Option<String>)
    ensures
        opt_chars(r) == gpqa_question(content@),
{
    let c = chars_of(content);
    let m = chars_of("Think step by step before answering.");
    let i = match find_last(&c, &m) {
        Some(i) => i,
        None => return None,
    };
    proof {
        let w = choose|j: int| last_occurrence_at(content@, gpqa_instruction_end(), j);
        assert(last_occurrence_at(content@, gpqa_instruction_end(), w));
        if w < i {
            assert(!occurs_at(content@, gpqa_instruction_end(), i as int));
        } else if w > i {
            assert(!occurs_at(content@, gpqa_instruction_end(), w));
        }
    }
    assert(occurs_at(c@, m@, i as int));
    assert(i + m.len() <= c.len());
    let after = crate::text::suffix_chars(&c, i + m.len());
    let sep = chars_of("\nA)");
    let head = match crate::text::find_chars(&after, &sep) {
        Some(k) => {
            proof {
                assert(first_occurrence_at(after@, sep@, k as int));
                let w = choose|j: int| first_occurrence_at(after@, sep@, j);
                assert(first_occurrence_at(after@, sep@, w));
                if w < k {
                    assert(!occurs_at(after@, sep@, w));
                } else if w > k {
                    assert(!occurs_at(after@, sep@, k as int));
                }
            }
            crate::text::string_from_range(&after, 0, k)
        },
        None => crate::text::string_from_chars(&after),
    };
    let hv = chars_of(head.as_str());
    let t = trim_chars(TrimSet::Whitespace, &hv);
    if t.len() > 0 {
        Some(crate::text::string_from_chars(&t))
    } else {
        None
    }
}

// ---------------------------------------------------------------------------
// Helper processes
// ---------------------------------------------------------------------------

/// What a helper process gave: whether it exited successfully, and its
/// standard output and error as text.
#[derive(Clone, Debug)]
pub struct ProcessOutput {
    pub success: bool,
    pub stdout: String,
    pub stderr: String,
}

fn trimmed(s: &str) -> (r: String)
    ensures
        r@ == trim(s@),
{
    crate::text::trim_str(s)
}

fn joined(a: &str, b: &str) -> (r: String)
    ensures
        r@ == a@ + b@,
{
    let mut r = String::from_str(a);
    r.append(b);
    r
}

/// What `docker info` says of the Docker daemon: whether it runs, its
/// version where it printed one, and the text shown. `run` is `Err` with
/// the reason when the command could not be started.
pub fn docker_status_from(run: Result<ProcessOutput, String>) -> (r: (bool, Option<String>, String))
    ensures
        match run {
            Ok(o) => if o.success {
                let v = trim(o.stdout@);
                &&& r.0
                &&& opt_chars(r.1) == (if v.len() > 0 { Some(v) } else { None })
                &&& r.2@ == (if v.len() > 0 {
                    "Docker daemon is available ("@ + v + ")."@
                } else {
                    "Docker daemon is available."@
                })
            } else {
                let e = trim(o.stderr@);
                &&& !r.0
                &&& r.1 is None
                &&& r.2@ == (if e.len() > 0 {
                    e
                } else {
                    "Docker CLI is available, but the Docker daemon is not running."@
                })
            },
            Err(e) => !r.0 && r.1 is None && r.2@ == "Docker was not found or could not be started: "@
                + e@,
        },
{
    match run {
        Ok(o) => {
            if o.success {
                let v = trimmed(o.stdout.as_str());
                if v.as_str().is_empty() {
                    (true, None, String::from_str("Docker daemon is available."))
                } else {
                    let mut d = String::from_str("Docker daemon is available (");
                    d.append(v.as_str());
                    d.append(").");
                    (true, Some(v), d)
                }
            } else {
                let e = trimmed(o.stderr.as_str());
                if e.as_str().is_empty() {
                    (false, None, String::from_str("Docker CLI is available, but the Docker daemon is not running."))
                } else {
                    (false, None, e)
                }
            }
        },
        Err(e) => (false, None, joined("Docker was not found or could not be started: ", e.as_str())),
    }
}

/// The outcome of the Harbor probe (`uvx ... harbor --help`).
pub fn harbor_probe_result(run: Result<ProcessOutput, String>) -> (r: Result<String, String>)
    ensures
        match run {
            Ok(o) => if o.success {
                r matches Ok(x) && x@ == trim(o.stdout@)
            } else {
                r matches Err(x) && x@ == (if trim(o.stderr@).len() > 0 {
                    trim(o.stderr@)
                } else {
                    "Harbor probe failed."@
                })
            },
            Err(e) => r matches Err(x) && x@ == "Harbor was not found or could not be started with uvx: "@
                + e@,
        },
{
    match run {
        Ok(o) => {
            if o.success {
                Ok(trimmed(o.stdout.as_str()))
            } else {
                let e = trimmed(o.stderr.as_str());
                if e.as_str().is_empty() {
                    Err(String::from_str("Harbor probe failed."))
                } else {
                    Err(e)
                }
            }
        },
        Err(e) => Err(joined("Harbor was not found or could not be started with uvx: ", e.as_str())),
    }
}

/// The outcome of a benchmark harness probe script; `harness` names the
/// harness in messages ("Python" for GPQA Diamond, "HumanEval").
pub fn harness_probe_result(run: Result<ProcessOutput, String>, harness: &str) -> (r: Result<String, String>)
    ensures
        match run {
            Ok(o) => if o.success {
                r matches Ok(x) && x@ == o.stdout@
            } else {
                r matches Err(x) && x@ == harness@ + " benchmark harness probe failed: "@ + trim(
                    o.stderr@,
                )
            },
            Err(e) => r matches Err(x) && x@ == "Failed to probe "@ + harness@ + " benchmark harness: "@
                + e@,
        },
{
    match run {
        Ok(o) => {
            if o.success {
                Ok(o.stdout)
            } else {
                let mut m = String::from_str(harness);
                m.append(" benchmark harness probe failed: ");
                let e = trimmed(o.stderr.as_str());
                m.append(e.as_str());
                Err(m)
            }
        },
        Err(e) => {
            let mut m = String::from_str("Failed to probe ");
            m.append(harness);
            m.append(" benchmark harness: ");
            m.append(e.as_str());
            Err(m)
        },
    }
}

/// The non-blank lines of `ls`, trimmed, in order.
pub open spec fn trimmed_lines(ls: Seq<Seq<char>>) -> Seq<Seq<char>>
    decreases ls.len(),
{
    if ls.len() == 0 {
        seq![]
    } else if trim(ls.last()).len() > 0 {
        trimmed_lines(ls.drop_last()).push(trim(ls.last()))
    } else {
        trimmed_lines(ls.drop_last())
    }
}

/// The container ids `docker ps` listed, one per line, in output order.
pub fn container_ids_from(run: Result<ProcessOutput, String>) -> (r: Result<Vec<String>, String>)
    ensures
        match run {
            Ok(o) => if o.success {
                r matches Ok(v) && string_views(v@) == trimmed_lines(lines(o.stdout@))
            } else {
                r matches Err(x) && x@ == "Failed to list HumanEval sandbox containers: "@ + trim(
                    o.stderr@,
                )
            },
            Err(e) => r matches Err(x) && x@ == "Failed to list HumanEval sandbox containers: "@ + e@,
        },
{
    match run {
        Ok(o) => {
            if o.success {
                let ls = lines_of(o.stdout.as_str());
                let ghost views = ls@.map_values(|l: String| l@);
                let mut ids: Vec<String> = Vec::new();
                let mut i: usize = 0;
                while i < ls.len()
                    invariant
                        i <= ls@.len(),
                        views == ls@.map_values(|l: String| l@),
                        views == lines(o.stdout@),
                        string_views(ids@) == trimmed_lines(views.take(i as int)),
                    decreases ls.len() - i,
                {
                    assert(views.take(i + 1).drop_last() == views.take(i as int));
                    assert(views.take(i + 1).last() == ls@[i as int]@);
                    let t = trimmed(ls[i].as_str());
                    if !t.as_str().is_empty() {
                        let ghost prev = string_views(ids@);
                        ids.push(t);
                        assert(string_views(ids@) =~= prev.push(trim(ls@[i as int]@)));
                    }
                    i = i + 1;
                }
                assert(views.take(ls.len() as int) == views);
                Ok(ids)
            } else {
                let e = trimmed(o.stderr.as_str());
                Err(joined("Failed to list HumanEval sandbox containers: ", e.as_str()))
            }
        },
        Err(e) => Err(joined("Failed to list HumanEval sandbox containers: ", e.as_str())),
    }
}

// ---------------------------------------------------------------------------
// Harbor command line
// ---------------------------------------------------------------------------

/// The Harbor run command line (the arguments given to `uvx`).
pub open spec fn harbor_args(
    task_dir: Seq<char>,
    jobs_dir: Seq<char>,
    base_url: Seq<char>,
    model_id: Seq<char>,
    agent_import_path: Seq<char>,
    model_info_json: Seq<char>,
    max_turns: u64,
    temperature_text: Seq<char>,
    runs_per_task: u64,
    timeout_multiplier: u64,
    llm_call_kwargs_json: Option<Seq<char>>,
    samples: Option<u64>,
) -> Seq<Seq<char>> {
    let model = if starts_with_seq(model_id, "openai/"@) {
        model_id
    } else {
        "openai/"@ + model_id
    };
    let base = seq![
        "--python"@,
        "3.12"@,
        "--from"@,
        "harbor"@,
        "harbor"@,
        "run"@,
        "--path"@,
        task_dir,
        "--jobs-dir"@,
        jobs_dir,
        "--job-name"@,
        "modelinspector-terminal-bench"@,
        "--agent"@,
        agent_import_path,
        "--model"@,
        model,
        "--ak"@,
        "api_base="@ + base_url,
        "--ak"@,
        "model_info="@ + model_info_json,
        "--ak"@,
        "max_turns="@ + crate::text::decimal(max_turns as nat),
        "--ak"@,
        "suppress_max_turns_warning=true"@,
        "--ak"@,
        "temperature="@ + temperature_text,
        "--n-concurrent"@,
        "1"@,
        "--n-attempts"@,
        crate::text::decimal(runs_per_task as nat),
        "--agent-timeout-multiplier"@,
        crate::text::decimal(timeout_multiplier as nat),
        "--max-retries"@,
        "0"@,
        "--yes"@,
        "--delete"@
    ];
    let with_kwargs = match llm_call_kwargs_json {
        Some(k) => base + seq!["--ak"@, "llm_call_kwargs="@ + k],
        None => base,
    };
    match samples {
        Some(n) => with_kwargs + seq!["--n-tasks"@, crate::text::decimal(n as nat)],
        None => with_kwargs,
    }
}

fn push_str(v: &mut Vec<String>, s: &str)
    ensures
        string_views(final(v)@) == string_views(old(v)@).push(s@),
{
    let ghost prev = string_views(v@);
    v.push(String::from_str(s));
    assert(string_views(v@) =~= prev.push(s@));
}

fn push_owned(v: &mut Vec<String>, s: String)
    ensures
        string_views(final(v)@) == string_views(old(v)@).push(s@),
{
    let ghost prev = string_views(v@);
    let ghost sv = s@;
    v.push(s);
    assert(string_views(v@) =~= prev.push(sv));
}

/// The command line that runs Terminal-Bench through Harbor (`uvx`
/// arguments): the JSON of the model limits, the temperature's text and the
/// JSON of the extra sampling arguments (where any are set) are given
/// already serialized.
pub fn terminal_bench_harbor_benchmark_args(
    task_dir: &str,
    jobs_dir: &str,
    base_url: &str,
    model_id: &str,
    agent_import_path: &str,
    model_info_json: &str,
    max_turns: u64,
    temperature_text: &str,
    runs_per_task: u64,
    timeout_multiplier: u64,
    llm_call_kwargs_json: Option<&str>,
    samples: Option<u64>,
) -> (r: Vec<String>)
    ensures
        string_views(r@) == harbor_args(
            task_dir@,
            jobs_dir@,
            base_url@,
            model_id@,
            agent_import_path@,
            model_info_json@,
            max_turns,
            temperature_text@,
            runs_per_task,
            timeout_multiplier,
            match llm_call_kwargs_json {
                Some(k) => Some(k@),
                None => None,
            },
            samples,
        ),
{
    let mut args: Vec<String> = Vec::new();
    push_str(&mut args, "--python");
    push_str(&mut args, "3.12");
    push_str(&mut args, "--from");
    push_str(&mut args, "harbor");
    push_str(&mut args, "harbor");
    push_str(&mut args, "run");
    push_str(&mut args, "--path");
    push_str(&mut args, task_dir);
    push_str(&mut args, "--jobs-dir");
    push_str(&mut args, jobs_dir);
    push_str(&mut args, "--job-name");
    push_str(&mut args, "modelinspector-terminal-bench");
    push_str(&mut args, "--agent");
    push_str(&mut args, agent_import_path);
    push_str(&mut args, "--model");
    push_owned(&mut args, terminal_bench_litellm_model_name(model_id));
    push_str(&mut args, "--ak");
    push_owned(&mut args, joined("api_base=", base_url));
    push_str(&mut args, "--ak");
    push_owned(&mut args, joined("model_info=", model_info_json));
    push_str(&mut args, "--ak");
    let mut turns = String::from_str("max_turns=");
    crate::text::push_decimal(&mut turns, max_turns);
    push_owned(&mut args, turns);
    push_str(&mut args, "--ak");
    push_str(&mut args, "suppress_max_turns_warning=true");
    push_str(&mut args, "--ak");
    push_owned(&mut args, joined("temperature=", temperature_text));
    push_str(&mut args, "--n-concurrent");
    push_str(&mut args, "1");
    push_str(&mut args, "--n-attempts");
    push_owned(&mut args, crate::text::decimal_string(runs_per_task));
    push_str(&mut args, "--agent-timeout-multiplier");
    push_owned(&mut args, crate::text::decimal_string(timeout_multiplier));
    push_str(&mut args, "--max-retries");
    push_str(&mut args, "0");
    push_str(&mut args, "--yes");
    push_str(&mut args, "--delete");
    let ghost base = string_views(args@);
    match llm_call_kwargs_json {
        Some(k) => {
            push_str(&mut args, "--ak");
            push_owned(&mut args, joined("llm_call_kwargs=", k));
        },
        None => {},
    }
    let ghost with_kwargs = string_views(args@);
    match samples {
        Some(n) => {
            push_str(&mut args, "--n-tasks");
            push_owned(&mut args, crate::text::decimal_string(n));
        },
        None => {},
    }
    proof {
        let h = harbor_args(
            task_dir@,
            jobs_dir@,
            base_url@,
            model_id@,
            agent_import_path@,
            model_info_json@,
            max_turns,
            temperature_text@,
            runs_per_task,
            timeout_multiplier,
            match llm_call_kwargs_json {
                Some(k) => Some(k@),
                None => None,
            },
            samples,
        );
        assert(string_views(args@) =~= h);
    }
    args
}

// ---------------------------------------------------------------------------
// Harbor result table
// ---------------------------------------------------------------------------

/// The trimmed, non-blank pieces of `ps`, in order.
pub open spec fn keep_trimmed(ps: Seq<Seq<char>>) -> Seq<Seq<char>>
    decreases ps.len(),
{
    if ps.len() == 0 {
        seq![]
    } else {
        let k = keep_trimmed(ps.drop_last());
        let t = trim(ps.last());
        if t.len() > 0 {
            k.push(t)
        } else {
            k
        }
    }
}

/// The cells of a line of Harbor's result table: the pieces between the
/// box-drawing separators, trimmed, blank ones dropped.
pub open spec fn harbor_cells(line: Seq<char>) -> Seq<Seq<char>> {
    keep_trimmed(split_char(line, '\u{2502}'))
}

/// The cells name both a `Trials` and a `Mean` column.
pub open spec fn is_harbor_header(cells: Seq<Seq<char>>) -> bool {
    first_index(cells, "Trials"@) < cells.len() && first_index(cells, "Mean"@) < cells.len()
}

/// The `Trials` and `Mean` columns of the last header row among `ls` that
/// also names an `Exceptions` column.
pub open spec fn harbor_header_after(ls: Seq<Seq<char>>) -> Option<(int, int)>
    decreases ls.len(),
{
    if ls.len() == 0 {
        None
    } else {
        let h = harbor_header_after(ls.drop_last());
        let line = ls.last();
        let cells = harbor_cells(line);
        if line.contains('\u{2502}') && is_harbor_header(cells) && first_index(cells, "Exceptions"@)
            < cells.len() {
            Some((first_index(cells, "Trials"@), first_index(cells, "Mean"@)))
        } else {
            h
        }
    }
}

/// The trial count and the text of the mean that a data row of the table
/// gives under header columns `h`.
pub open spec fn harbor_row(line: Seq<char>, h: Option<(int, int)>) -> Option<(int, Seq<char>)> {
    let cells = harbor_cells(line);
    if !line.contains('\u{2502}') || is_harbor_header(cells) {
        None
    } else {
        match h {
            None => None,
            Some((t, m)) => if t < cells.len() && m < cells.len() {
                match parsed_integer(cells[t], false) {
                    Some(n) => if n <= u64::MAX {
                        Some((n, cells[m]))
                    } else {
                        None
                    },
                    None => None,
                }
            } else {
                None
            },
        }
    }
}

/// The rows of Harbor's result table among `ls`, in order.
pub open spec fn harbor_rows(ls: Seq<Seq<char>>) -> Seq<(int, Seq<char>)>
    decreases ls.len(),
{
    if ls.len() == 0 {
        seq![]
    } else {
        let prev = harbor_rows(ls.drop_last());
        match harbor_row(ls.last(), harbor_header_after(ls.drop_last())) {
            Some(r) => prev.push(r),
            None => prev,
        }
    }
}

/// The trial counts and mean texts of a list of table rows.
pub open spec fn harbor_row_views(rows: Seq<(u64, String)>) -> Seq<(int, Seq<char>)> {
    rows.map_values(|r: (u64, String)| (r.0 as int, r.1@))
}

/// Header columns as integers.
pub open spec fn header_view(h: Option<(usize, usize)>) -> Option<(int, int)> {
    match h {
        Some((t, m)) => Some((t as int, m as int)),
        None => None,
    }
}

/// Whether `c` occurs in `v`.
fn has_char(v: &Vec<char>, c: char) -> (r: bool)
    ensures
        r == v@.contains(c),
{
    let mut i: usize = 0;
    while i < v.len()
        invariant
            i <= v.len(),
            forall|k: int| 0 <= k < i ==> v@[k] != c,
        decreases v.len() - i,
    {
        if v[i] == c {
            assert(v@[i as int] == c);
            return true;
        }
        i = i + 1;
    }
    false
}

/// The cells of a line of Harbor's result table.
fn harbor_cells_of(line: &Vec<char>) -> (r: Vec<Vec<char>>)
    ensures
        r@.map_values(|p: Vec<char>| p@) == harbor_cells(line@),
{
    let pieces = split_chars(line, '\u{2502}');
    let ghost ps = pieces@.map_values(|p: Vec<char>| p@);
    let mut cells: Vec<Vec<char>> = Vec::new();
    let mut i: usize = 0;
    assert(ps.take(0) == Seq::<Seq<char>>::empty());
    while i < pieces.len()
        invariant
            i <= pieces.len(),
            ps == pieces@.map_values(|p: Vec<char>| p@),
            cells@.map_values(|p: Vec<char>| p@) == keep_trimmed(ps.take(i as int)),
        decreases pieces.len() - i,
    {
        assert(ps.take(i + 1).drop_last() == ps.take(i as int));
        assert(ps.take(i + 1).last() == pieces@[i as int]@);
        let t = trim_chars(TrimSet::Whitespace, &pieces[i]);
        if t.len() > 0 {
            let ghost before = cells@.map_values(|p: Vec<char>| p@);
            cells.push(t);
            assert(cells@.map_values(|p: Vec<char>| p@) == before.push(t@));
        }
        i = i + 1;
    }
    assert(ps.take(pieces.len() as int) == ps);
    cells
}

/// The rows of Harbor's result table in its output, in order: each row's
/// trial count and the text of its mean, under the last header that names
/// `Trials`, `Mean` and `Exceptions`, where the trial count is a number.
pub fn harbor_score_rows(output: &str) -> (r: Vec<(u64, String)>)
    ensures
        harbor_row_views(r@) == harbor_rows(lines(output@)),
{
    let all = lines_of(output);
    let ghost ls = lines(output@);
    let trials_name = chars_of("Trials");
    let mean_name = chars_of("Mean");
    let exceptions_name = chars_of("Exceptions");
    let mut rows: Vec<(u64, String)> = Vec::new();
    let mut header: Option<(usize, usize)> = None;
    let mut i: usize = 0;
    assert(ls.take(0) == Seq::<Seq<char>>::empty());
    while i < all.len()
        invariant
            i <= all.len(),
            all@.map_values(|l: String| l@) == ls,
            trials_name@ == "Trials"@,
            mean_name@ == "Mean"@,
            exceptions_name@ == "Exceptions"@,
            harbor_row_views(rows@) == harbor_rows(ls.take(i as int)),
            header_view(header) == harbor_header_after(ls.take(i as int)),
        decreases all.len() - i,
    {
        let ghost prefix = ls.take(i + 1);
        assert(prefix.drop_last() == ls.take(i as int));
        assert(prefix.last() == all@[i as int]@);
        let line = chars_of(all[i].as_str());
        let ghost before = harbor_row_views(rows@);
        if has_char(&line, '\u{2502}') {
            let cells = harbor_cells_of(&line);
            let ghost cv = cells@.map_values(|p: Vec<char>| p@);
            let t = index_of_chars(&cells, &trials_name);
            let m = index_of_chars(&cells, &mean_name);
            if t < cells.len() && m < cells.len() {
                let e = index_of_chars(&cells, &exceptions_name);
                if e < cells.len() {
                    header = Some((t, m));
                }
            } else {
                match header {
                    Some((ht, hm)) => {
                        if ht < cells.len() && hm < cells.len() {
                            let n = cells[ht].len();
                            assert(cells[ht as int]@.subrange(0, n as int) == cells[ht as int]@);
                            assert(cv[ht as int] == cells[ht as int]@);
                            assert(cv[hm as int] == cells[hm as int]@);
                            match parse_u64_range(&cells[ht], 0, n) {
                                Some(count) => {
                                    let mean = string_from_chars(&cells[hm]);
                                    rows.push((count, mean));
                                    assert(harbor_row_views(rows@) == before.push(
                                        (count as int, mean@),
                                    ));
                                },
                                None => {},
                            }
                        }
                    },
                    None => {},
                }
            }
        }
        i = i + 1;
    }
    assert(ls.take(all.len() as int) == ls);
    rows
}

// ---------------------------------------------------------------------------
// Integer run settings
// ---------------------------------------------------------------------------

/// The seed, context window and sample limit of a GPQA run, checked in
/// that order: the context window defaults to 20000 and the sample limit
/// to all 198 questions. Returns the context window and sample limit.
pub fn gpqa_count_settings(
    seed: Option<u32>,
    context_window: Option<u32>,
    sample_limit: Option<u64>,
) -> (r: Result<(u32, u64), String>)
    ensures
        ({
            let window = match context_window {
                Some(w) => w,
                None => 20000u32,
            };
            let limit = match sample_limit {
                Some(l) => l,
                None => 198u64,
            };
            if seed == Some(u32::MAX) {
                r matches Err(e) && e@ == "GPQA seed must be between 0 and 4294967294."@
            } else if window == 0 {
                r matches Err(e) && e@ == "GPQA context window must be greater than 0."@
            } else if limit == 0 || limit > 198 {
                r matches Err(e) && e@ == "GPQA sample limit must be between 1 and 198."@
            } else {
                r == Ok::<(u32, u64), String>((window, limit))
            }
        }),
{
    let window = match context_window {
        Some(w) => w,
        None => 20000u32,
    };
    if seed == Some(u32::MAX) {
        return Err(String::from_str("GPQA seed must be between 0 and 4294967294."));
    }
    if window == 0 {
        return Err(String::from_str("GPQA context window must be greater than 0."));
    }
    let limit = match sample_limit {
        Some(l) => l,
        None => 198u64,
    };
    if limit == 0 || limit > 198 {
        return Err(String::from_str("GPQA sample limit must be between 1 and 198."));
    }
    Ok((window, limit))
}

/// The counts of a Terminal-Bench run, checked in order: context window
/// (default 20000), samples, runs per task (default 1), maximum turns
/// (default 1) and timeout multiplier (default 3). Returns the context
/// window, runs per task, maximum turns and timeout multiplier.
pub fn terminal_bench_count_settings(
    context_window: Option<u32>,
    samples: Option<u64>,
    runs_per_task: Option<u64>,
    max_turns: Option<u64>,
    timeout_multiplier: Option<u64>,
) -> (r: Result<(u32, u64, u64, u64), String>)
    ensures
        ({
            let runs = match runs_per_task {
                Some(n) => n,
                None => 1u64,
            };
            let turns = match max_turns {
                Some(n) => n,
                None => 1u64,
            };
            let timeout = match timeout_multiplier {
                Some(n) => n,
                None => 3u64,
            };
            let window = match context_window {
                Some(w) => w,
                None => 20000u32,
            };
            if context_window == Some(0u32) {
                r matches Err(e) && e@ == "Terminal-Bench context window must be greater than 0."@
            } else if samples == Some(0u64) {
                r matches Err(e) && e@ == "Terminal-Bench samples must be greater than 0."@
            } else if runs == 0 || runs > 1000 {
                r matches Err(e) && e@ == "Terminal-Bench runs per task must be between 1 and 1000."@
            } else if turns == 0 || turns > 1000 {
                r matches Err(e) && e@ == "Terminal-Bench max turns must be between 1 and 1000."@
            } else if timeout == 0 || timeout > 1000 {
                r matches Err(e) && e@ == "Terminal-Bench timeout multiplier must be between 1 and 1000."@
            } else {
                r == Ok::<(u32, u64, u64, u64), String>((window, runs, turns, timeout))
            }
        }),
{
    if context_window == Some(0u32) {
        return Err(String::from_str("Terminal-Bench context window must be greater than 0."));
    }
    let window = match context_window {
        Some(w) => w,
        None => 20000u32,
    };
    if samples == Some(0u64) {
        return Err(String::from_str("Terminal-Bench samples must be greater than 0."));
    }
    let runs = match runs_per_task {
        Some(n) => n,
        None => 1u64,
    };
    if runs == 0 || runs > 1000 {
        return Err(String::from_str("Terminal-Bench runs per task must be between 1 and 1000."));
    }
    let turns = match max_turns {
        Some(n) => n,
        None => 1u64,
    };
    if turns == 0 || turns > 1000 {
        return Err(String::from_str("Terminal-Bench max turns must be between 1 and 1000."));
    }
    let timeout = match timeout_multiplier {
        Some(n) => n,
        None => 3u64,
    };
    if timeout == 0 || timeout > 1000 {
        return Err(String::from_str("Terminal-Bench timeout multiplier must be between 1 and 1000."));
    }
    Ok((window, runs, turns, timeout))
}

/// The top-K sampling setting of a run of `benchmark` (named in the
/// message), which must lie between 0 and 1000 where it is set.
pub fn top_k_setting(top_k: Option<i32>, benchmark: &str) -> (r: Result<(), String>)
    ensures
        match top_k {
            Some(k) if k < 0 || k > 1000 => r matches Err(e) && e@ == benchmark@
                + " top K sampling must be between 0 and 1000."@,
            _ => r is Ok,
        },
{
    match top_k {
        Some(k) => {
            if k < 0 || k > 1000 {
                Err(joined(benchmark, " top K sampling must be between 0 and 1000."))
            } else {
                Ok(())
            }
        },
        None => Ok(()),
    }
}

} // verus!
