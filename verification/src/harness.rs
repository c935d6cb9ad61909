//! The decisions of an official benchmark run: the EvalScope command line,
//! whether a run may start, how a finished process is judged, and when a
//! HumanEval run whose report is already written is stopped.

use vstd::prelude::*;

use crate::official::{GpqaDiamondStatus, ProcessOutput};
use crate::text::{
    ascii_lower, ascii_lowercase, contains_seq, decimal, decimal_string, opt_chars, str_contains, trim,
    trim_str,
};

verus! {

/// The official benchmarks that run as an outside process.
#[derive(PartialEq, Eq, Structural, Clone, Copy, Debug)]
pub enum OfficialHarness {
    GpqaDiamond,
    HumanEval,
    MmmuPro,
    TerminalBench,
}

/// The name of a benchmark in its messages.
pub open spec fn harness_name(h: OfficialHarness) -> Seq<char> {
    match h {
        OfficialHarness::GpqaDiamond => "GPQA Diamond"@,
        OfficialHarness::HumanEval => "HumanEval"@,
        OfficialHarness::MmmuPro => "MMMU-Pro"@,
        OfficialHarness::TerminalBench => "Terminal-Bench"@,
    }
}

/// The name of a benchmark in its messages.
pub fn harness_name_of(h: OfficialHarness) -> (r: &'static str)
    ensures
        r@ == harness_name(h),
{
    match h {
        OfficialHarness::GpqaDiamond => "GPQA Diamond",
        OfficialHarness::HumanEval => "HumanEval",
        OfficialHarness::MmmuPro => "MMMU-Pro",
        OfficialHarness::TerminalBench => "Terminal-Bench",
    }
}

// ---------------------------------------------------------------------------
// Starting a run
// ---------------------------------------------------------------------------

/// The error of a run whose harness is not ready.
pub open spec fn not_ready_error(h: OfficialHarness, label: Seq<char>, detail: Seq<char>) -> Seq<char> {
    match h {
        OfficialHarness::MmmuPro => "MMMU-Pro requires the shared EvalScope harness. Current status: "@
            + label + ". "@ + detail,
        _ => harness_name(h) + " is not ready. Current status: "@ + label + ". "@ + detail,
    }
}

/// Whether a run may start: its harness must be ready and, except for GPQA
/// Diamond, whose readiness covers its dataset, its dataset downloaded and
/// verified.
pub fn check_run_readiness(
    h: OfficialHarness,
    harness_ready: bool,
    status_label: &str,
    status_detail: &str,
    dataset_ready: bool,
) -> (r: Result<(), String>)
    ensures
        !harness_ready ==> (r matches Err(e) && e@ == not_ready_error(h, status_label@, status_detail@)),
        harness_ready && h != OfficialHarness::GpqaDiamond && !dataset_ready ==> (r matches Err(e) && e@
            == harness_name(h) + " dataset is not downloaded or verified yet."@),
        harness_ready && (h == OfficialHarness::GpqaDiamond || dataset_ready) ==> r is Ok,
{
    if !harness_ready {
        let mut e = String::new();
        match h {
            OfficialHarness::MmmuPro => {
                e.append("MMMU-Pro requires the shared EvalScope harness. Current status: ");
            },
            _ => {
                e.append(harness_name_of(h));
                e.append(" is not ready. Current status: ");
            },
        }
        e.append(status_label);
        e.append(". ");
        e.append(status_detail);
        return Err(e);
    }
    if h != OfficialHarness::GpqaDiamond && !dataset_ready {
        let mut e = String::from_str(harness_name_of(h));
        e.append(" dataset is not downloaded or verified yet.");
        return Err(e);
    }
    Ok(())
}

/// The samples a HumanEval run asks for: the requested limit, at most the
/// 164 problems of the dataset.
pub fn humaneval_sample_limit(requested: u64) -> (r: u64)
    ensures
        r == if requested > 164 { 164 } else { requested },
{
    if requested > 164 {
        164
    } else {
        requested
    }
}

// ---------------------------------------------------------------------------
// The EvalScope command line
// ---------------------------------------------------------------------------

/// The arguments of `evalscope eval` that all three benchmarks share up to
/// the dataset directory.
pub open spec fn evalscope_head(
    model_id: Seq<char>,
    tag: Seq<char>,
    base_url: Seq<char>,
    api_key: Seq<char>,
    dataset: Seq<char>,
    dataset_dir: Seq<char>,
) -> Seq<Seq<char>> {
    seq![
        "eval"@,
        "--eval-type"@,
        "openai_api"@,
        "--model"@,
        model_id,
        "--model-id"@,
        tag,
        "--api-url"@,
        base_url,
        "--api-key"@,
        api_key,
        "--datasets"@,
        dataset,
        "--dataset-dir"@,
        dataset_dir,
    ]
}

/// The arguments of `evalscope eval` that all three benchmarks share from
/// the sample limit on.
pub open spec fn evalscope_tail(limit: u64, work_dir: Seq<char>) -> Seq<Seq<char>> {
    seq![
        "--limit"@,
        decimal(limit as nat),
        "--eval-batch-size"@,
        "1"@,
        "--repeats"@,
        "1"@,
        "--work-dir"@,
        work_dir,
        "--no-timestamp"@,
        "--enable-progress-tracker"@,
        "--no-collect-perf"@,
    ]
}

/// The `evalscope eval` arguments of a run: `dataset_args` and
/// `generation_config` are JSON texts, `dataset_dir` and `work_dir` paths.
/// HumanEval takes no dataset arguments and runs its code in a Docker
/// sandbox; MMMU-Pro names its dataset arguments after the generation
/// settings.
pub open spec fn evalscope_args(
    h: OfficialHarness,
    model_id: Seq<char>,
    base_url: Seq<char>,
    api_key: Seq<char>,
    dataset_dir: Seq<char>,
    dataset_args: Seq<char>,
    generation_config: Seq<char>,
    limit: u64,
    work_dir: Seq<char>,
) -> Seq<Seq<char>> {
    match h {
        OfficialHarness::GpqaDiamond => evalscope_head(
            model_id,
            "modelinspector-gpqa-diamond"@,
            base_url,
            api_key,
            "gpqa_diamond"@,
            dataset_dir,
        ) + seq!["--dataset-args"@, dataset_args, "--generation-config"@, generation_config]
            + evalscope_tail(limit, work_dir),
        OfficialHarness::HumanEval => evalscope_head(
            model_id,
            "modelinspector-humaneval"@,
            base_url,
            api_key,
            "humaneval"@,
            dataset_dir,
        ) + seq!["--generation-config"@, generation_config] + evalscope_tail(limit, work_dir) + seq![
            "--sandbox"@,
            "{\"enabled\": true, \"engine\": \"docker\"}"@,
        ],
        _ => evalscope_head(
            model_id,
            "modelinspector-mmmu-pro"@,
            base_url,
            api_key,
            "mmmu_pro"@,
            dataset_dir,
        ) + seq!["--generation-config"@, generation_config, "--dataset-args"@, dataset_args]
            + evalscope_tail(limit, work_dir),
    }
}

fn push_str(v: &mut Vec<String>, s: &str)
    ensures
        final(v)@.len() == old(v)@.len() + 1,
        forall|i: int| 0 <= i < old(v)@.len() ==> final(v)@[i] == old(v)@[i],
        final(v)@[old(v)@.len() as int]@ == s@,
{
    v.push(String::from_str(s));
}

/// The `evalscope eval` arguments of a run of `h`, which is not
/// Terminal-Bench (Harbor runs that one).
pub fn evalscope_eval_args(
    h: OfficialHarness,
    model_id: &str,
    base_url: &str,
    api_key: &str,
    dataset_dir: &str,
    dataset_args: &str,
    generation_config: &str,
    limit: u64,
    work_dir: &str,
) -> (r: Vec<String>)
    requires
        h != OfficialHarness::TerminalBench,
    ensures
        r@.map_values(|s: String| s@) == evalscope_args(
            h,
            model_id@,
            base_url@,
            api_key@,
            dataset_dir@,
            dataset_args@,
            generation_config@,
            limit,
            work_dir@,
        ),
{
    let mut v: Vec<String> = Vec::new();
    let tag = match h {
        OfficialHarness::GpqaDiamond => "modelinspector-gpqa-diamond",
        OfficialHarness::HumanEval => "modelinspector-humaneval",
        _ => "modelinspector-mmmu-pro",
    };
    let dataset = match h {
        OfficialHarness::GpqaDiamond => "gpqa_diamond",
        OfficialHarness::HumanEval => "humaneval",
        _ => "mmmu_pro",
    };
    push_str(&mut v, "eval");
    push_str(&mut v, "--eval-type");
    push_str(&mut v, "openai_api");
    push_str(&mut v, "--model");
    push_str(&mut v, model_id);
    push_str(&mut v, "--model-id");
    push_str(&mut v, tag);
    push_str(&mut v, "--api-url");
    push_str(&mut v, base_url);
    push_str(&mut v, "--api-key");
    push_str(&mut v, api_key);
    push_str(&mut v, "--datasets");
    push_str(&mut v, dataset);
    push_str(&mut v, "--dataset-dir");
    push_str(&mut v, dataset_dir);
    match h {
        OfficialHarness::GpqaDiamond => {
            push_str(&mut v, "--dataset-args");
            push_str(&mut v, dataset_args);
            push_str(&mut v, "--generation-config");
            push_str(&mut v, generation_config);
        },
        OfficialHarness::HumanEval => {
            push_str(&mut v, "--generation-config");
            push_str(&mut v, generation_config);
        },
        _ => {
            push_str(&mut v, "--generation-config");
            push_str(&mut v, generation_config);
            push_str(&mut v, "--dataset-args");
            push_str(&mut v, dataset_args);
        },
    }
    push_str(&mut v, "--limit");
    let n = decimal_string(limit);
    push_str(&mut v, n.as_str());
    push_str(&mut v, "--eval-batch-size");
    push_str(&mut v, "1");
    push_str(&mut v, "--repeats");
    push_str(&mut v, "1");
    push_str(&mut v, "--work-dir");
    push_str(&mut v, work_dir);
    push_str(&mut v, "--no-timestamp");
    push_str(&mut v, "--enable-progress-tracker");
    push_str(&mut v, "--no-collect-perf");
    if h == OfficialHarness::HumanEval {
        push_str(&mut v, "--sandbox");
        push_str(&mut v, "{\"enabled\": true, \"engine\": \"docker\"}");
    }
    proof {
        let views = v@.map_values(|s: String| s@);
        let want = evalscope_args(
            h,
            model_id@,
            base_url@,
            api_key@,
            dataset_dir@,
            dataset_args@,
            generation_config@,
            limit,
            work_dir@,
        );
        assert(views.len() == want.len());
        assert forall|i: int| 0 <= i < views.len() implies views[i] == want[i] by {}
        assert(views =~= want);
    }
    v
}

// ---------------------------------------------------------------------------
// Judging a finished process
// ---------------------------------------------------------------------------

/// The progress line of a cancelled run.
pub open spec fn cancelled_line(h: OfficialHarness) -> Seq<char> {
    match h {
        OfficialHarness::TerminalBench => "Harbor: Terminal-Bench 2.1 benchmark cancelled"@,
        _ => "EvalScope: "@ + harness_name(h) + " official harness cancelled"@,
    }
}

/// The progress line of a failed run that exited with `status`.
pub open spec fn failed_line(h: OfficialHarness, status: Seq<char>) -> Seq<char> {
    match h {
        OfficialHarness::TerminalBench => "Harbor: Terminal-Bench 2.1 benchmark failed with status "@
            + status,
        _ => "EvalScope: "@ + harness_name(h) + " official harness failed with status "@ + status,
    }
}

/// The error of a failed run that exited with `status` and printed
/// `output`.
pub open spec fn failed_error(h: OfficialHarness, status: Seq<char>, output: Seq<char>) -> Seq<char> {
    match h {
        OfficialHarness::TerminalBench => "Terminal-Bench Harbor run failed with status "@ + status
            + ": "@ + trim(output),
        _ => harness_name(h) + " harness failed with status "@ + status + ": "@ + trim(output),
    }
}

/// What the process printed: its standard output, a line break, then its
/// standard error.
pub open spec fn run_output(stdout: Seq<char>, stderr: Seq<char>) -> Seq<char> {
    stdout + "\n"@ + stderr
}

/// The judgement of a finished run: `Ok` where the process succeeded (or,
/// for HumanEval, was stopped after writing its report); else the progress
/// line to show and the error to return, a cancellation where the output
/// mentions `cancel` in any case. (Unicode lowercasing finds the same word
/// as ASCII lowercasing: no other character lowercases to these letters.)
pub fn judge_run_exit(
    h: OfficialHarness,
    finished: bool,
    status: &str,
    stdout: &str,
    stderr: &str,
) -> (r: Result<(), (String, String)>)
    ensures
        finished ==> r is Ok,
        !finished && contains_seq(ascii_lower(run_output(stdout@, stderr@)), "cancel"@) ==> (r matches Err(
            (line, e),
        ) && line@ == cancelled_line(h) && e@ == harness_name(h) + " benchmark cancelled"@),
        !finished && !contains_seq(ascii_lower(run_output(stdout@, stderr@)), "cancel"@) ==> (r matches Err(
            (line, e),
        ) && line@ == failed_line(h, status@) && e@ == failed_error(
            h,
            status@,
            run_output(stdout@, stderr@),
        )),
{
    if finished {
        return Ok(());
    }
    let mut output = String::from_str(stdout);
    output.append("\n");
    output.append(stderr);
    let lower = ascii_lowercase(output.as_str());
    let name = harness_name_of(h);
    if str_contains(lower.as_str(), "cancel") {
        let line = match h {
            OfficialHarness::TerminalBench => String::from_str("Harbor: Terminal-Bench 2.1 benchmark cancelled"),
            _ => {
                let mut l = String::from_str("EvalScope: ");
                l.append(name);
                l.append(" official harness cancelled");
                l
            },
        };
        let mut e = String::from_str(name);
        e.append(" benchmark cancelled");
        return Err((line, e));
    }
    let (mut line, mut e) = match h {
        OfficialHarness::TerminalBench => (
            String::from_str("Harbor: Terminal-Bench 2.1 benchmark failed with status "),
            String::from_str("Terminal-Bench Harbor run failed with status "),
        ),
        _ => {
            let mut l = String::from_str("EvalScope: ");
            l.append(name);
            l.append(" official harness failed with status ");
            let mut x = String::from_str(name);
            x.append(" harness failed with status ");
            (l, x)
        },
    };
    line.append(status);
    e.append(status);
    e.append(": ");
    let t = trim_str(output.as_str());
    e.append(t.as_str());
    Err((line, e))
}

// ---------------------------------------------------------------------------
// Stopping HumanEval once its report is written
// ---------------------------------------------------------------------------

/// What a HumanEval run has seen of its report while the harness runs.
#[derive(Clone, Debug)]
pub struct ReportWatch {
    /// The last report found complete.
    pub completed_report: Option<String>,
    /// When (in milliseconds of a monotonic clock) a complete report was
    /// first found.
    pub ready_since_ms: Option<u64>,
    /// Whether the harness was stopped because its report was written.
    pub forced: bool,
}

impl ReportWatch {
    /// Nothing seen yet.
    pub fn new() -> (w: Self)
        ensures
            w.completed_report is None,
            w.ready_since_ms is None,
            !w.forced,
    {
        ReportWatch { completed_report: None, ready_since_ms: None, forced: false }
    }

    /// One look at the run directory at time `now_ms`, where `report` is
    /// the complete report found there, if any. Returns whether to stop the
    /// harness now: once a report has been complete for `grace_ms`, the
    /// process tree is stopped, once.
    pub fn observe(&mut self, now_ms: u64, report: Option<String>, grace_ms: u64) -> (stop: bool)
        ensures
            old(self).forced || report is None ==> *final(self) == *old(self) && !stop,
            !old(self).forced && report is Some ==> ({
                let since = match old(self).ready_since_ms {
                    Some(t) => t,
                    None => now_ms,
                };
                let elapsed = if now_ms >= since { now_ms - since } else { 0 };
                &&& opt_chars(final(self).completed_report) == opt_chars(report)
                &&& final(self).ready_since_ms == Some(since)
                &&& stop == (elapsed >= grace_ms)
                &&& final(self).forced == stop
            }),
    {
        if self.forced {
            return false;
        }
        match report {
            None => false,
            Some(path) => {
                self.completed_report = Some(path);
                let since = match self.ready_since_ms {
                    Some(t) => t,
                    None => now_ms,
                };
                self.ready_since_ms = Some(since);
                let elapsed = if now_ms >= since {
                    now_ms - since
                } else {
                    0
                };
                if elapsed >= grace_ms {
                    self.forced = true;
                    true
                } else {
                    false
                }
            },
        }
    }
}

// ---------------------------------------------------------------------------
// Setting a harness up
// ---------------------------------------------------------------------------

/// One command of a setup: the progress (in percent) and message shown
/// before it, the program and its arguments, and the words that open its
/// error where it fails (none where the generic setup errors apply).
#[derive(Clone, Debug)]
pub struct SetupStep {
    pub progress_percent: u32,
    pub message: String,
    pub program: String,
    pub args: Vec<String>,
    pub failure_context: Option<String>,
}

/// A setup step as plain values.
pub open spec fn step_view(s: SetupStep) -> (u32, Seq<char>, Seq<char>, Seq<Seq<char>>, Option<Seq<char>>) {
    (s.progress_percent, s.message@, s.program@, s.args@.map_values(|a: String| a@), opt_chars(s.failure_context))
}

/// The setup steps as plain values.
pub open spec fn steps_view(v: Seq<SetupStep>) -> Seq<(u32, Seq<char>, Seq<char>, Seq<Seq<char>>, Option<Seq<char>>)> {
    v.map_values(|s: SetupStep| step_view(s))
}

/// The package that holds the EvalScope harness.
pub open spec fn evalscope_package() -> Seq<char> {
    "evalscope[sandbox]==1.8.0"@
}

/// The commands that set up the shared EvalScope environment: a virtual
/// environment where there is none yet (made by the system Python, run
/// with its own leading arguments), then pip brought up to date, then the
/// harness package.
pub open spec fn evalscope_install_plan(
    venv_exists: bool,
    python: Seq<char>,
    python_prefix: Seq<Seq<char>>,
    venv_dir: Seq<char>,
    venv_python: Seq<char>,
) -> Seq<(u32, Seq<char>, Seq<char>, Seq<Seq<char>>, Option<Seq<char>>)> {
    let create = seq![(
        10u32,
        "Creating GPQA benchmark Python environment..."@,
        python,
        python_prefix + seq!["-m"@, "venv"@, venv_dir],
        None::<Seq<char>>,
    )];
    let rest = seq![
        (
            40u32,
            "Updating benchmark environment package installer..."@,
            venv_python,
            seq!["-m"@, "pip"@, "install"@, "--upgrade"@, "pip"@],
            None::<Seq<char>>,
        ),
        (
            70u32,
            "Installing EvalScope GPQA benchmark harness..."@,
            venv_python,
            seq!["-m"@, "pip"@, "install"@, "--upgrade"@, evalscope_package()],
            None::<Seq<char>>,
        ),
    ];
    if venv_exists {
        rest
    } else {
        create + rest
    }
}

/// The commands that set up the official eval backend: a virtual
/// environment where there is none yet, then pip brought up to date, then
/// lm-evaluation-harness with a matching transformers.
pub open spec fn eval_backend_install_plan(
    venv_exists: bool,
    python: Seq<char>,
    venv_dir: Seq<char>,
    venv_python: Seq<char>,
) -> Seq<(u32, Seq<char>, Seq<char>, Seq<Seq<char>>, Option<Seq<char>>)> {
    let create = seq![(
        10u32,
        "Creating Python virtual environment..."@,
        python,
        seq!["-m"@, "venv"@, venv_dir],
        Some("failed to create official eval Python venv"@),
    )];
    let rest = seq![
        (
            25u32,
            "Upgrading pip inside eval backend..."@,
            venv_python,
            seq!["-m"@, "pip"@, "install"@, "--upgrade"@, "pip"@],
            Some("failed to upgrade pip in official eval backend"@),
        ),
        (
            45u32,
            "Installing EleutherAI lm-evaluation-harness..."@,
            venv_python,
            seq!["-m"@, "pip"@, "install"@, "--upgrade"@, "lm-eval==0.4.12"@, "transformers>=4.56,<5"@],
            Some("failed to install EleutherAI lm-evaluation-harness"@),
        ),
    ];
    if venv_exists {
        rest
    } else {
        create + rest
    }
}

/// `-m pip install --upgrade` and the packages, or `pip` itself where
/// none is given.
fn pip_upgrade_args(packages: &[&str]) -> (r: Vec<String>)
    ensures
        r@.map_values(|a: String| a@) == seq!["-m"@, "pip"@, "install"@, "--upgrade"@] + (if packages@.len()
            == 0 {
            seq!["pip"@]
        } else {
            packages@.map_values(|p: &str| p@)
        }),
{
    let mut r: Vec<String> = Vec::new();
    push_str(&mut r, "-m");
    push_str(&mut r, "pip");
    push_str(&mut r, "install");
    push_str(&mut r, "--upgrade");
    let ghost head = r@.map_values(|a: String| a@);
    assert(head =~= seq!["-m"@, "pip"@, "install"@, "--upgrade"@]);
    if packages.len() == 0 {
        push_str(&mut r, "pip");
        assert(r@.map_values(|a: String| a@) =~= head + seq!["pip"@]);
        return r;
    }
    let mut i: usize = 0;
    while i < packages.len()
        invariant
            i <= packages.len(),
            r@.map_values(|a: String| a@) == head + packages@.take(i as int).map_values(|p: &str| p@),
        decreases packages.len() - i,
    {
        let ghost prev = r@.map_values(|a: String| a@);
        push_str(&mut r, packages[i]);
        assert(r@.map_values(|a: String| a@) =~= prev.push(packages@[i as int]@));
        assert(packages@.take(i + 1).map_values(|p: &str| p@) =~= packages@.take(i as int).map_values(
            |p: &str| p@,
        ).push(packages@[i as int]@));
        i = i + 1;
    }
    assert(packages@.take(packages.len() as int) == packages@);
    r
}

fn step(percent: u32, message: &str, program: &str, args: Vec<String>, context: Option<&str>) -> (r: SetupStep)
    ensures
        step_view(r) == (percent, message@, program@, args@.map_values(|a: String| a@), match context {
            Some(c) => Some(c@),
            None => None::<Seq<char>>,
        }),
{
    SetupStep {
        progress_percent: percent,
        message: String::from_str(message),
        program: String::from_str(program),
        args,
        failure_context: match context {
            Some(c) => Some(String::from_str(c)),
            None => None,
        },
    }
}

/// The commands that set up the shared EvalScope environment.
pub fn evalscope_install_steps(
    venv_exists: bool,
    python: &str,
    python_prefix: &Vec<String>,
    venv_dir: &str,
    venv_python: &str,
) -> (r: Vec<SetupStep>)
    ensures
        steps_view(r@) == evalscope_install_plan(
            venv_exists,
            python@,
            python_prefix@.map_values(|a: String| a@),
            venv_dir@,
            venv_python@,
        ),
{
    let mut steps: Vec<SetupStep> = Vec::new();
    if !venv_exists {
        let mut args: Vec<String> = Vec::new();
        let mut i: usize = 0;
        while i < python_prefix.len()
            invariant
                i <= python_prefix.len(),
                args@.map_values(|a: String| a@) == python_prefix@.take(i as int).map_values(|a: String| a@),
            decreases python_prefix.len() - i,
        {
            let ghost prev = args@.map_values(|a: String| a@);
            args.push(python_prefix[i].clone());
            assert(args@.map_values(|a: String| a@) =~= prev.push(python_prefix@[i as int]@));
            assert(python_prefix@.take(i + 1).map_values(|a: String| a@) =~= python_prefix@.take(
                i as int,
            ).map_values(|a: String| a@).push(python_prefix@[i as int]@));
            i = i + 1;
        }
        assert(python_prefix@.take(python_prefix.len() as int) == python_prefix@);
        let ghost prefix_views = args@.map_values(|a: String| a@);
        args.push(String::from_str("-m"));
        args.push(String::from_str("venv"));
        args.push(String::from_str(venv_dir));
        assert(args@.map_values(|a: String| a@) =~= prefix_views + seq!["-m"@, "venv"@, venv_dir@]);
        steps.push(step(10, "Creating GPQA benchmark Python environment...", python, args, None));
    }
    let pip_args = pip_upgrade_args(&[]);
    assert(pip_args@.map_values(|a: String| a@) =~= seq!["-m"@, "pip"@, "install"@, "--upgrade"@, "pip"@]);
    steps.push(step(40, "Updating benchmark environment package installer...", venv_python, pip_args, None));
    let harness_args = pip_upgrade_args(&["evalscope[sandbox]==1.8.0"]);
    assert(harness_args@.map_values(|a: String| a@) =~= seq!["-m"@, "pip"@, "install"@, "--upgrade"@, evalscope_package()]);
    steps.push(step(70, "Installing EvalScope GPQA benchmark harness...", venv_python, harness_args, None));
    proof {
        let want = evalscope_install_plan(
            venv_exists,
            python@,
            python_prefix@.map_values(|a: String| a@),
            venv_dir@,
            venv_python@,
        );
        assert(steps_view(steps@) =~= want);
    }
    steps
}

/// The commands that set up the official eval backend.
pub fn eval_backend_install_steps(
    venv_exists: bool,
    python: &str,
    venv_dir: &str,
    venv_python: &str,
) -> (r: Vec<SetupStep>)
    ensures
        steps_view(r@) == eval_backend_install_plan(venv_exists, python@, venv_dir@, venv_python@),
{
    let mut steps: Vec<SetupStep> = Vec::new();
    if !venv_exists {
        let mut args: Vec<String> = Vec::new();
        push_str(&mut args, "-m");
        push_str(&mut args, "venv");
        push_str(&mut args, venv_dir);
        assert(args@.map_values(|a: String| a@) =~= seq!["-m"@, "venv"@, venv_dir@]);
        steps.push(
            step(10, "Creating Python virtual environment...", python, args, Some("failed to create official eval Python venv")),
        );
    }
    let pip_args = pip_upgrade_args(&[]);
    assert(pip_args@.map_values(|a: String| a@) =~= seq!["-m"@, "pip"@, "install"@, "--upgrade"@, "pip"@]);
    steps.push(
        step(
            25,
            "Upgrading pip inside eval backend...",
            venv_python,
            pip_args,
            Some("failed to upgrade pip in official eval backend"),
        ),
    );
    let lm_eval_args = pip_upgrade_args(&["lm-eval==0.4.12", "transformers>=4.56,<5"]);
    assert(lm_eval_args@.map_values(|a: String| a@) =~= seq![
        "-m"@,
        "pip"@,
        "install"@,
        "--upgrade"@,
        "lm-eval==0.4.12"@,
        "transformers>=4.56,<5"@,
    ]);
    steps.push(
        step(
            45,
            "Installing EleutherAI lm-evaluation-harness...",
            venv_python,
            lm_eval_args,
            Some("failed to install EleutherAI lm-evaluation-harness"),
        ),
    );
    proof {
        let want = eval_backend_install_plan(venv_exists, python@, venv_dir@, venv_python@);
        assert(steps_view(steps@) =~= want);
    }
    steps
}

/// How a setup command run under the benchmark runner ended: what it
/// printed where it succeeded; else a cancellation where its output
/// mentions `cancel` in any case, or its output as the error.
pub fn managed_setup_outcome(success: bool, stdout: &str, stderr: &str) -> (r: Result<String, String>)
    ensures
        success ==> (r matches Ok(o) && o@ == run_output(stdout@, stderr@)),
        !success && contains_seq(ascii_lower(run_output(stdout@, stderr@)), "cancel"@) ==> (r matches Err(e)
            && e@ == "Benchmark setup cancelled"@),
        !success && !contains_seq(ascii_lower(run_output(stdout@, stderr@)), "cancel"@) ==> (r matches Err(e)
            && e@ == "Benchmark setup command failed: "@ + trim(run_output(stdout@, stderr@))),
{
    let mut output = String::from_str(stdout);
    output.append("\n");
    output.append(stderr);
    if success {
        return Ok(output);
    }
    let lower = ascii_lowercase(output.as_str());
    if str_contains(lower.as_str(), "cancel") {
        return Err(String::from_str("Benchmark setup cancelled"));
    }
    let mut e = String::from_str("Benchmark setup command failed: ");
    let t = trim_str(output.as_str());
    e.append(t.as_str());
    Err(e)
}

/// How an eval backend setup command ended: `Ok`, or an error opened by
/// `context` with why it could not start, or with what it printed to
/// standard error and then to standard output, each trimmed.
pub fn setup_command_outcome(context: &str, run: Result<ProcessOutput, String>) -> (r: Result<(), String>)
    ensures
        match run {
            Ok(o) => if o.success {
                r is Ok
            } else {
                r matches Err(e) && e@ == context@ + ": "@ + trim(o.stderr@) + "\n"@ + trim(o.stdout@)
            },
            Err(x) => r matches Err(e) && e@ == context@ + ": "@ + x@,
        },
{
    match run {
        Ok(o) => {
            if o.success {
                Ok(())
            } else {
                let mut e = String::from_str(context);
                e.append(": ");
                let err = trim_str(o.stderr.as_str());
                e.append(err.as_str());
                e.append("\n");
                let out = trim_str(o.stdout.as_str());
                e.append(out.as_str());
                Err(e)
            }
        },
        Err(x) => {
            let mut e = String::from_str(context);
            e.append(": ");
            e.append(x.as_str());
            Err(e)
        },
    }
}

/// The status after installing the EvalScope harness: an error with its
/// detail where the harness or Python is still missing.
pub fn installed_harness_status(status: GpqaDiamondStatus) -> (r: Result<GpqaDiamondStatus, String>)
    ensures
        (status.status_label@ == "Needs harness"@ || status.status_label@ == "Needs Python"@) ==> (r matches Err(
            e,
        ) && e@ == status.detail@),
        !(status.status_label@ == "Needs harness"@ || status.status_label@ == "Needs Python"@) ==> (r matches Ok(
            s,
        ) && s == status),
{
    if crate::text::str_eq(status.status_label.as_str(), "Needs harness") || crate::text::str_eq(
        status.status_label.as_str(),
        "Needs Python",
    ) {
        Err(status.detail)
    } else {
        Ok(status)
    }
}

} // verus!
