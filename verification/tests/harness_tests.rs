use model_surgery::harness::{
    check_run_readiness, eval_backend_install_steps, evalscope_eval_args, evalscope_install_steps,
    humaneval_sample_limit, installed_harness_status, judge_run_exit, managed_setup_outcome,
    setup_command_outcome, OfficialHarness, ReportWatch, SetupStep,
};
use model_surgery::official::{GpqaDiamondStatus, ProcessOutput};

#[test]
fn readiness_comes_before_the_dataset() {
    assert_eq!(
        check_run_readiness(OfficialHarness::GpqaDiamond, false, "Install", "Python missing.", true),
        Err("GPQA Diamond is not ready. Current status: Install. Python missing.".to_string())
    );
    assert_eq!(
        check_run_readiness(OfficialHarness::MmmuPro, false, "Install", "No harness.", false),
        Err("MMMU-Pro requires the shared EvalScope harness. Current status: Install. No harness.".to_string())
    );
    assert_eq!(
        check_run_readiness(OfficialHarness::HumanEval, true, "Ready", "", false),
        Err("HumanEval dataset is not downloaded or verified yet.".to_string())
    );
    assert_eq!(
        check_run_readiness(OfficialHarness::TerminalBench, true, "Ready", "", false),
        Err("Terminal-Bench dataset is not downloaded or verified yet.".to_string())
    );
    assert_eq!(check_run_readiness(OfficialHarness::GpqaDiamond, true, "Ready", "", false), Ok(()));
    assert_eq!(check_run_readiness(OfficialHarness::MmmuPro, true, "Ready", "", true), Ok(()));
}

#[test]
fn humaneval_limit_is_capped_at_the_dataset_size() {
    assert_eq!(humaneval_sample_limit(198), 164);
    assert_eq!(humaneval_sample_limit(164), 164);
    assert_eq!(humaneval_sample_limit(12), 12);
}

#[test]
fn builds_the_evalscope_command_lines() {
    let gpqa = evalscope_eval_args(
        OfficialHarness::GpqaDiamond,
        "demo.gguf",
        "http://127.0.0.1:1234/v1",
        "key",
        "C:\\data\\gpqa",
        "{\"gpqa_diamond\":{\"few_shot_num\":0}}",
        "{\"stream\":false}",
        198,
        "C:\\runs\\gpqa",
    );
    assert_eq!(
        gpqa,
        vec![
            "eval", "--eval-type", "openai_api", "--model", "demo.gguf", "--model-id",
            "modelinspector-gpqa-diamond", "--api-url", "http://127.0.0.1:1234/v1", "--api-key", "key",
            "--datasets", "gpqa_diamond", "--dataset-dir", "C:\\data\\gpqa", "--dataset-args",
            "{\"gpqa_diamond\":{\"few_shot_num\":0}}", "--generation-config", "{\"stream\":false}",
            "--limit", "198", "--eval-batch-size", "1", "--repeats", "1", "--work-dir", "C:\\runs\\gpqa",
            "--no-timestamp", "--enable-progress-tracker", "--no-collect-perf",
        ]
    );
    let humaneval = evalscope_eval_args(OfficialHarness::HumanEval, "m", "u", "k", "d", "", "g", 164, "w");
    assert_eq!(
        humaneval,
        vec![
            "eval", "--eval-type", "openai_api", "--model", "m", "--model-id", "modelinspector-humaneval",
            "--api-url", "u", "--api-key", "k", "--datasets", "humaneval", "--dataset-dir", "d",
            "--generation-config", "g", "--limit", "164", "--eval-batch-size", "1", "--repeats", "1",
            "--work-dir", "w", "--no-timestamp", "--enable-progress-tracker", "--no-collect-perf",
            "--sandbox", "{\"enabled\": true, \"engine\": \"docker\"}",
        ]
    );
    let mmmu = evalscope_eval_args(OfficialHarness::MmmuPro, "m", "u", "k", "d", "a", "g", 5, "w");
    assert_eq!(
        mmmu,
        vec![
            "eval", "--eval-type", "openai_api", "--model", "m", "--model-id", "modelinspector-mmmu-pro",
            "--api-url", "u", "--api-key", "k", "--datasets", "mmmu_pro", "--dataset-dir", "d",
            "--generation-config", "g", "--dataset-args", "a", "--limit", "5", "--eval-batch-size", "1",
            "--repeats", "1", "--work-dir", "w", "--no-timestamp", "--enable-progress-tracker",
            "--no-collect-perf",
        ]
    );
}

#[test]
fn judges_a_finished_run() {
    assert_eq!(judge_run_exit(OfficialHarness::GpqaDiamond, true, "exit code: 0", "", ""), Ok(()));
    assert_eq!(
        judge_run_exit(OfficialHarness::HumanEval, false, "exit code: 1", "run CANCELLED by user", ""),
        Err((
            "EvalScope: HumanEval official harness cancelled".to_string(),
            "HumanEval benchmark cancelled".to_string()
        ))
    );
    assert_eq!(
        judge_run_exit(OfficialHarness::GpqaDiamond, false, "exit code: 2", " out ", "boom \n"),
        Err((
            "EvalScope: GPQA Diamond official harness failed with status exit code: 2".to_string(),
            "GPQA Diamond harness failed with status exit code: 2: out \nboom".to_string()
        ))
    );
    assert_eq!(
        judge_run_exit(OfficialHarness::TerminalBench, false, "exit code: 1", "", "Cancel"),
        Err((
            "Harbor: Terminal-Bench 2.1 benchmark cancelled".to_string(),
            "Terminal-Bench benchmark cancelled".to_string()
        ))
    );
    assert_eq!(
        judge_run_exit(OfficialHarness::TerminalBench, false, "exit code: 3", "x", "y"),
        Err((
            "Harbor: Terminal-Bench 2.1 benchmark failed with status exit code: 3".to_string(),
            "Terminal-Bench Harbor run failed with status exit code: 3: x\ny".to_string()
        ))
    );
    assert_eq!(
        judge_run_exit(OfficialHarness::MmmuPro, false, "s", "can", "cel"),
        Err((
            "EvalScope: MMMU-Pro official harness failed with status s".to_string(),
            "MMMU-Pro harness failed with status s: can\ncel".to_string()
        ))
    );
}

#[test]
fn stops_humaneval_once_its_report_has_been_ready_for_the_grace_period() {
    let mut watch = ReportWatch::new();
    assert!(!watch.observe(1000, None, 5000));
    assert_eq!(watch.ready_since_ms, None);
    assert!(!watch.observe(2000, Some("report.json".to_string()), 5000));
    assert_eq!(watch.ready_since_ms, Some(2000));
    assert_eq!(watch.completed_report.as_deref(), Some("report.json"));
    assert!(!watch.observe(6999, Some("report.json".to_string()), 5000));
    assert!(watch.observe(7000, Some("report.json".to_string()), 5000));
    assert!(watch.forced);
    assert!(!watch.observe(9000, Some("other.json".to_string()), 5000));
    assert_eq!(watch.completed_report.as_deref(), Some("report.json"));
}

fn plain(steps: &[SetupStep]) -> Vec<(u32, String, String, Vec<String>, Option<String>)> {
    steps
        .iter()
        .map(|s| (s.progress_percent, s.message.clone(), s.program.clone(), s.args.clone(), s.failure_context.clone()))
        .collect()
}

fn strings(v: &[&str]) -> Vec<String> {
    v.iter().map(|s| s.to_string()).collect()
}

#[test]
fn plans_the_evalscope_install() {
    let fresh = evalscope_install_steps(false, "py", &strings(&["-3"]), "C:\\env\\venv", "C:\\env\\venv\\python.exe");
    assert_eq!(
        plain(&fresh),
        vec![
            (10, "Creating GPQA benchmark Python environment...".to_string(), "py".to_string(), strings(&["-3", "-m", "venv", "C:\\env\\venv"]), None),
            (40, "Updating benchmark environment package installer...".to_string(), "C:\\env\\venv\\python.exe".to_string(), strings(&["-m", "pip", "install", "--upgrade", "pip"]), None),
            (70, "Installing EvalScope GPQA benchmark harness...".to_string(), "C:\\env\\venv\\python.exe".to_string(), strings(&["-m", "pip", "install", "--upgrade", "evalscope[sandbox]==1.8.0"]), None),
        ]
    );
    let existing = evalscope_install_steps(true, "python", &vec![], "v", "vp");
    assert_eq!(existing.len(), 2);
    assert_eq!(existing[0].progress_percent, 40);
    assert_eq!(existing[1].args, strings(&["-m", "pip", "install", "--upgrade", "evalscope[sandbox]==1.8.0"]));
}

#[test]
fn plans_the_eval_backend_install() {
    let fresh = eval_backend_install_steps(false, "python", "b/.venv", "b/.venv/bin/python");
    assert_eq!(
        plain(&fresh),
        vec![
            (10, "Creating Python virtual environment...".to_string(), "python".to_string(), strings(&["-m", "venv", "b/.venv"]), Some("failed to create official eval Python venv".to_string())),
            (25, "Upgrading pip inside eval backend...".to_string(), "b/.venv/bin/python".to_string(), strings(&["-m", "pip", "install", "--upgrade", "pip"]), Some("failed to upgrade pip in official eval backend".to_string())),
            (45, "Installing EleutherAI lm-evaluation-harness...".to_string(), "b/.venv/bin/python".to_string(), strings(&["-m", "pip", "install", "--upgrade", "lm-eval==0.4.12", "transformers>=4.56,<5"]), Some("failed to install EleutherAI lm-evaluation-harness".to_string())),
        ]
    );
    assert_eq!(eval_backend_install_steps(true, "python", "v", "vp").len(), 2);
}

#[test]
fn judges_setup_commands() {
    assert_eq!(managed_setup_outcome(true, "a", "b"), Ok("a\nb".to_string()));
    assert_eq!(managed_setup_outcome(false, "", "Cancelled"), Err("Benchmark setup cancelled".to_string()));
    assert_eq!(
        managed_setup_outcome(false, " pip error ", ""),
        Err("Benchmark setup command failed: pip error".to_string())
    );
    let failed = ProcessOutput { success: false, stdout: " out \n".to_string(), stderr: " err ".to_string() };
    assert_eq!(
        setup_command_outcome("failed to upgrade pip in official eval backend", Ok(failed)),
        Err("failed to upgrade pip in official eval backend: err\nout".to_string())
    );
    let ok = ProcessOutput { success: true, stdout: String::new(), stderr: String::new() };
    assert_eq!(setup_command_outcome("ctx", Ok(ok)), Ok(()));
    assert_eq!(setup_command_outcome("ctx", Err("not found".to_string())), Err("ctx: not found".to_string()));
}

#[test]
fn an_install_that_left_the_harness_missing_fails_with_its_detail() {
    let status = |label: &str| GpqaDiamondStatus {
        ready: false,
        status_label: label.to_string(),
        python: None,
        evalscope: None,
        dataset_ready: false,
        dataset_status_label: "Download".to_string(),
        dataset_path: None,
        dataset_hash: None,
        dataset_url: String::new(),
        expected_dataset_hash: String::new(),
        detail: "EvalScope is missing.".to_string(),
    };
    assert_eq!(installed_harness_status(status("Needs harness")).err(), Some("EvalScope is missing.".to_string()));
    assert_eq!(installed_harness_status(status("Needs Python")).err(), Some("EvalScope is missing.".to_string()));
    assert_eq!(installed_harness_status(status("Download")).map(|s| s.status_label), Ok("Download".to_string()));
}
