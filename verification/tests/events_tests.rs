use model_surgery::eval_backend::check_official_eval_backend_status;
use model_surgery::progress::{api_output_event, benchmark_output_event, stage_message, ProgressStage};

#[test]
fn blank_output_lines_are_not_sent() {
    assert!(benchmark_output_event("  \n".to_string()).is_none());
    assert_eq!(benchmark_output_event("line".to_string()).unwrap().message, "line");
    assert!(api_output_event(String::new()).is_none());
    assert_eq!(api_output_event(" ready ".to_string()).unwrap().message, " ready ");
}

#[test]
fn stage_messages() {
    assert_eq!(stage_message(ProgressStage::Requantizing, "blk.0"), "Requantizing: blk.0");
    assert_eq!(stage_message(ProgressStage::Writing, "out.gguf"), "Writing: out.gguf");
    assert_eq!(stage_message(ProgressStage::Loading, "ignored"), "Loading model into VRAM...");
    assert_eq!(stage_message(ProgressStage::Benchmarking, ""), "Running inference benchmark...");
}

#[test]
fn eval_backend_status_messages() {
    let installed = check_official_eval_backend_status(Ok("dir".to_string()), "py".to_string(), true, true, true);
    assert!(installed.installed);
    assert_eq!(installed.message, "Official eval backend is installed");
    assert_eq!(installed.python_path.as_deref(), Some("py"));
    assert_eq!(installed.backend_dir, "dir");

    let none = check_official_eval_backend_status(Ok("dir".to_string()), "py".to_string(), false, true, true);
    assert!(!none.installed);
    assert!(!none.lm_eval_available);
    assert_eq!(none.python_path, None);
    assert_eq!(none.message, "Official eval backend is not installed");

    let no_lm = check_official_eval_backend_status(Ok("dir".to_string()), "py".to_string(), true, false, true);
    assert_eq!(no_lm.message, "Official eval backend venv exists, but lm-eval is not available");

    let no_adapter = check_official_eval_backend_status(Ok("dir".to_string()), "py".to_string(), true, true, false);
    assert_eq!(no_adapter.message, "Official eval backend adapter is missing");
    assert!(no_adapter.lm_eval_available);

    let unresolved = check_official_eval_backend_status(Err("no dir".to_string()), String::new(), false, false, false);
    assert_eq!(unresolved.message, "no dir");
    assert_eq!(unresolved.backend_dir, "");
}
