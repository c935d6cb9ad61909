use std::collections::BTreeSet;

use model_surgery::official::{
    container_ids_from, docker_status_from, gpqa_question_from_prompt, harbor_probe_result,
    harness_probe_result, terminal_bench_harbor_benchmark_args, ProcessOutput,
    gpqa_count_settings, harbor_score_rows, terminal_bench_count_settings, top_k_setting,
    container_images_from, container_removal_message, harbor_process_ids_from, new_process_ids,
    new_task_container_ids, task_docker_image, terminal_bench_row,
};
use model_surgery::official::{
    classify_gpqa_status, classify_humaneval_status, classify_probe_output,
    classify_terminal_bench_status, dataset_detail, dataset_hash_string, dataset_path_string,
    dataset_status_label, detect_gpqa_dataset_state, detect_gpqa_diamond_status,
    detect_humaneval_dataset_state, detect_humaneval_dataset_status, detect_humaneval_status,
    detect_mmmu_pro_dataset_state, detect_mmmu_pro_dataset_status,
    detect_terminal_bench_dataset_state, detect_terminal_bench_dataset_status,
    effective_mmmu_pro_subjects, managed_env_status, mmmu_pro_subject_groups, mmmu_pro_subsets,
    new_sandbox_container_ids, probe_error_detail, probe_value, terminal_bench_litellm_model_name,
    DatasetMarker, GpqaDatasetState, GpqaShotMode, GpqaThinkingMode, MmmuProSubjectRunConfig,
};

fn verified() -> GpqaDatasetState {
    GpqaDatasetState::Verified {
        path: "gpqa_diamond_dataset_ready.json".to_string(),
        hash: "marker-v1".to_string(),
    }
}

fn ids(names: &[&str]) -> Vec<String> {
    let set: BTreeSet<String> = names.iter().map(|s| s.to_string()).collect();
    set.into_iter().collect()
}

#[test]
fn classifies_gpqa_ready_when_required_packages_are_importable() {
    let status =
        classify_probe_output("python=3.11.8\nevalscope=1.8.0\ngpqa_task=ok\nopenai=1.0.0\n");

    assert!(status.ready);
    assert_eq!(status.status_label, "Ready");
    assert_eq!(status.python.as_deref(), Some("3.11.8"));
    assert_eq!(status.evalscope.as_deref(), Some("1.8.0"));
}

#[test]
fn classifies_gpqa_as_needing_harness_when_evalscope_is_missing() {
    let status = classify_probe_output(
        "python=3.11.8\nevalscope_error=No module named evalscope\nopenai=1.0.0\n",
    );

    assert!(!status.ready);
    assert_eq!(status.status_label, "Needs harness");
    assert!(status.detail.contains("evalscope_error"));
}

#[test]
fn classifies_gpqa_as_needing_harness_when_task_is_missing() {
    let status = classify_probe_output(
        "python=3.11.8\nevalscope=1.8.0\nopenai=1.0.0\ngpqa_task_error=No module named evalscope.benchmarks.gpqa\n",
    );

    assert!(!status.ready);
    assert_eq!(status.status_label, "Needs harness");
    assert!(status.detail.contains("gpqa_task_error"));
}

#[test]
fn classifies_humaneval_as_needing_harness_when_sandbox_is_missing() {
    let status = classify_humaneval_status(
        "python=3.11.8\nevalscope=1.8.0\nhumaneval_task=ok\nsandbox_error=No module named ms_enclave\n",
        true,
        Some("Docker".to_string()),
        String::new(),
    );

    assert!(!status.ready);
    assert_eq!(status.status_label, "Needs harness");
    assert!(status.detail.contains("sandbox_error"));
}

#[test]
fn prioritizes_missing_humaneval_harness_over_missing_docker() {
    let status = classify_humaneval_status(
        "python=3.11.8\nevalscope=1.8.0\nhumaneval_task=ok\nsandbox_error=No module named ms_enclave\n",
        false,
        None,
        "Docker is not running.".to_string(),
    );

    assert!(!status.ready);
    assert_eq!(status.status_label, "Needs harness");
    assert!(status.detail.contains("sandbox_error"));
}

#[test]
fn selects_only_new_humaneval_sandbox_containers_for_cleanup() {
    let before = ids(&["existing", "shared"]);
    let after = ids(&["existing", "shared", "created-a", "created-b"]);

    assert_eq!(
        new_sandbox_container_ids(&before, &after),
        vec!["created-a".to_string(), "created-b".to_string()]
    );
}

#[test]
fn classifies_terminal_bench_ready_when_harbor_and_docker_are_available() {
    let status = classify_terminal_bench_status(
        Ok("Harbor".to_string()),
        true,
        Some("29.1.3".to_string()),
        "Docker daemon is available.".to_string(),
    );

    assert!(status.ready);
    assert_eq!(status.status_label, "Ready");
    assert!(status.harbor_ready);
    assert!(status.docker_ready);
    assert_eq!(status.docker.as_deref(), Some("29.1.3"));
}

#[test]
fn classifies_terminal_bench_as_needing_harbor_when_probe_fails() {
    let status = classify_terminal_bench_status(
        Err("uvx failed".to_string()),
        true,
        Some("29.1.3".to_string()),
        "Docker daemon is available.".to_string(),
    );

    assert!(!status.ready);
    assert_eq!(status.status_label, "Needs Harbor");
    assert!(!status.harbor_ready);
    assert!(status.detail.contains("uvx failed"));
}

#[test]
fn reports_install_when_system_python_exists_but_managed_env_is_missing() {
    let status = managed_env_status(false, true, None, GpqaDatasetState::Missing);

    assert!(!status.ready);
    assert_eq!(status.status_label, "Install");
    assert!(status.detail.contains("managed benchmark environment"));
}

#[test]
fn reports_ready_from_managed_env_probe() {
    let status = managed_env_status(
        true,
        true,
        Some("python=3.11.8\nevalscope=1.8.0\ngpqa_task=ok\nopenai=1.0.0\n"),
        GpqaDatasetState::Verified {
            path: "gpqa_diamond_dataset_ready.json".to_string(),
            hash: "marker-v1".to_string(),
        },
    );

    assert!(status.ready);
    assert_eq!(status.status_label, "Ready");
    assert_eq!(status.python.as_deref(), Some("3.11.8"));
}

#[test]
fn reports_download_when_harness_is_ready_but_dataset_is_missing() {
    let status = classify_gpqa_status(
        "python=3.11.8\nevalscope=1.8.0\ngpqa_task=ok\nopenai=1.0.0\n",
        GpqaDatasetState::Missing,
    );

    assert!(!status.ready);
    assert_eq!(status.status_label, "Download");
    assert!(!status.dataset_ready);
    assert!(status.detail.contains("dataset"));
}

#[test]
fn probe_values_are_trimmed_and_blank_values_skipped() {
    let out = "python=\npython =x\npython=  3.12 \r\nevalscope=1";
    assert_eq!(probe_value(out, "python").as_deref(), Some("3.12"));
    assert_eq!(probe_value(out, "openai"), None);
    assert_eq!(
        probe_error_detail("a_error=one\nok=1\nb_error=two"),
        "a_error=one; b_error=two"
    );
    assert_eq!(probe_error_detail("nothing"), "");
}

#[test]
fn gpqa_status_details_follow_the_dataset() {
    let ready = classify_gpqa_status("python=3\nevalscope=1\ngpqa_task=ok\nopenai=1\n", verified());
    assert_eq!(
        ready.detail,
        "EvalScope, GPQA Diamond adapter, OpenAI client, and dataset cache marker are verified."
    );
    assert_eq!(ready.dataset_url, "AI-ModelScope/gpqa_diamond");
    assert_eq!(ready.expected_dataset_hash, "EvalScope dataset cache marker");
    assert_eq!(ready.dataset_status_label, "Verified");
    assert_eq!(ready.dataset_path.as_deref(), Some("gpqa_diamond_dataset_ready.json"));
    assert_eq!(ready.dataset_hash.as_deref(), Some("marker-v1"));
    let not_ok = classify_gpqa_status("python=3\nevalscope=1\ngpqa_task=okay\nopenai=1\n", verified());
    assert_eq!(not_ok.status_label, "Needs harness");
    let invalid = GpqaDatasetState::Invalid {
        path: "m.json".to_string(),
        hash: None,
        detail: "broken marker".to_string(),
    };
    let download = classify_gpqa_status("python=3\nevalscope=1\ngpqa_task=ok\nopenai=1\n", invalid.clone());
    assert_eq!(download.detail, "broken marker");
    assert_eq!(dataset_status_label(&invalid), "Invalid");
    assert_eq!(dataset_path_string(&invalid).as_deref(), Some("m.json"));
    assert_eq!(dataset_hash_string(&invalid), None);
    assert_eq!(dataset_detail(&GpqaDatasetState::Missing), "GPQA Diamond dataset is not downloaded or verified yet.");
    assert_eq!(dataset_status_label(&GpqaDatasetState::Missing), "Missing");
}

#[test]
fn gpqa_status_without_a_probe() {
    let no_python = managed_env_status(false, false, None, GpqaDatasetState::Missing);
    assert_eq!(no_python.status_label, "Needs Python");
    assert_eq!(no_python.detail, "Python was not found on PATH.");
    let failed = detect_gpqa_diamond_status(true, Some(Err("probe crashed".to_string())), verified());
    assert_eq!(failed.status_label, "Needs harness");
    assert_eq!(failed.detail, "probe crashed");
    assert!(failed.dataset_ready);
    let missing_env = detect_gpqa_diamond_status(true, None, verified());
    assert_eq!(missing_env.status_label, "Install");
    let probed = detect_gpqa_diamond_status(
        false,
        Some(Ok("python=3\nevalscope=1\ngpqa_task=ok\nopenai=1\n".to_string())),
        verified(),
    );
    assert!(probed.ready);
}

#[test]
fn humaneval_status_without_a_probe() {
    let s = detect_humaneval_status(true, Some("29".to_string()), String::new(), true, None);
    assert_eq!(s.status_label, "Needs harness");
    assert_eq!(s.detail, "HumanEval harness has not been installed in the managed benchmark environment.");
    let s = detect_humaneval_status(false, None, "Docker is not running.".to_string(), false, None);
    assert_eq!(s.status_label, "Needs Docker");
    assert_eq!(s.detail, "Docker is not running.");
    let s = detect_humaneval_status(true, None, String::new(), false, None);
    assert_eq!(s.status_label, "Needs Python");
    let s = detect_humaneval_status(false, None, "no docker".to_string(), true, Some(Err("boom".to_string())));
    assert_eq!(s.status_label, "Needs Docker");
    assert_eq!(s.detail, "no docker");
    let s = detect_humaneval_status(
        true,
        None,
        String::new(),
        true,
        Some(Ok("python=3\nevalscope=1\nhumaneval_task=ok\nsandbox=ok\n".to_string())),
    );
    assert!(s.ready);
    assert_eq!(s.detail, "EvalScope HumanEval adapter and Docker daemon are verified.");
}

#[test]
fn terminal_bench_needs_docker_once_harbor_works() {
    let s = classify_terminal_bench_status(Ok(String::new()), false, None, "Docker is not running.".to_string());
    assert_eq!(s.status_label, "Needs Docker");
    assert_eq!(s.detail, "Docker is not running.");
    assert_eq!(s.harbor.as_deref(), Some("uvx harbor"));
}

fn marker(version: u64, dataset: &str, id: Option<&str>, count: Option<u64>) -> DatasetMarker {
    DatasetMarker {
        version: Some(version),
        dataset: Some(dataset.to_string()),
        dataset_id: id.map(|s| s.to_string()),
        sample_count: count,
    }
}

#[test]
fn dataset_markers_are_checked() {
    let p = "marker.json".to_string();
    assert!(matches!(detect_gpqa_dataset_state(p.clone(), None), GpqaDatasetState::Missing));
    match detect_gpqa_dataset_state(p.clone(), Some(Ok(marker(1, "gpqa_diamond", None, Some(198))))) {
        GpqaDatasetState::Verified { path, hash } => {
            assert_eq!(path, "marker.json");
            assert_eq!(hash, "marker-v1");
        }
        other => panic!("unexpected {other:?}"),
    }
    match detect_gpqa_dataset_state(p.clone(), Some(Ok(marker(1, "gpqa_diamond", None, Some(197))))) {
        GpqaDatasetState::Invalid { detail, hash, .. } => {
            assert_eq!(detail, "GPQA Diamond EvalScope dataset marker is invalid.");
            assert!(hash.is_none());
        }
        other => panic!("unexpected {other:?}"),
    }
    match detect_humaneval_dataset_state(p.clone(), Some(Err("bad json".to_string()))) {
        GpqaDatasetState::Invalid { detail, .. } => assert_eq!(detail, "bad json"),
        other => panic!("unexpected {other:?}"),
    }
    assert!(matches!(
        detect_humaneval_dataset_state(p.clone(), Some(Ok(marker(1, "humaneval", None, Some(164))))),
        GpqaDatasetState::Verified { .. }
    ));
    assert!(matches!(
        detect_mmmu_pro_dataset_state(p.clone(), Some(Ok(marker(1, "mmmu_pro", Some("AI-ModelScope/MMMU_Pro"), Some(1730))))),
        GpqaDatasetState::Verified { .. }
    ));
    assert!(matches!(
        detect_mmmu_pro_dataset_state(p.clone(), Some(Ok(marker(1, "mmmu_pro", None, Some(1730))))),
        GpqaDatasetState::Invalid { .. }
    ));
    assert!(matches!(
        detect_terminal_bench_dataset_state(p.clone(), Some(Ok(marker(1, "terminal-bench-2-1", None, None)))),
        GpqaDatasetState::Verified { .. }
    ));
    assert!(matches!(
        detect_terminal_bench_dataset_state(p.clone(), Some(Ok(marker(2, "terminal-bench-2-1", None, None)))),
        GpqaDatasetState::Invalid { .. }
    ));
    match detect_terminal_bench_dataset_state(p, Some(Err("denied".to_string()))) {
        GpqaDatasetState::Invalid { detail, .. } => {
            assert_eq!(detail, "Failed to read Terminal-Bench dataset marker: denied")
        }
        other => panic!("unexpected {other:?}"),
    }
}

#[test]
fn dataset_statuses_name_their_sources() {
    let h = detect_humaneval_dataset_status(&verified());
    assert!(h.dataset_ready);
    assert_eq!(h.dataset_url, "opencompass/humaneval");
    let m = detect_mmmu_pro_dataset_status(&GpqaDatasetState::Missing);
    assert!(!m.dataset_ready);
    assert_eq!(m.dataset_status_label, "Missing");
    assert_eq!(m.dataset_url, "AI-ModelScope/MMMU_Pro");
    let t = detect_terminal_bench_dataset_status(&verified());
    assert_eq!(t.dataset_url, "terminal-bench/terminal-bench-2-1");
    assert_eq!(t.expected_dataset_hash, "Harbor dataset cache marker");
}

#[test]
fn shot_and_thinking_modes() {
    assert_eq!(GpqaShotMode::ZeroShot.few_shot_num(), 0);
    assert_eq!(GpqaShotMode::FiveShotCot.few_shot_num(), 5);
    assert_eq!(GpqaShotMode::ZeroShot.label(), "0-shot CoT");
    assert_eq!(GpqaShotMode::FiveShotCot.label(), "5-shot CoT");
    assert!(GpqaThinkingMode::On.enable_thinking());
    assert!(!GpqaThinkingMode::Off.enable_thinking());
}

#[test]
fn litellm_model_names_carry_the_openai_prefix_once() {
    assert_eq!(terminal_bench_litellm_model_name("model.gguf"), "openai/model.gguf");
    assert_eq!(terminal_bench_litellm_model_name("openai/model.gguf"), "openai/model.gguf");
}

fn subject(name: &str, limit: u64) -> MmmuProSubjectRunConfig {
    MmmuProSubjectRunConfig { subject: name.to_string(), sample_limit: limit }
}

#[test]
fn mmmu_pro_subject_selection_is_checked() {
    assert_eq!(mmmu_pro_subsets().len(), 30);
    let all = effective_mmmu_pro_subjects(None, 20).unwrap();
    assert_eq!(all.len(), 30);
    assert!(all.iter().all(|s| s.sample_limit == 20));
    assert_eq!(all[0].subject, "Accounting");
    assert_eq!(
        effective_mmmu_pro_subjects(Some(Vec::new()), 20).unwrap_err(),
        "Select at least one MMMU-Pro subject."
    );
    assert_eq!(
        effective_mmmu_pro_subjects(Some(vec![subject("Astrology", 3)]), 20).unwrap_err(),
        "Unknown MMMU-Pro subject: Astrology."
    );
    assert_eq!(
        effective_mmmu_pro_subjects(Some(vec![subject("Math", 3), subject("Math", 4)]), 20).unwrap_err(),
        "MMMU-Pro subject Math was selected more than once."
    );
    assert_eq!(
        effective_mmmu_pro_subjects(Some(vec![subject("Art_Theory", 0)]), 20).unwrap_err(),
        "MMMU-Pro Art Theory samples must be between 1 and 1730."
    );
    assert_eq!(
        effective_mmmu_pro_subjects(Some(vec![subject("Math", 1731)]), 20).unwrap_err(),
        "MMMU-Pro Math samples must be between 1 and 1730."
    );
    let ok = effective_mmmu_pro_subjects(Some(vec![subject("Math", 5), subject("Physics", 1730)]), 20).unwrap();
    assert_eq!(ok.len(), 2);
}

#[test]
fn mmmu_pro_subjects_are_grouped_by_sample_limit() {
    let groups = mmmu_pro_subject_groups(&[
        subject("Math", 5),
        subject("Art", 10),
        subject("Physics", 5),
        subject("Music", 10),
        subject("Design", 1),
    ]);
    assert_eq!(
        groups,
        vec![
            (5, vec!["Math".to_string(), "Physics".to_string()]),
            (10, vec!["Art".to_string(), "Music".to_string()]),
            (1, vec!["Design".to_string()]),
        ]
    );
}

#[test]
fn extracts_gpqa_question_from_evalscope_prompt() {
    let content = "Here are some examples...\n\nAnswer the following multiple choice question. The last line of your response should be of the following format: 'ANSWER: [LETTER]' (without quotes) where [LETTER] is one of A,B,C,D. Think step by step before answering.\n\nTwo quantum states with energies E1 and E2 have a lifetime of 10^-9 sec and 10^-8 sec, respectively. We want to clearly distinguish these two energy levels. Which one of the following options could be their energy difference so that they can be clearly resolved?\n\n\nA) 10^-11 eV\nB) 10^-9 eV";
    let question = gpqa_question_from_prompt(content).unwrap();
    assert!(question.starts_with("Two quantum states"));
    assert!(!question.contains("Here are some examples"));
    assert!(!question.contains("A) 10^-11 eV"));
    assert!(question.ends_with("clearly resolved?"));
    assert_eq!(gpqa_question_from_prompt("no marker here"), None);
    assert_eq!(
        gpqa_question_from_prompt("Think step by step before answering. first Think step by step before answering. second\nA) x"),
        Some("second".to_string())
    );
    assert_eq!(gpqa_question_from_prompt("Think step by step before answering.  \nA) x"), None);
}

#[test]
fn helper_process_outcomes() {
    let ok = |out: &str| ProcessOutput { success: true, stdout: out.to_string(), stderr: String::new() };
    let failed = |err: &str| ProcessOutput { success: false, stdout: String::new(), stderr: err.to_string() };

    assert_eq!(
        docker_status_from(Ok(ok("29.1.3\n"))),
        (true, Some("29.1.3".to_string()), "Docker daemon is available (29.1.3).".to_string())
    );
    assert_eq!(docker_status_from(Ok(ok(" "))), (true, None, "Docker daemon is available.".to_string()));
    assert_eq!(
        docker_status_from(Ok(failed(""))),
        (false, None, "Docker CLI is available, but the Docker daemon is not running.".to_string())
    );
    assert_eq!(
        docker_status_from(Err("not found".to_string())),
        (false, None, "Docker was not found or could not be started: not found".to_string())
    );

    assert_eq!(harbor_probe_result(Ok(ok(" usage \n"))), Ok("usage".to_string()));
    assert_eq!(harbor_probe_result(Ok(failed(""))), Err("Harbor probe failed.".to_string()));
    assert_eq!(
        harbor_probe_result(Err("no uvx".to_string())),
        Err("Harbor was not found or could not be started with uvx: no uvx".to_string())
    );

    assert_eq!(harness_probe_result(Ok(ok("python=3\n")), "Python"), Ok("python=3\n".to_string()));
    assert_eq!(
        harness_probe_result(Ok(failed(" boom\n")), "HumanEval"),
        Err("HumanEval benchmark harness probe failed: boom".to_string())
    );
    assert_eq!(
        harness_probe_result(Err("denied".to_string()), "Python"),
        Err("Failed to probe Python benchmark harness: denied".to_string())
    );

    assert_eq!(
        container_ids_from(Ok(ok("abc\n  \n def \n"))),
        Ok(vec!["abc".to_string(), "def".to_string()])
    );
    assert_eq!(
        container_ids_from(Ok(failed("daemon down"))),
        Err("Failed to list HumanEval sandbox containers: daemon down".to_string())
    );
}

#[test]
fn builds_terminal_bench_harbor_benchmark_args() {
    let task = r"C:\tasks\adaptive-rejection-sampler";
    let jobs = r"C:\runs\terminal-bench";
    let args = terminal_bench_harbor_benchmark_args(
        task,
        jobs,
        "http://127.0.0.1:1234/v1",
        "demo.gguf",
        "modelinspector_terminus2:ModelInspectorTerminus2",
        "{\"input_cost_per_token\":0,\"max_input_tokens\":30000,\"max_output_tokens\":4096,\"output_cost_per_token\":0}",
        4,
        "0.25",
        2,
        3,
        Some("{\"extra_body\":{\"min_p\":0.05,\"repeat_penalty\":1.1,\"top_k\":40},\"presence_penalty\":0.2,\"top_p\":0.95}"),
        Some(3),
    );

    assert_eq!(args[0], "--python");
    assert_eq!(args[1], "3.12");
    assert!(args.contains(&"--path".to_string()));
    assert!(args.contains(&task.to_string()));
    assert!(args.contains(&"--agent".to_string()));
    assert!(args.contains(&"modelinspector_terminus2:ModelInspectorTerminus2".to_string()));
    assert!(args.contains(&"--model".to_string()));
    assert!(args.contains(&"openai/demo.gguf".to_string()));
    assert!(args.contains(&"--ak".to_string()));
    assert!(args.contains(&"api_base=http://127.0.0.1:1234/v1".to_string()));
    assert!(args.contains(&"model_info={\"input_cost_per_token\":0,\"max_input_tokens\":30000,\"max_output_tokens\":4096,\"output_cost_per_token\":0}".to_string()));
    assert!(args.contains(&"max_turns=4".to_string()));
    assert!(args.contains(&"temperature=0.25".to_string()));
    assert!(args.contains(&"llm_call_kwargs={\"extra_body\":{\"min_p\":0.05,\"repeat_penalty\":1.1,\"top_k\":40},\"presence_penalty\":0.2,\"top_p\":0.95}".to_string()));
    assert!(!args.iter().any(|arg| arg.contains("local-key")));
    assert!(args.contains(&"--n-attempts".to_string()));
    assert!(args.contains(&"2".to_string()));
    assert!(args.contains(&"--agent-timeout-multiplier".to_string()));
    assert!(args.contains(&"--n-tasks".to_string()));
    assert!(args.contains(&"3".to_string()));
    assert!(args.contains(&"--delete".to_string()));
    assert_eq!(args.len(), 40);
    assert_eq!(&args[args.len() - 2..], &["--n-tasks".to_string(), "3".to_string()]);
}

#[test]
fn harbor_args_without_optional_settings() {
    let args = terminal_bench_harbor_benchmark_args("t", "j", "u", "openai/m", "a", "{}", 1, "0", 1, 3, None, None);
    assert_eq!(args.len(), 36);
    assert_eq!(args[15], "openai/m");
    assert_eq!(args[35], "--delete");
}

#[test]
fn gpqa_count_settings_fill_defaults_and_check_ranges() {
    assert_eq!(gpqa_count_settings(None, None, None), Ok((20000, 198)));
    assert_eq!(gpqa_count_settings(Some(7), Some(4096), Some(5)), Ok((4096, 5)));
    assert_eq!(
        gpqa_count_settings(Some(u32::MAX), Some(0), Some(0)),
        Err("GPQA seed must be between 0 and 4294967294.".to_string())
    );
    assert_eq!(
        gpqa_count_settings(None, Some(0), Some(0)),
        Err("GPQA context window must be greater than 0.".to_string())
    );
    assert_eq!(
        gpqa_count_settings(None, None, Some(199)),
        Err("GPQA sample limit must be between 1 and 198.".to_string())
    );
    assert_eq!(
        gpqa_count_settings(None, None, Some(0)),
        Err("GPQA sample limit must be between 1 and 198.".to_string())
    );
}

#[test]
fn terminal_bench_count_settings_fill_defaults_and_check_ranges() {
    assert_eq!(terminal_bench_count_settings(None, None, None, None, None), Ok((20000, 1, 1, 3)));
    assert_eq!(
        terminal_bench_count_settings(Some(8192), Some(2), Some(4), Some(30), Some(1000)),
        Ok((8192, 4, 30, 1000))
    );
    assert_eq!(
        terminal_bench_count_settings(Some(0), Some(0), Some(0), None, None),
        Err("Terminal-Bench context window must be greater than 0.".to_string())
    );
    assert_eq!(
        terminal_bench_count_settings(None, Some(0), Some(0), None, None),
        Err("Terminal-Bench samples must be greater than 0.".to_string())
    );
    assert_eq!(
        terminal_bench_count_settings(None, None, Some(1001), Some(0), None),
        Err("Terminal-Bench runs per task must be between 1 and 1000.".to_string())
    );
    assert_eq!(
        terminal_bench_count_settings(None, None, None, Some(0), None),
        Err("Terminal-Bench max turns must be between 1 and 1000.".to_string())
    );
    assert_eq!(
        terminal_bench_count_settings(None, None, None, None, Some(0)),
        Err("Terminal-Bench timeout multiplier must be between 1 and 1000.".to_string())
    );
}

#[test]
fn top_k_setting_names_the_benchmark() {
    assert_eq!(top_k_setting(None, "GPQA"), Ok(()));
    assert_eq!(top_k_setting(Some(0), "GPQA"), Ok(()));
    assert_eq!(top_k_setting(Some(1000), "GPQA"), Ok(()));
    assert_eq!(
        top_k_setting(Some(-1), "GPQA"),
        Err("GPQA top K sampling must be between 0 and 1000.".to_string())
    );
    assert_eq!(
        top_k_setting(Some(1001), "Terminal-Bench"),
        Err("Terminal-Bench top K sampling must be between 0 and 1000.".to_string())
    );
}

fn harbor_score(output: &str) -> Option<(String, u64, f64)> {
    harbor_score_rows(output).into_iter().find_map(|(sample_count, mean)| {
        mean.parse::<f64>().ok().map(|score| ("mean".to_string(), sample_count, score))
    })
}

#[test]
fn parses_terminal_bench_score_from_harbor_table() {
    let output = "\
\u{2502} Trials \u{2502} Exceptions \u{2502}  Mean \u{2502}
\u{2502}      1 \u{2502}          0 \u{2502} 0.750 \u{2502}";

    let parsed = harbor_score(output).unwrap();

    assert_eq!(parsed.0, "mean");
    assert_eq!(parsed.1, 1);
    assert_eq!(parsed.2, 0.75);
}

#[test]
fn parses_terminal_bench_exception_table_as_zero_score() {
    let output = "\
\u{2502} Trials \u{2502} Exceptions \u{2502}  Mean \u{2502}
\u{2502}      0 \u{2502}          1 \u{2502} 0.000 \u{2502}
\u{2502} Exception           \u{2502} Count \u{2502}
\u{2502} InternalServerError \u{2502}     1 \u{2502}";

    let parsed = harbor_score(output).unwrap();

    assert_eq!(parsed.0, "mean");
    assert_eq!(parsed.1, 0);
    assert_eq!(parsed.2, 0.0);
}

#[test]
fn harbor_table_rows_follow_the_last_full_header() {
    let output = "\
no table here
\u{2502} Trials \u{2502} Mean \u{2502}
\u{2502}      9 \u{2502} 0.1 \u{2502}
\u{2502} Trials \u{2502} Exceptions \u{2502}  Mean \u{2502}\r
\u{2502}    +12 \u{2502}          0 \u{2502} 0.5 \u{2502}
\u{2502}    x \u{2502}          0 \u{2502} 0.6 \u{2502}
\u{2502}      3 \u{2502}          0 \u{2502} n/a \u{2502}
\u{2502}      4 \u{2502}";
    assert_eq!(
        harbor_score_rows(output),
        vec![(12, "0.5".to_string()), (3, "n/a".to_string())]
    );
    assert_eq!(harbor_score_rows(""), vec![]);
    assert_eq!(harbor_score_rows("\u{2502}      4 \u{2502} 0.5 \u{2502}"), vec![]);
}

#[test]
fn lists_docker_containers_with_their_images() {
    let ok = ProcessOutput {
        success: true,
        stdout: " abc \t ubuntu:22.04 \nnotab\n\timage-only\nid-only\t \ndef\tpython:3.12\r\n".to_string(),
        stderr: String::new(),
    };
    assert_eq!(
        container_images_from(Ok(ok)),
        Ok(vec![
            ("abc".to_string(), "ubuntu:22.04".to_string()),
            ("def".to_string(), "python:3.12".to_string()),
        ])
    );
    let failed = ProcessOutput { success: false, stdout: String::new(), stderr: " daemon down \n".to_string() };
    assert_eq!(
        container_images_from(Ok(failed)),
        Err("Failed to list Docker containers: daemon down".to_string())
    );
    assert_eq!(
        container_images_from(Err("not found".to_string())),
        Err("Failed to list Docker containers: not found".to_string())
    );
}

#[test]
fn picks_new_task_containers_by_image() {
    let before = vec!["old".to_string()];
    let after = vec![
        ("new1".to_string(), "task-image".to_string()),
        ("old".to_string(), "task-image".to_string()),
        ("new2".to_string(), "other-image".to_string()),
        ("new3".to_string(), "task-image-2".to_string()),
    ];
    let images = vec!["task-image".to_string(), "task-image-2".to_string()];
    assert_eq!(
        new_task_container_ids(&before, &after, &images),
        vec!["new1".to_string(), "new3".to_string()]
    );
    assert_eq!(new_task_container_ids(&before, &after, &vec![]), Vec::<String>::new());
}

#[test]
fn reads_the_docker_image_of_a_task() {
    let toml = "[environment]\nname = \"x\"\n docker_image = \"ghcr.io/tb/hello:1\" \ndocker_image = \"second\"\n";
    assert_eq!(task_docker_image(toml), Some("ghcr.io/tb/hello:1".to_string()));
    assert_eq!(task_docker_image("docker_image=plain"), Some("plain".to_string()));
    assert_eq!(task_docker_image("docker_image_x = \"no\"\nnothing"), None);
    assert_eq!(task_docker_image(""), None);
}

#[test]
fn lists_harbor_host_processes() {
    let ok = ProcessOutput { success: true, stdout: " 120 \nabc\n4294967296\n+7\n\n".to_string(), stderr: String::new() };
    assert_eq!(harbor_process_ids_from(Ok(ok)), vec![120, 7]);
    let failed = ProcessOutput { success: false, stdout: "1\n".to_string(), stderr: String::new() };
    assert_eq!(harbor_process_ids_from(Ok(failed)), Vec::<u32>::new());
    assert_eq!(harbor_process_ids_from(Err("no shell".to_string())), Vec::<u32>::new());
    assert_eq!(new_process_ids(&vec![3, 5], &vec![1, 3, 4, 5, 6]), vec![1, 4, 6]);
}

#[test]
fn reports_container_removal() {
    let ok = ProcessOutput { success: true, stdout: String::new(), stderr: String::new() };
    assert_eq!(
        container_removal_message("Harbor", "Terminal-Bench", 3, Ok(ok)),
        "Harbor: removed 3 Terminal-Bench container(s)"
    );
    let failed = ProcessOutput { success: false, stdout: String::new(), stderr: " busy\n".to_string() };
    assert_eq!(
        container_removal_message("EvalScope", "HumanEval sandbox", 2, Ok(failed)),
        "EvalScope: failed to remove HumanEval sandbox containers: busy"
    );
    assert_eq!(
        container_removal_message("Harbor", "Terminal-Bench", 1, Err("no docker".to_string())),
        "Harbor: failed to remove Terminal-Bench containers: no docker"
    );
}

#[test]
fn parses_terminal_bench_task_folder_for_preview() {
    let parts = vec!["terminal-bench-2-1".to_string(), "hello-terminal".to_string()];
    let row = terminal_bench_row(2, "hello-terminal".to_string(), "Do the terminal task.\n", &parts);

    assert_eq!(row.index, 2);
    assert_eq!(row.task_id, "hello-terminal");
    assert_eq!(row.instruction, "Do the terminal task.");
    assert_eq!(row.path, "terminal-bench-2-1\\hello-terminal");
}

#[test]
fn new_ids_of_ascending_listings_stay_ascending() {
    let before = vec!["b".to_string()];
    let after = vec!["a".to_string(), "b".to_string(), "c".to_string()];
    assert_eq!(new_sandbox_container_ids(&before, &after), vec!["a".to_string(), "c".to_string()]);
    assert_eq!(new_process_ids(&vec![2], &vec![1, 2, 3, 9]), vec![1, 3, 9]);
}
