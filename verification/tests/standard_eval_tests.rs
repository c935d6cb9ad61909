use model_surgery::standard_eval::{
    sample_flip_type, standard_task_name, expand_quick_ppl_corpus, parse_standard_eval_preset, standard_eval_subset, StandardEvalPreset,
    StandardSample, StandardSubset, StandardTask,
};

fn sample(doc_id: Option<&str>, delimiter: Option<&str>, choices: &[&str], gold: u32) -> StandardSample {
    StandardSample {
        doc_id: doc_id.map(|s| s.to_string()),
        prompt: "Question: x\nAnswer:".to_string(),
        target_delimiter: delimiter.map(|s| s.to_string()),
        choices: choices.iter().map(|s| s.to_string()).collect(),
        gold,
        normalize_by_choice_length: true,
    }
}

fn subset(ppl: &[&str], output_type: &str, samples: Vec<StandardSample>) -> StandardSubset {
    StandardSubset {
        ppl: ppl.iter().map(|s| s.to_string()).collect(),
        tasks: vec![StandardTask {
            name: "arc_challenge".to_string(),
            output_type: output_type.to_string(),
            samples,
        }],
    }
}

#[test]
fn standard_eval_requires_explicit_target_delimiter() {
    let contents = subset(
        &["small fixed corpus"],
        "multiple_choice",
        vec![sample(None, None, &[" yes", " no"], 0)],
    );

    let err = match standard_eval_subset(&contents, "test subset") {
        Ok(_) => panic!("expected missing targetDelimiter error"),
        Err(err) => err,
    };
    assert!(
        err.contains("missing targetDelimiter"),
        "unexpected error: {err}"
    );
    assert_eq!(
        err,
        "test subset sample missing targetDelimiter for task arc_challenge docId <unknown>"
    );
}

#[test]
fn standard_eval_builds_delimited_continuations_and_raw_choice_lengths() {
    let contents = subset(
        &["small fixed corpus"],
        "multiple_choice",
        vec![sample(Some("sample-1"), Some(" "), &["yes", "nope", "é"], 0)],
    );

    let subset = standard_eval_subset(&contents, "test subset").unwrap();
    let sample = &subset.samples[0];
    assert_eq!(sample.continuations, vec![" yes", " nope", " é"]);
    assert_eq!(sample.choice_lengths, vec![3, 4, 1]);
    assert_eq!(sample.doc_id, "sample-1");
    assert_eq!(sample.task, "arc_challenge");
    assert_eq!(sample.gold_index, 0);
}

#[test]
fn standard_eval_errors_in_order() {
    let blank = subset(&["  ", "\n"], "multiple_choice", vec![sample(None, Some(" "), &["a", "b"], 0)]);
    assert_eq!(standard_eval_subset(&blank, "s").unwrap_err(), "s PPL corpus is empty");

    let gen = subset(&["t"], "generate_until", vec![]);
    assert_eq!(
        standard_eval_subset(&gen, "s").unwrap_err(),
        "unsupported s output type for arc_challenge: generate_until"
    );

    let one = subset(&["t"], "multiple_choice", vec![sample(None, Some(" "), &["a"], 0)]);
    assert_eq!(
        standard_eval_subset(&one, "s").unwrap_err(),
        "s sample for arc_challenge has fewer than two choices"
    );

    let gold = subset(&["t"], "multiple_choice", vec![sample(None, Some(" "), &["a", "b"], 2)]);
    assert_eq!(
        standard_eval_subset(&gold, "s").unwrap_err(),
        "s sample for arc_challenge has invalid gold index"
    );

    let empty_choice = subset(&["t"], "multiple_choice", vec![sample(Some("7"), Some(" "), &["a", ""], 0)]);
    assert_eq!(
        standard_eval_subset(&empty_choice, "s").unwrap_err(),
        "s sample for arc_challenge docId 7 has an empty choice"
    );

    let none = subset(&["t"], "multiple_choice", vec![]);
    assert_eq!(standard_eval_subset(&none, "s").unwrap_err(), "s sample set is empty");
}

#[test]
fn standard_eval_keeps_non_blank_corpus_texts() {
    let s = subset(&["a", " ", "b"], "multiple_choice", vec![sample(None, Some(""), &["x", "y"], 1)]);
    let loaded = standard_eval_subset(&s, "s").unwrap();
    assert_eq!(loaded.ppl_texts, vec!["a", "b"]);
    assert_eq!(loaded.samples[0].doc_id, "<unknown>");
    assert_eq!(loaded.samples[0].continuations, vec!["x", "y"]);
}

#[test]
fn quick_corpus_is_extended_with_new_default_texts_only() {
    let quick = vec!["a".to_string(), "b".to_string()];
    let default = vec!["b".to_string(), "c".to_string(), "a".to_string(), "c".to_string(), "d".to_string()];
    assert_eq!(expand_quick_ppl_corpus(quick, default), vec!["a", "b", "c", "d"]);
}

#[test]
fn presets_parse_by_name() {
    assert_eq!(parse_standard_eval_preset(None).unwrap(), StandardEvalPreset::Default);
    assert_eq!(parse_standard_eval_preset(Some("quick")).unwrap(), StandardEvalPreset::Quick);
    assert_eq!(parse_standard_eval_preset(Some("default")).unwrap(), StandardEvalPreset::Default);
    assert_eq!(parse_standard_eval_preset(Some("full")).unwrap_err(), "Unknown eval preset: full");
    for p in [StandardEvalPreset::Quick, StandardEvalPreset::Default] {
        assert_eq!(parse_standard_eval_preset(Some(p.label())).unwrap(), p);
    }
}

#[test]
fn sample_flips_between_baseline_and_recipe() {
    assert_eq!(sample_flip_type(true, 1, 2, true, false), "correct_to_wrong");
    assert_eq!(sample_flip_type(true, 1, 2, false, true), "wrong_to_correct");
    assert_eq!(sample_flip_type(true, 1, 2, false, false), "prediction_changed");
    assert_eq!(sample_flip_type(true, 2, 2, true, true), "same_prediction");
    assert_eq!(sample_flip_type(false, 0, 3, false, true), "recipe_correct");
    assert_eq!(sample_flip_type(false, 0, 3, true, false), "recipe_wrong");
}

#[test]
fn task_names_stop_at_the_first_nul() {
    let mut buffer = [0u8; 16];
    buffer[..4].copy_from_slice(b"arc_");
    assert_eq!(standard_task_name(&buffer), "arc_");
    assert_eq!(standard_task_name(b"hellaswag"), "hellaswag");
    assert_eq!(standard_task_name(&[0xFF, b'a', 0, b'b']), "\u{FFFD}a");
}
