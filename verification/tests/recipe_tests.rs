use model_surgery::gguf::types::{GgufMetadata, ModelInfo, TensorInfo, TensorQuantPreflight};
use model_surgery::model::{recipe_for_model, tensor_preview_window};
use model_surgery::quant::recipe::{
    allows_target, parse_default_quant, parse_quant_type, quant_type_from_name, quant_type_name,
    recipe_targets, validate_recipe_analysis, MsRecipeAnalysis, QuantType, RecipeState, RecipeStatus,
};

fn make_tensors() -> Vec<String> {
    vec![
        "tok_embeddings.weight".into(),
        "layers.0.attention.wq.weight".into(),
        "blk.0.attn_q.weight".into(),
        "blk.0.attn_norm.weight".into(),
        "layers.0.feed_forward.w1.weight".into(),
        "blk.0.ffn_gate.weight".into(),
        "blk.0.ffn_norm.weight".into(),
        "output.weight".into(),
        "output_norm.weight".into(),
    ]
}

fn quant_of(recipe: &RecipeState, name: &str) -> QuantType {
    recipe.assignments.iter().find(|a| a.tensor_name == name).unwrap().quant_type
}

#[test]
fn test_new_recipe_default_quant() {
    let recipe = RecipeState::new("test.gguf".into(), make_tensors(), QuantType::Q4_K_M);
    assert_eq!(recipe.assignments.len(), 9);
    assert!(recipe
        .assignments
        .iter()
        .all(|a| a.quant_type == QuantType::Q4_K_M));
}

#[test]
fn test_assign_single_tensor() {
    let mut recipe = RecipeState::new("test.gguf".into(), make_tensors(), QuantType::Q4_K_M);
    recipe.assign_tensors(&["layers.0.attention.wq.weight".into()], QuantType::Q6_K);
    let attn = recipe
        .assignments
        .iter()
        .find(|a| a.tensor_name == "layers.0.attention.wq.weight")
        .unwrap();
    assert_eq!(attn.quant_type, QuantType::Q6_K);
}

#[test]
fn test_assign_by_pattern_attn() {
    let mut recipe = RecipeState::new("test.gguf".into(), make_tensors(), QuantType::Q4_K_M);
    recipe.assign_by_pattern("all_attn", QuantType::Q8_0);
    let attn = recipe
        .assignments
        .iter()
        .find(|a| a.tensor_name.contains("attention"))
        .unwrap();
    let gguf_attn = recipe
        .assignments
        .iter()
        .find(|a| a.tensor_name == "blk.0.attn_q.weight")
        .unwrap();
    let ffn = recipe
        .assignments
        .iter()
        .find(|a| a.tensor_name.contains("feed_forward"))
        .unwrap();
    let attn_norm = recipe
        .assignments
        .iter()
        .find(|a| a.tensor_name == "blk.0.attn_norm.weight")
        .unwrap();
    assert_eq!(attn.quant_type, QuantType::Q8_0);
    assert_eq!(gguf_attn.quant_type, QuantType::Q8_0);
    assert_eq!(attn_norm.quant_type, QuantType::Q4_K_M);
    assert_eq!(ffn.quant_type, QuantType::Q4_K_M);
}

#[test]
fn test_assign_by_pattern_ffn() {
    let mut recipe = RecipeState::new("test.gguf".into(), make_tensors(), QuantType::Q4_K_M);
    recipe.assign_by_pattern("all_ffn", QuantType::Q8_0);
    let feed_forward = recipe
        .assignments
        .iter()
        .find(|a| a.tensor_name.contains("feed_forward"))
        .unwrap();
    let gguf_ffn = recipe
        .assignments
        .iter()
        .find(|a| a.tensor_name == "blk.0.ffn_gate.weight")
        .unwrap();
    let attn = recipe
        .assignments
        .iter()
        .find(|a| a.tensor_name == "blk.0.attn_q.weight")
        .unwrap();
    let ffn_norm = recipe
        .assignments
        .iter()
        .find(|a| a.tensor_name == "blk.0.ffn_norm.weight")
        .unwrap();
    assert_eq!(feed_forward.quant_type, QuantType::Q8_0);
    assert_eq!(gguf_ffn.quant_type, QuantType::Q8_0);
    assert_eq!(ffn_norm.quant_type, QuantType::Q4_K_M);
    assert_eq!(attn.quant_type, QuantType::Q4_K_M);
}

#[test]
fn test_assign_by_pattern_embeddings() {
    let mut recipe = RecipeState::new(
        "test.gguf".into(),
        vec![
            "token_embd.weight".into(),
            "model.embed_tokens.weight".into(),
            "per_layer_token_embd.weight".into(),
            "output.weight".into(),
            "blk.0.attn_q.weight".into(),
        ],
        QuantType::Q4_K_M,
    );
    recipe.assign_by_pattern("all_embeddings", QuantType::Q8_0);

    for name in [
        "token_embd.weight",
        "model.embed_tokens.weight",
        "per_layer_token_embd.weight",
        "output.weight",
    ] {
        let assign = recipe
            .assignments
            .iter()
            .find(|a| a.tensor_name == name)
            .unwrap();
        assert_eq!(assign.quant_type, QuantType::Q8_0);
    }

    let attn = recipe
        .assignments
        .iter()
        .find(|a| a.tensor_name == "blk.0.attn_q.weight")
        .unwrap();
    assert_eq!(attn.quant_type, QuantType::Q4_K_M);
}

#[test]
fn test_assign_all_quantized_preserves_runtime_only_tensors() {
    let mut recipe = RecipeState::new("test.gguf".into(), make_tensors(), QuantType::BF16);
    recipe.assign_all(QuantType::Q8_0);

    for name in [
        "tok_embeddings.weight",
        "layers.0.attention.wq.weight",
        "blk.0.attn_q.weight",
        "layers.0.feed_forward.w1.weight",
        "blk.0.ffn_gate.weight",
        "output.weight",
    ] {
        let assign = recipe
            .assignments
            .iter()
            .find(|a| a.tensor_name == name)
            .unwrap();
        assert_eq!(assign.quant_type, QuantType::Q8_0);
    }

    for name in [
        "blk.0.attn_norm.weight",
        "blk.0.ffn_norm.weight",
        "output_norm.weight",
    ] {
        let assign = recipe
            .assignments
            .iter()
            .find(|a| a.tensor_name == name)
            .unwrap();
        assert_eq!(assign.quant_type, QuantType::BF16);
    }
}

#[test]
fn assigning_all_twice_changes_nothing_more() {
    let mut once = RecipeState::new("test.gguf".into(), make_tensors(), QuantType::BF16);
    once.assign_all(QuantType::Q6_K);
    let mut twice = once.clone();
    twice.assign_all(QuantType::Q6_K);
    for name in make_tensors() {
        assert_eq!(quant_of(&once, &name), quant_of(&twice, &name));
    }
}

#[test]
fn float_bulk_assignment_reaches_runtime_tensors_too() {
    let mut recipe = RecipeState::new("test.gguf".into(), make_tensors(), QuantType::Q4_K_M);
    recipe.assign_all(QuantType::F16);
    assert_eq!(quant_of(&recipe, "output_norm.weight"), QuantType::F16);
    assert_eq!(quant_of(&recipe, "output.weight"), QuantType::F16);
}

#[test]
fn preflight_limits_bulk_assignment() {
    let mut recipe = RecipeState::new("test.gguf".into(), make_tensors(), QuantType::BF16);
    let allowed = vec![
        ("blk.0.attn_q.weight".to_string(), vec!["Q8_0".to_string(), "Q6_K".to_string()]),
        ("output.weight".to_string(), vec!["Q4_K".to_string()]),
    ];
    assert!(allows_target(&allowed, "blk.0.attn_q.weight", &QuantType::Q6_K));
    assert!(!allows_target(&allowed, "output.weight", &QuantType::Q6_K));
    recipe.assign_all_with_preflight(QuantType::Q6_K, &allowed);
    assert_eq!(quant_of(&recipe, "blk.0.attn_q.weight"), QuantType::Q6_K);
    assert_eq!(quant_of(&recipe, "output.weight"), QuantType::BF16);
    recipe.assign_by_pattern_with_preflight("all_attn", QuantType::Q8_0, &allowed);
    assert_eq!(quant_of(&recipe, "blk.0.attn_q.weight"), QuantType::Q8_0);
    assert_eq!(quant_of(&recipe, "layers.0.attention.wq.weight"), QuantType::BF16);
}

#[test]
fn recipe_ids_are_decimal_times() {
    let recipe = RecipeState::new("m.gguf".into(), make_tensors(), QuantType::Q4_K_M);
    assert!(!recipe.id.is_empty());
    assert!(recipe.id.parse::<i64>().unwrap() > 0);
    assert_eq!(recipe.status, RecipeStatus::Draft);
    assert!(recipe.profile.is_none());
}

#[test]
fn quant_names_read_back() {
    for q in [
        QuantType::F32,
        QuantType::BF16,
        QuantType::F16,
        QuantType::Q8_0,
        QuantType::Q6_K,
        QuantType::Q5_K,
        QuantType::Q5_K_M,
        QuantType::Q5_1,
        QuantType::Q5_0,
        QuantType::Q4_K,
        QuantType::Q4_K_M,
        QuantType::Q4_1,
        QuantType::Q4_0,
        QuantType::Q3_K,
        QuantType::Q3_K_M,
        QuantType::Q2_K,
    ] {
        assert_eq!(quant_type_from_name(quant_type_name(&q)), Some(q));
    }
    assert_eq!(parse_quant_type("Q5_K_M").unwrap(), QuantType::Q5_K_M);
    assert_eq!(parse_quant_type("Q9").unwrap_err(), "Unknown quant type: Q9");
    assert_eq!(parse_default_quant("IQ2_XS"), QuantType::Q4_K_M);
    assert_eq!(parse_default_quant("Q2_K"), QuantType::Q2_K);
}

#[test]
fn bits_per_weight_in_tenths() {
    assert_eq!(QuantType::F16.bits_per_weight_tenths(), 160);
    assert_eq!(QuantType::Q8_0.bits_per_weight_tenths(), 80);
    assert_eq!(QuantType::Q4_K_M.bits_per_weight_tenths(), 48);
    assert_eq!(QuantType::Q2_K.bits_per_weight_tenths(), 26);
}

#[test]
fn recipe_targets_name_each_tensor_and_type() {
    let mut recipe = RecipeState::new("m.gguf".into(), vec!["a".into(), "b".into()], QuantType::Q4_K_M);
    recipe.assign_tensors(&["b".into()], QuantType::Q8_0);
    assert_eq!(
        recipe_targets(&recipe),
        vec![("a".to_string(), "Q4_K_M".to_string()), ("b".to_string(), "Q8_0".to_string())]
    );
}

#[test]
fn recipe_analysis_errors() {
    let mut a = MsRecipeAnalysis {
        tensor_count: 10,
        changed_count: 2,
        unsupported_count: 0,
        missing_count: 0,
        unknown_quant_count: 0,
        current_size_bytes: 100,
        estimated_target_size_bytes: 50,
    };
    assert!(validate_recipe_analysis(&a).is_ok());
    a.unsupported_count = 3;
    assert_eq!(
        validate_recipe_analysis(&a).unwrap_err(),
        "Recipe preflight found 3 unsupported tensor conversion(s). Phase 2 supports only F32/F16/BF16 to Q8_0."
    );
    a.missing_count = 1;
    a.unknown_quant_count = 2;
    assert_eq!(
        validate_recipe_analysis(&a).unwrap_err(),
        "Recipe preflight failed: 1 missing tensor(s), 2 unknown quant target(s)."
    );
}

fn info_with(tensors: Vec<(&str, &str)>) -> ModelInfo {
    ModelInfo {
        metadata: GgufMetadata {
            name: "m".to_string(),
            architecture: "llama".to_string(),
            total_params: 0,
            total_size_fp16: 0,
        },
        tensors: tensors
            .into_iter()
            .map(|(name, quant)| TensorInfo {
                name: name.to_string(),
                shape: vec![32, 32],
                current_quant: quant.to_string(),
                size_bytes: 0,
                layer_index: -1,
                layer_group: "other".to_string(),
                quant_preflight: TensorQuantPreflight::pending(),
            })
            .collect(),
        current_uniform_quant: "Q8_0".to_string(),
        total_size_bytes: 0,
    }
}

#[test]
fn opening_a_model_starts_a_recipe_from_its_current_types() {
    let info = info_with(vec![("a", "Q8_0"), ("b", "IQ2_XS"), ("c", "BF16")]);
    let recipe = recipe_for_model("m.gguf".to_string(), &info);
    assert_eq!(recipe.base_model, "m.gguf");
    assert_eq!(quant_of(&recipe, "a"), QuantType::Q8_0);
    assert_eq!(quant_of(&recipe, "b"), QuantType::Q4_K_M);
    assert_eq!(quant_of(&recipe, "c"), QuantType::BF16);
}

#[test]
fn tensor_previews_are_limited() {
    assert_eq!(tensor_preview_window(10, 20).unwrap(), (10, 20));
    assert_eq!(tensor_preview_window(64, 64).unwrap(), (64, 64));
    assert_eq!(tensor_preview_window(1000, 2).unwrap(), (128, 2));
    assert_eq!(
        tensor_preview_window(128, 128).unwrap_err(),
        "Tensor preview window is limited to 4096 values"
    );
}
