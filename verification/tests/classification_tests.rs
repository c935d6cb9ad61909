use model_surgery::api::ModelInspectorApiStartup;
use model_surgery::gguf::reader::ggml_type_bits16;
use model_surgery::gguf::types::{GgufMetadata, ModelInfo, TensorInfo, TensorQuantPreflight};
use model_surgery::model::{loaded_allowed_target_quants, LoadedModel};
use model_surgery::quant::preflight::{
    bits_per_weight, blocked, family_allows, family_of_type, quant_family, QuantFamily,
};
use model_surgery::quant::recipe::{
    is_attention_tensor, is_embedding_tensor, is_ffn_tensor, is_quantized_target,
    is_runtime_quantizable_tensor, pattern_matches, should_bulk_assign, QuantType, RecipeState,
};
use model_surgery::quant::tensor_set::sort_names;

#[test]
fn ggml_type_sizes_in_sixteenths_of_a_bit() {
    assert_eq!(ggml_type_bits16(0), 512);
    assert_eq!(ggml_type_bits16(1), 256);
    assert_eq!(ggml_type_bits16(30), 256);
    assert_eq!(ggml_type_bits16(8), 128);
    assert_eq!(ggml_type_bits16(12), 72);
    assert_eq!(ggml_type_bits16(14), 105);
}

#[test]
fn quant_families_and_conversions() {
    assert_eq!(family_of_type(QuantType::BF16), QuantFamily::Full);
    assert_eq!(family_of_type(QuantType::Q8_0), QuantFamily::Q8);
    assert_eq!(family_of_type(QuantType::Q4_0), QuantFamily::Legacy);
    assert_eq!(family_of_type(QuantType::Q4_K_M), QuantFamily::K);
    assert_eq!(quant_family("Q5_1"), Some(QuantFamily::Legacy));
    assert_eq!(quant_family("nope"), None);
    assert!(family_allows(QuantFamily::Full, QuantFamily::K));
    assert!(!family_allows(QuantFamily::Full, QuantFamily::Legacy));
    assert!(!family_allows(QuantFamily::Q8, QuantFamily::Full));
    assert!(family_allows(QuantFamily::Legacy, QuantFamily::Legacy));
    assert!(!family_allows(QuantFamily::K, QuantFamily::Q8));
    assert_eq!(bits_per_weight("Q8_0"), Some(80));
    assert_eq!(bits_per_weight("F32"), Some(320));
    assert_eq!(bits_per_weight("Q9_X"), None);
    let b = blocked("shape is not a matrix");
    assert!(!b.can_quantize);
    assert!(b.allowed_target_quants.is_empty());
    assert_eq!(b.blocked_reason.as_deref(), Some("shape is not a matrix"));
}

#[test]
fn tensor_name_classes() {
    assert!(is_attention_tensor("blk.0.attn_q.weight"));
    assert!(is_attention_tensor("model.layers.0.self_attn.q_proj.weight"));
    assert!(!is_attention_tensor("blk.0.ffn_up.weight"));
    assert!(is_ffn_tensor("blk.0.ffn_up.weight"));
    assert!(is_ffn_tensor("model.layers.3.mlp.down_proj.weight"));
    assert!(!is_ffn_tensor("token_embd.weight"));
    assert!(is_embedding_tensor("token_embd.weight"));
    assert!(is_embedding_tensor("output.weight"));
    assert!(!is_embedding_tensor("blk.0.attn_k.weight"));
    assert!(pattern_matches("all_attn", "blk.1.attn_v.weight"));
    assert!(!pattern_matches("all_attn", "blk.1.ffn_gate.weight"));
    assert!(pattern_matches("all_ffn", "blk.1.ffn_gate.weight"));
    assert!(pattern_matches("all_embeddings", "token_embd.weight"));
    assert!(pattern_matches("anything else", "blk.1.ffn_gate.weight"));
}

#[test]
fn bulk_assignment_spares_runtime_tensors() {
    assert!(!is_runtime_quantizable_tensor("blk.0.attn_norm.weight"));
    assert!(!is_runtime_quantizable_tensor("blk.0.attn_q.bias"));
    assert!(!is_runtime_quantizable_tensor("rope_freqs.weight"));
    assert!(is_runtime_quantizable_tensor("blk.0.attn_q.weight"));
    assert!(is_quantized_target(&QuantType::Q4_K_M));
    assert!(!is_quantized_target(&QuantType::F16));
    assert!(!should_bulk_assign("blk.0.attn_norm.weight", &QuantType::Q8_0));
    assert!(should_bulk_assign("blk.0.attn_norm.weight", &QuantType::F32));
    assert!(should_bulk_assign("blk.0.attn_q.weight", &QuantType::Q8_0));
}

#[test]
fn sorts_tensor_names() {
    assert_eq!(sort_names(&["b", "a.2", "a.10", "a"]), vec!["a", "a.10", "a.2", "b"]);
    assert_eq!(sort_names(&[]), Vec::<&str>::new());
}

#[test]
fn recipe_from_current_quants_keeps_every_tensor() {
    let recipe = RecipeState::from_current_quants(
        "model.gguf".to_string(),
        vec![("a".to_string(), QuantType::BF16), ("b".to_string(), QuantType::Q8_0)],
    );
    assert_eq!(recipe.base_model, "model.gguf");
    assert_eq!(recipe.assignments.len(), 2);
    assert_eq!(recipe.assignments[0].tensor_name, "a");
    assert_eq!(recipe.assignments[0].quant_type, QuantType::BF16);
    assert_eq!(recipe.assignments[1].tensor_name, "b");
    assert_eq!(recipe.assignments[1].quant_type, QuantType::Q8_0);
    assert!(recipe.profile.is_none());
}

#[test]
fn lists_what_each_loaded_tensor_may_become() {
    assert_eq!(loaded_allowed_target_quants(None), Err("No model loaded".to_string()));
    let tensor = |name: &str, allowed: &[&str]| TensorInfo {
        name: name.to_string(),
        shape: vec![32, 32],
        current_quant: "BF16".to_string(),
        size_bytes: 0,
        layer_index: 0,
        layer_group: "attention".to_string(),
        quant_preflight: TensorQuantPreflight {
            can_quantize: !allowed.is_empty(),
            allowed_target_quants: allowed.iter().map(|s| s.to_string()).collect(),
            blocked_reason: None,
        },
    };
    let model = LoadedModel {
        path: "m.gguf".to_string(),
        info: ModelInfo {
            metadata: GgufMetadata {
                name: "m".to_string(),
                architecture: "llama".to_string(),
                total_params: 0,
                total_size_fp16: 0,
            },
            tensors: vec![tensor("w", &["Q8_0", "Q4_K_M"]), tensor("n", &[])],
            current_uniform_quant: "BF16".to_string(),
            total_size_bytes: 0,
        },
    };
    assert_eq!(
        loaded_allowed_target_quants(Some(&model)),
        Ok(vec![
            ("w".to_string(), vec!["Q8_0".to_string(), "Q4_K_M".to_string()]),
            ("n".to_string(), vec![]),
        ])
    );
}

#[test]
fn api_startups_are_told_apart_by_id() {
    assert!(ModelInspectorApiStartup::new(3).same_startup(&ModelInspectorApiStartup::new(3)));
    assert!(!ModelInspectorApiStartup::new(3).same_startup(&ModelInspectorApiStartup::new(4)));
}
