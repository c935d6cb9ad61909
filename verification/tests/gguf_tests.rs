use model_surgery::gguf::reader::{
    classify_tensor, element_count, extract_layer_index, ggml_type_name, most_common_quant,
    parse_gguf, sort_by_layer, tensor_size_bytes, GgufError,
};
use model_surgery::gguf::types::{TensorInfo, TensorQuantPreflight};
use model_surgery::gguf::reader::{metadata_key_kind, tensor_info, MetadataKey};

#[test]
fn test_classify_tensor() {
    assert_eq!(classify_tensor("tok_embeddings.weight", -1), "embedding");
    assert_eq!(
        classify_tensor("layers.0.attention.wq.weight", 0),
        "attention"
    );
    assert_eq!(classify_tensor("output_norm.weight", -1), "output_norm");
    assert_eq!(classify_tensor("output.weight", -1), "output");
}

#[test]
fn test_extract_layer_index() {
    assert_eq!(extract_layer_index("layers.0.attention.wq.weight"), 0);
    assert_eq!(extract_layer_index("layers.31.feed_forward.w3.weight"), 31);
    assert_eq!(extract_layer_index("tok_embeddings.weight"), -1);
}

#[test]
fn classifies_norms_and_other_tensors() {
    assert_eq!(classify_tensor("blk.3.attn_norm.weight", 3), "norm");
    assert_eq!(classify_tensor("rope_freqs.weight", -1), "other");
    assert_eq!(extract_layer_index("blk.12.ffn_up.weight"), 12);
    assert_eq!(extract_layer_index("blk.x.ffn_up.weight"), -1);
    assert_eq!(extract_layer_index("blk.7"), -1);
}

#[test]
fn names_and_sizes_ggml_types() {
    assert_eq!(ggml_type_name(0), "F32");
    assert_eq!(ggml_type_name(8), "Q8_0");
    assert_eq!(ggml_type_name(30), "BF16");
    assert_eq!(ggml_type_name(99), "unknown");
    assert_eq!(tensor_size_bytes(4096, 1), 8192);
    assert_eq!(tensor_size_bytes(4096, 12), 2304);
    assert_eq!(tensor_size_bytes(3, 10), 1);
    assert_eq!(tensor_size_bytes(u64::MAX, 28), u64::MAX);
    assert_eq!(element_count(&vec![64, 32]), 2048);
    assert_eq!(element_count(&vec![]), 1);
    assert_eq!(element_count(&vec![u64::MAX, 2]), u64::MAX);
}

fn tensor(name: &str, layer_index: i32, quant: &str) -> TensorInfo {
    TensorInfo {
        name: name.to_string(),
        shape: vec![32, 32],
        current_quant: quant.to_string(),
        size_bytes: 0,
        layer_index,
        layer_group: "other".to_string(),
        quant_preflight: TensorQuantPreflight::pending(),
    }
}

#[test]
fn sorts_tensors_by_layer_keeping_file_order_within_a_layer() {
    let sorted = sort_by_layer(vec![
        tensor("b", 1, "Q4_K"),
        tensor("a", -1, "F32"),
        tensor("c", 0, "Q4_K"),
        tensor("d", 1, "Q6_K"),
        tensor("e", 0, "Q6_K"),
    ]);
    let names: Vec<&str> = sorted.iter().map(|t| t.name.as_str()).collect();
    assert_eq!(names, vec!["a", "c", "e", "b", "d"]);
}

#[test]
fn prevailing_quant_ignores_float_types() {
    let ts = vec![
        tensor("a", 0, "F32"),
        tensor("b", 0, "F32"),
        tensor("c", 0, "Q4_K"),
        tensor("d", 0, "Q6_K"),
        tensor("e", 0, "Q6_K"),
    ];
    assert_eq!(most_common_quant(&ts), "Q6_K");
    assert_eq!(most_common_quant(&vec![tensor("a", 0, "BF16")]), "BF16");
    assert_eq!(most_common_quant(&vec![]), "unknown");
}

fn push_u32(b: &mut Vec<u8>, v: u32) {
    b.extend_from_slice(&v.to_le_bytes());
}

fn push_u64(b: &mut Vec<u8>, v: u64) {
    b.extend_from_slice(&v.to_le_bytes());
}

fn push_str(b: &mut Vec<u8>, s: &str) {
    push_u64(b, s.len() as u64);
    b.extend_from_slice(s.as_bytes());
}

fn tiny_gguf() -> Vec<u8> {
    let mut b = Vec::new();
    b.extend_from_slice(b"GGUF");
    push_u32(&mut b, 3);
    push_u64(&mut b, 2);
    push_u64(&mut b, 4);
    push_str(&mut b, "general.architecture");
    push_u32(&mut b, 8);
    push_str(&mut b, "llama");
    push_str(&mut b, "llama.block_count");
    push_u32(&mut b, 4);
    push_u32(&mut b, 1);
    push_str(&mut b, "tokenizer.ggml.tokens");
    push_u32(&mut b, 9);
    push_u32(&mut b, 8);
    push_u64(&mut b, 2);
    push_str(&mut b, "<s>");
    push_str(&mut b, "</s>");
    push_str(&mut b, "general.name");
    push_u32(&mut b, 8);
    push_str(&mut b, "tiny");
    push_str(&mut b, "blk.0.attn_q.weight");
    push_u32(&mut b, 2);
    push_u64(&mut b, 64);
    push_u64(&mut b, 64);
    push_u32(&mut b, 8);
    push_u64(&mut b, 0);
    push_str(&mut b, "output.weight");
    push_u32(&mut b, 2);
    push_u64(&mut b, 64);
    push_u64(&mut b, 32);
    push_u32(&mut b, 1);
    push_u64(&mut b, 8192);
    b
}

#[test]
fn parses_a_small_gguf_header() {
    let bytes = tiny_gguf();
    let info = parse_gguf(&bytes, bytes.len() as u64).unwrap();
    assert_eq!(info.metadata.name, "tiny");
    assert_eq!(info.metadata.architecture, "llama");
    assert_eq!(info.metadata.total_params, 6144);
    assert_eq!(info.metadata.total_size_fp16, 12288);
    assert_eq!(info.tensors.len(), 2);
    assert_eq!(info.tensors[0].name, "output.weight");
    assert_eq!(info.tensors[0].layer_index, -1);
    assert_eq!(info.tensors[0].layer_group, "output");
    assert_eq!(info.tensors[0].current_quant, "F16");
    assert_eq!(info.tensors[0].shape, vec![64, 32]);
    assert_eq!(info.tensors[0].size_bytes, 4096);
    assert_eq!(info.tensors[1].name, "blk.0.attn_q.weight");
    assert_eq!(info.tensors[1].layer_index, 0);
    assert_eq!(info.tensors[1].layer_group, "attention");
    assert_eq!(info.tensors[1].current_quant, "Q8_0");
    assert_eq!(info.tensors[1].size_bytes, 4096);
    assert!(info.tensors[1].quant_preflight.can_quantize);
    assert_eq!(info.current_uniform_quant, "Q8_0");
    assert_eq!(info.total_size_bytes, 8192);
}

#[test]
fn a_prefix_of_the_file_asks_for_more() {
    let bytes = tiny_gguf();
    let result = parse_gguf(&bytes[..40], bytes.len() as u64);
    assert!(matches!(result, Err(GgufError::Incomplete)));
}

#[test]
fn a_truncated_file_is_an_io_error() {
    let bytes = tiny_gguf();
    let cut = &bytes[..bytes.len() - 3];
    match parse_gguf(cut, cut.len() as u64) {
        Err(e) => assert_eq!(e.message(), "IO error: failed to fill whole buffer"),
        Ok(_) => panic!("expected an error"),
    }
}

#[test]
fn rejects_bad_magic_and_versions() {
    let mut bytes = tiny_gguf();
    bytes[0] = b'X';
    match parse_gguf(&bytes, bytes.len() as u64) {
        Err(e) => {
            assert!(matches!(e, GgufError::InvalidMagic));
            assert_eq!(e.message(), "Not a valid GGUF file");
        }
        Ok(_) => panic!("expected an error"),
    }
    let mut bytes = tiny_gguf();
    bytes[4] = 7;
    match parse_gguf(&bytes, bytes.len() as u64) {
        Err(e) => {
            assert!(matches!(e, GgufError::UnsupportedVersion(7)));
            assert_eq!(e.message(), "Unsupported GGUF version: 7");
        }
        Ok(_) => panic!("expected an error"),
    }
    let empty: [u8; 0] = [];
    assert!(matches!(parse_gguf(&empty, 0), Err(GgufError::Io(_))));
}

#[test]
fn model_names_are_decoded_lossily() {
    let mut bytes = tiny_gguf();
    let at = bytes.windows(4).position(|w| w == b"tiny").unwrap();
    bytes[at] = 0xFF;
    let info = parse_gguf(&bytes, bytes.len() as u64).unwrap();
    assert_eq!(info.metadata.name, "\u{FFFD}iny");
}

#[test]
fn metadata_keys_the_reader_keeps() {
    assert_eq!(metadata_key_kind("general.name"), MetadataKey::Name);
    assert_eq!(metadata_key_kind("general.architecture"), MetadataKey::Architecture);
    assert_eq!(metadata_key_kind("general.name "), MetadataKey::Other);
    assert_eq!(metadata_key_kind("llama.context_length"), MetadataKey::Other);
}

#[test]
fn describes_a_tensor_from_its_table_entry() {
    let t = tensor_info("blk.3.attn_q.weight".to_string(), vec![4096, 4096], 30);
    assert_eq!(t.name, "blk.3.attn_q.weight");
    assert_eq!(t.shape, vec![4096, 4096]);
    assert_eq!(t.current_quant, "BF16");
    assert_eq!(t.size_bytes, 4096 * 4096 * 2);
    assert_eq!(t.layer_index, 3);
    assert!(t.quant_preflight.can_quantize);
    assert!(t.quant_preflight.allowed_target_quants.contains(&"Q8_0".to_string()));
    let norm = tensor_info("blk.3.attn_norm.weight".to_string(), vec![4096], 0);
    assert!(!norm.quant_preflight.can_quantize);
}
