use model_surgery::quant::tensor_set::validate_recipe_tensors;

#[test]
fn accepts_exact_tensor_set_in_any_order() {
    let current = [
        "blk.0.attn_q.weight",
        "blk.0.attn_k.weight",
        "output.weight",
    ];
    let recipe = [
        "output.weight",
        "blk.0.attn_k.weight",
        "blk.0.attn_q.weight",
    ];

    assert!(validate_recipe_tensors(&current, &recipe).is_ok());
}

#[test]
fn rejects_recipe_missing_current_tensor() {
    let current = ["blk.0.attn_q.weight", "blk.0.attn_k.weight"];
    let recipe = ["blk.0.attn_q.weight"];

    let err = validate_recipe_tensors(&current, &recipe).unwrap_err();
    assert!(err.contains("missing from recipe: blk.0.attn_k.weight"));
}

#[test]
fn rejects_recipe_with_extra_tensor() {
    let current = ["blk.0.attn_q.weight"];
    let recipe = ["blk.0.attn_q.weight", "blk.99.attn_q.weight"];

    let err = validate_recipe_tensors(&current, &recipe).unwrap_err();
    assert!(err.contains("not in current model: blk.99.attn_q.weight"));
}

#[test]
fn rejects_duplicate_recipe_tensor_entries() {
    let current = ["blk.0.attn_q.weight"];
    let recipe = ["blk.0.attn_q.weight", "blk.0.attn_q.weight"];

    let err = validate_recipe_tensors(&current, &recipe).unwrap_err();
    assert!(err.contains("duplicate recipe tensor entries: 1"));
}

#[test]
fn same_names_in_another_order_are_the_same_set() {
    let a = ["b", "a", "c", "a"];
    let b = ["a", "a", "c", "b"];
    assert!(validate_recipe_tensors(&a, &b).is_ok());
    let fewer = ["a", "c", "b"];
    assert_eq!(
        validate_recipe_tensors(&fewer, &b).unwrap_err(),
        "Recipe does not match the currently opened model (duplicate recipe tensor entries: 1)"
    );
    let c = ["z", "y", "x"];
    let d = ["x", "z", "y"];
    assert!(validate_recipe_tensors(&c, &d).is_ok());
    assert!(validate_recipe_tensors(&d, &c).is_ok());
}

#[test]
fn lists_at_most_five_missing_names() {
    let current = ["a", "b", "c", "d", "e", "f", "g"];
    let recipe: [&str; 0] = [];
    let err = validate_recipe_tensors(&current, &recipe).unwrap_err();
    assert!(err.contains("missing from recipe: a, b, c, d, e"));
    assert!(!err.contains(", f"));
}
