//! Byte-level reader for GGUF headers and tensor tables.

use vstd::prelude::*;

use crate::text::string_views;
use crate::gguf::types::{is_blocked_with, GgufMetadata, ModelInfo, TensorInfo, TensorQuantPreflight};
use crate::quant::preflight::{
    analyze_tensor_quant_preflight, family_of, preflight_block, preflight_targets, QuantFamily,
};
use crate::quant::recipe::QuantType;
use crate::text::{
    chars_of, contains_seq, decimal, first_pos, matches_at, parse_i32_range, parsed_integer,
    lossy_text, push_decimal, starts_with_seq, str_contains, str_eq, utf8_lossy,
};

verus! {

/// The group a tensor is shown under, from its name and layer index.
pub open spec fn tensor_group(name: Seq<char>, layer_index: int) -> Seq<char> {
    if contains_seq(name, "embed"@) || contains_seq(name, "tok_embd"@) || contains_seq(name, "token_embd"@) {
        "embedding"@
    } else if contains_seq(name, "output.weight"@) && layer_index == -1 {
        "output"@
    } else if contains_seq(name, "output_norm"@) || contains_seq(name, "final_norm"@) {
        "output_norm"@
    } else if contains_seq(name, "norm"@) && layer_index >= 0 {
        "norm"@
    } else if layer_index < 0 {
        "other"@
    } else {
        "attention"@
    }
}

/// The group a tensor is shown under, from its name and layer index.
pub fn classify_tensor(name: &str, layer_index: i32) -> (r: &'static str)
    ensures
        r@ == tensor_group(name@, layer_index as int),
{
    if str_contains(name, "embed") || str_contains(name, "tok_embd") || str_contains(name, "token_embd") {
        "embedding"
    } else if str_contains(name, "output.weight") && layer_index == -1 {
        "output"
    } else if str_contains(name, "output_norm") || str_contains(name, "final_norm") {
        "output_norm"
    } else if str_contains(name, "norm") && layer_index >= 0 {
        "norm"
    } else if layer_index < 0 {
        "other"
    } else {
        "attention"
    }
}

/// Embedding tensors, and only they, are shown as embeddings: a name that
/// mentions `embed`, `tok_embd` or `token_embd` is classified `embedding`
/// whatever its layer, and no other name is.
pub proof fn lemma_embedding_group(name: Seq<char>, layer_index: int)
    ensures
        (contains_seq(name, "token_embd"@) || contains_seq(name, "tok_embd"@) || contains_seq(name, "embed"@))
            <==> tensor_group(name, layer_index) == "embedding"@,
{
    reveal_strlit("embedding");
    reveal_strlit("output");
    reveal_strlit("output_norm");
    reveal_strlit("norm");
    reveal_strlit("other");
    reveal_strlit("attention");
    assert("embedding"@[0] != "attention"@[0]);
    assert("embedding"@ != "attention"@);
    assert("embedding"@.len() != "output"@.len());
    assert("embedding"@.len() != "output_norm"@.len());
    assert("embedding"@.len() != "norm"@.len());
    assert("embedding"@.len() != "other"@.len());
}

/// Groups follow layers: only tensors of a numbered layer are shown as
/// `norm` or `attention`, and only tensors outside the layers as `output`
/// or `other`; an `output` tensor is the output projection weight.
pub proof fn lemma_groups_follow_layers(name: Seq<char>, layer_index: int)
    ensures
        tensor_group(name, layer_index) == "norm"@ || tensor_group(name, layer_index) == "attention"@
            ==> layer_index >= 0,
        tensor_group(name, layer_index) == "output"@ || tensor_group(name, layer_index) == "other"@
            ==> layer_index < 0,
        tensor_group(name, layer_index) == "output"@ ==> contains_seq(name, "output.weight"@),
{
    reveal_strlit("embedding");
    reveal_strlit("output");
    reveal_strlit("output_norm");
    reveal_strlit("norm");
    reveal_strlit("other");
    reveal_strlit("attention");
    assert("embedding"@[0] != "attention"@[0]);
    assert("output"@[1] != "other"@[1]);
}

/// The layer number written after `prefix` and before the next `.`, when
/// `name` starts with `prefix` and that text reads as an `i32`.
pub open spec fn index_after(name: Seq<char>, prefix: Seq<char>) -> Option<i32> {
    if starts_with_seq(name, prefix) {
        let rest = name.skip(prefix.len() as int);
        let dot = first_pos(rest, '.');
        if 0 <= dot < rest.len() {
            match parsed_integer(rest.take(dot), true) {
                Some(x) => if i32::MIN <= x <= i32::MAX {
                    Some(x as i32)
                } else {
                    None
                },
                None => None,
            }
        } else {
            None
        }
    } else {
        None
    }
}

/// The layer a tensor belongs to: the number in a `layers.N.` or `blk.N.`
/// prefix, or -1.
pub open spec fn layer_index_of(name: Seq<char>) -> i32 {
    match index_after(name, "layers."@) {
        Some(i) => i,
        None => match index_after(name, "blk."@) {
            Some(i) => i,
            None => -1i32,
        },
    }
}

/// The layer number after `prefix`, as `index_after` describes it.
fn index_after_prefix(v: &Vec<char>, prefix: &str) -> (r: Option<i32>)
    ensures
        r == index_after(v@, prefix@),
{
    let p = chars_of(prefix);
    if !matches_at(v, &p, 0) {
        proof {
            if starts_with_seq(v@, prefix@) {
                assert(v@.subrange(0, p@.len() as int) == p@);
            }
        }
        return None;
    }
    let start = p.len();
    let ghost rest = v@.skip(start as int);
    let mut k = start;
    while k < v.len() && v[k] != '.'
        invariant
            start <= k <= v.len(),
            rest == v@.skip(start as int),
            forall|m: int| start <= m < k ==> v@[m] != '.',
        decreases v.len() - k,
    {
        k = k + 1;
    }
    proof {
        crate::text::lemma_first_pos_exact(rest, '.', k - start);
    }
    if k == v.len() {
        return None;
    }
    assert(rest.take(k - start) == v@.subrange(start as int, k as int));
    parse_i32_range(v, start, k)
}

/// The layer a tensor belongs to, as `layer_index_of` describes it.
pub fn extract_layer_index(name: &str) -> (r: i32)
    ensures
        r == layer_index_of(name@),
{
    let v = chars_of(name);
    match index_after_prefix(&v, "layers.") {
        Some(i) => i,
        None => match index_after_prefix(&v, "blk.") {
            Some(i) => i,
            None => -1,
        },
    }
}

/// The name GGUF tools print for the tensor type `t`.
pub open spec fn ggml_name(t: u32) -> Seq<char> {
    if t == 0 {
        "F32"@
    } else if t == 1 {
        "F16"@
    } else if t == 2 {
        "Q4_0"@
    } else if t == 3 {
        "Q4_1"@
    } else if t == 6 {
        "Q5_0"@
    } else if t == 7 {
        "Q5_1"@
    } else if t == 8 {
        "Q8_0"@
    } else if t == 9 {
        "Q8_1"@
    } else if t == 10 {
        "Q2_K"@
    } else if t == 11 {
        "Q3_K"@
    } else if t == 12 {
        "Q4_K"@
    } else if t == 13 {
        "Q5_K"@
    } else if t == 14 {
        "Q6_K"@
    } else if t == 15 {
        "Q8_K"@
    } else if t == 16 {
        "IQ2_XXS"@
    } else if t == 17 {
        "IQ2_XS"@
    } else if t == 18 {
        "IQ3_XXS"@
    } else if t == 19 {
        "IQ1_S"@
    } else if t == 20 {
        "IQ4_NL"@
    } else if t == 21 {
        "IQ3_S"@
    } else if t == 22 {
        "IQ2_S"@
    } else if t == 23 {
        "IQ4_XS"@
    } else if t == 24 {
        "I8"@
    } else if t == 25 {
        "I16"@
    } else if t == 26 {
        "I32"@
    } else if t == 27 {
        "I64"@
    } else if t == 28 {
        "F64"@
    } else if t == 29 {
        "IQ1_M"@
    } else if t == 30 {
        "BF16"@
    } else if t == 31 {
        "TQ1_0"@
    } else if t == 32 {
        "TQ2_0"@
    } else {
        "unknown"@
    }
}

/// The name GGUF tools print for the tensor type `t`.
pub fn ggml_type_name(t: u32) -> (r: &'static str)
    ensures
        r@ == ggml_name(t),
{
    if t == 0 {
        "F32"
    } else if t == 1 {
        "F16"
    } else if t == 2 {
        "Q4_0"
    } else if t == 3 {
        "Q4_1"
    } else if t == 6 {
        "Q5_0"
    } else if t == 7 {
        "Q5_1"
    } else if t == 8 {
        "Q8_0"
    } else if t == 9 {
        "Q8_1"
    } else if t == 10 {
        "Q2_K"
    } else if t == 11 {
        "Q3_K"
    } else if t == 12 {
        "Q4_K"
    } else if t == 13 {
        "Q5_K"
    } else if t == 14 {
        "Q6_K"
    } else if t == 15 {
        "Q8_K"
    } else if t == 16 {
        "IQ2_XXS"
    } else if t == 17 {
        "IQ2_XS"
    } else if t == 18 {
        "IQ3_XXS"
    } else if t == 19 {
        "IQ1_S"
    } else if t == 20 {
        "IQ4_NL"
    } else if t == 21 {
        "IQ3_S"
    } else if t == 22 {
        "IQ2_S"
    } else if t == 23 {
        "IQ4_XS"
    } else if t == 24 {
        "I8"
    } else if t == 25 {
        "I16"
    } else if t == 26 {
        "I32"
    } else if t == 27 {
        "I64"
    } else if t == 28 {
        "F64"
    } else if t == 29 {
        "IQ1_M"
    } else if t == 30 {
        "BF16"
    } else if t == 31 {
        "TQ1_0"
    } else if t == 32 {
        "TQ2_0"
    } else {
        "unknown"
    }
}

/// Bits per weight of the tensor type `t`, in sixteenths of a bit (2.5625
/// bits is 41); unknown types count as 16 bits.
pub open spec fn ggml_bits16(t: u32) -> nat {
    if t == 0 {
        512
    } else if t == 1 || t == 30 {
        256
    } else if t == 2 || t == 3 {
        64
    } else if t == 6 || t == 7 {
        80
    } else if t == 8 || t == 9 || t == 15 || t == 24 {
        128
    } else if t == 10 {
        41
    } else if t == 11 {
        55
    } else if t == 12 {
        72
    } else if t == 13 {
        88
    } else if t == 14 {
        105
    } else if t == 16 {
        33
    } else if t == 17 {
        37
    } else if t == 18 {
        49
    } else if t == 19 {
        25
    } else if t == 20 || t == 23 {
        72
    } else if t == 21 {
        55
    } else if t == 22 {
        41
    } else if t == 25 {
        256
    } else if t == 26 {
        512
    } else if t == 27 || t == 28 {
        1024
    } else if t == 29 {
        28
    } else if t == 31 {
        27
    } else if t == 32 {
        42
    } else {
        256
    }
}

/// The GGML type ids name the quantization types whose sizes they have:
/// wherever the name of a tensor type is that of a floating-point, Q8 or
/// K-family quantization type, that type's bits per weight (in tenths) is
/// the tensor type's size (in sixteenths of a bit) rounded to a tenth of a
/// bit. (The legacy 32-block types are sized at whole bits here.)
pub proof fn lemma_ggml_names_match_sizes(t: u32, q: QuantType)
    requires
        ggml_name(t) == q.name_spec(),
        family_of(q) != QuantFamily::Legacy,
    ensures
        16 * q.bits_tenths() <= 10 * ggml_bits16(t) + 6,
        10 * ggml_bits16(t) <= 16 * q.bits_tenths() + 6,
{
    let n = ggml_name(t);
    let m = q.name_spec();
    reveal_strlit("F32");
    reveal_strlit("F16");
    reveal_strlit("Q4_0");
    reveal_strlit("Q4_1");
    reveal_strlit("Q5_0");
    reveal_strlit("Q5_1");
    reveal_strlit("Q8_0");
    reveal_strlit("Q8_1");
    reveal_strlit("Q2_K");
    reveal_strlit("Q3_K");
    reveal_strlit("Q4_K");
    reveal_strlit("Q5_K");
    reveal_strlit("Q6_K");
    reveal_strlit("Q8_K");
    reveal_strlit("IQ2_XXS");
    reveal_strlit("IQ2_XS");
    reveal_strlit("IQ3_XXS");
    reveal_strlit("IQ1_S");
    reveal_strlit("IQ4_NL");
    reveal_strlit("IQ3_S");
    reveal_strlit("IQ2_S");
    reveal_strlit("IQ4_XS");
    reveal_strlit("I8");
    reveal_strlit("I16");
    reveal_strlit("I32");
    reveal_strlit("I64");
    reveal_strlit("F64");
    reveal_strlit("IQ1_M");
    reveal_strlit("BF16");
    reveal_strlit("TQ1_0");
    reveal_strlit("TQ2_0");
    reveal_strlit("unknown");
    reveal_strlit("Q5_K_M");
    reveal_strlit("Q4_K_M");
    reveal_strlit("Q3_K_M");
    assert(n.len() == m.len());
    assert(n[0] == m[0]);
    if n.len() > 1 {
        assert(n[1] == m[1]);
    }
    if n.len() > 2 {
        assert(n[2] == m[2]);
    }
    if n.len() > 3 {
        assert(n[3] == m[3]);
    }
}

/// Bits per weight of the tensor type `t`, in sixteenths of a bit.
pub fn ggml_type_bits16(t: u32) -> (r: u64)
    ensures
        r == ggml_bits16(t),
{
    if t == 0 {
        512
    } else if t == 1 || t == 30 {
        256
    } else if t == 2 || t == 3 {
        64
    } else if t == 6 || t == 7 {
        80
    } else if t == 8 || t == 9 || t == 15 || t == 24 {
        128
    } else if t == 10 {
        41
    } else if t == 11 {
        55
    } else if t == 12 {
        72
    } else if t == 13 {
        88
    } else if t == 14 {
        105
    } else if t == 16 {
        33
    } else if t == 17 {
        37
    } else if t == 18 {
        49
    } else if t == 19 {
        25
    } else if t == 20 || t == 23 {
        72
    } else if t == 21 {
        55
    } else if t == 22 {
        41
    } else if t == 25 {
        256
    } else if t == 26 {
        512
    } else if t == 27 || t == 28 {
        1024
    } else if t == 29 {
        28
    } else if t == 31 {
        27
    } else if t == 32 {
        42
    } else {
        256
    }
}

/// The number of bytes `elements` weights of type `t` take: the bit count
/// rounded up to whole bytes, capped at `u64::MAX`.
pub open spec fn tensor_bytes(elements: nat, t: u32) -> nat {
    let bits16 = elements * ggml_bits16(t);
    let bytes = (bits16 + 127) / 128;
    if bytes <= u64::MAX {
        bytes
    } else {
        u64::MAX as nat
    }
}

/// The number of bytes `elements` weights of type `t` take.
pub fn tensor_size_bytes(elements: u64, t: u32) -> (r: u64)
    ensures
        r == tensor_bytes(elements as nat, t),
{
    let b = ggml_type_bits16(t) as u128;
    let e = elements as u128;
    assert(e * b <= 0xFFFF_FFFF_FFFF_FFFF * 1024) by (nonlinear_arith)
        requires
            e <= 0xFFFF_FFFF_FFFF_FFFF,
            b <= 1024,
    ;
    let bytes = (e * b + 127) / 128;
    if bytes <= u64::MAX as u128 {
        bytes as u64
    } else {
        u64::MAX
    }
}

/// The product of `dims`, saturating at `u64::MAX`.
pub open spec fn saturating_product(dims: Seq<u64>) -> nat
    decreases dims.len(),
{
    if dims.len() == 0 {
        1
    } else {
        let p = saturating_product(dims.drop_last()) * (dims.last() as nat);
        if p <= u64::MAX {
            p
        } else {
            u64::MAX as nat
        }
    }
}

proof fn lemma_saturating_product_bound(dims: Seq<u64>)
    ensures
        saturating_product(dims) <= u64::MAX,
    decreases dims.len(),
{
    if dims.len() > 0 {
        lemma_saturating_product_bound(dims.drop_last());
    }
}

/// The number of weights of a tensor with dimensions `dims`, saturating at
/// `u64::MAX`.
pub fn element_count(dims: &Vec<u64>) -> (r: u64)
    ensures
        r == saturating_product(dims@),
{
    let mut acc: u64 = 1;
    let mut i: usize = 0;
    assert(dims@.take(0) =~= Seq::<u64>::empty());
    while i < dims.len()
        invariant
            i <= dims.len(),
            acc == saturating_product(dims@.take(i as int)),
        decreases dims.len() - i,
    {
        assert(dims@.take(i + 1).drop_last() == dims@.take(i as int));
        assert(dims@.take(i + 1).last() == dims@[i as int]);
        acc = match acc.checked_mul(dims[i]) {
            Some(p) => p,
            None => u64::MAX,
        };
        i = i + 1;
    }
    assert(dims@.take(dims.len() as int) == dims@);
    acc
}

/// Quantization names that are plain floating point.
pub open spec fn is_float_quant_name(q: Seq<char>) -> bool {
    q == "F32"@ || q == "F16"@ || q == "BF16"@
}

/// How many tensors of `ts` carry the non-float type name `q`.
pub open spec fn quant_occurrences(ts: Seq<TensorInfo>, q: Seq<char>) -> nat
    decreases ts.len(),
{
    if ts.len() == 0 {
        0
    } else {
        quant_occurrences(ts.drop_last(), q) + if ts.last().current_quant@ == q
            && !is_float_quant_name(q) {
            1nat
        } else {
            0nat
        }
    }
}

/// What the model's prevailing type may be reported as: a non-float type
/// that no other non-float type outnumbers; failing that, the first
/// tensor's type; failing that, `unknown`.
pub open spec fn is_prevailing_quant(ts: Seq<TensorInfo>, q: Seq<char>) -> bool {
    if exists|j: int| 0 <= j < ts.len() && !is_float_quant_name(#[trigger] ts[j].current_quant@) {
        &&& !is_float_quant_name(q)
        &&& exists|j: int| 0 <= j < ts.len() && #[trigger] ts[j].current_quant@ == q
        &&& forall|j: int|
            0 <= j < ts.len() ==> quant_occurrences(ts, #[trigger] ts[j].current_quant@)
                <= quant_occurrences(ts, q)
    } else if ts.len() > 0 {
        q == ts[0].current_quant@
    } else {
        q == "unknown"@
    }
}

/// Whether `q` names a plain floating-point type.
fn is_float_quant(q: &str) -> (r: bool)
    ensures
        r == is_float_quant_name(q@),
{
    str_eq(q, "F32") || str_eq(q, "F16") || str_eq(q, "BF16")
}

/// How many tensors of `ts` carry the non-float type name `q`.
fn count_quant(ts: &Vec<TensorInfo>, q: &str) -> (r: usize)
    ensures
        r == quant_occurrences(ts@, q@),
{
    let float = is_float_quant(q);
    let mut count: usize = 0;
    let mut i: usize = 0;
    assert(ts@.take(0) =~= Seq::<TensorInfo>::empty());
    while i < ts.len()
        invariant
            i <= ts.len(),
            float == is_float_quant_name(q@),
            count == quant_occurrences(ts@.take(i as int), q@),
            count <= i,
        decreases ts.len() - i,
    {
        assert(ts@.take(i + 1).drop_last() == ts@.take(i as int));
        assert(ts@.take(i + 1).last() == ts@[i as int]);
        if !float && str_eq(ts[i].current_quant.as_str(), q) {
            count = count + 1;
        }
        i = i + 1;
    }
    assert(ts@.take(ts.len() as int) == ts@);
    count
}

/// The model's prevailing quantization type, as `is_prevailing_quant`
/// describes it; among equally common types the first seen is taken.
pub fn most_common_quant(tensors: &Vec<TensorInfo>) -> (r: String)
    ensures
        is_prevailing_quant(tensors@, r@),
{
    let mut best: Option<(usize, usize)> = None;
    let mut i: usize = 0;
    while i < tensors.len()
        invariant
            i <= tensors.len(),
            match best {
                Some((b, c)) => {
                    &&& b < i
                    &&& !is_float_quant_name(tensors@[b as int].current_quant@)
                    &&& c == quant_occurrences(tensors@, tensors@[b as int].current_quant@)
                    &&& forall|j: int|
                        0 <= j < i ==> quant_occurrences(tensors@, #[trigger] tensors@[j].current_quant@) <= c
                },
                None => forall|j: int| 0 <= j < i ==> is_float_quant_name(#[trigger] tensors@[j].current_quant@),
            },
        decreases tensors.len() - i,
    {
        let q = tensors[i].current_quant.as_str();
        let c = count_quant(tensors, q);
        proof {
            lemma_float_quant_not_counted(tensors@, q@);
        }
        if !is_float_quant(q) {
            match best {
                Some((_, bc)) => {
                    if c > bc {
                        best = Some((i, c));
                    }
                },
                None => {
                    proof {
                        assert forall|j: int| 0 <= j < i implies quant_occurrences(
                            tensors@,
                            #[trigger] tensors@[j].current_quant@,
                        ) <= c by {
                            lemma_float_quant_not_counted(tensors@, tensors@[j].current_quant@);
                        }
                    }
                    best = Some((i, c));
                },
            }
        }
        i = i + 1;
    }
    match best {
        Some((b, _)) => tensors[b].current_quant.clone(),
        None => {
            if tensors.len() > 0 {
                tensors[0].current_quant.clone()
            } else {
                String::from_str("unknown")
            }
        },
    }
}

proof fn lemma_float_quant_not_counted(ts: Seq<TensorInfo>, q: Seq<char>)
    ensures
        is_float_quant_name(q) ==> quant_occurrences(ts, q) == 0,
    decreases ts.len(),
{
    if ts.len() > 0 {
        lemma_float_quant_not_counted(ts.drop_last(), q);
    }
}

/// Tensors in ascending layer order.
pub open spec fn sorted_by_layer(s: Seq<TensorInfo>) -> bool {
    forall|i: int, j: int| 0 <= i < j < s.len() ==> s[i].layer_index <= s[j].layer_index
}

/// Selects the tensors of layer `k`.
pub open spec fn in_layer(k: i32) -> spec_fn(TensorInfo) -> bool {
    |t: TensorInfo| t.layer_index == k
}

/// `out` is `input` stably sorted by layer: ascending layers, and the
/// tensors of each layer in their original order.
pub open spec fn is_stable_layer_sort(input: Seq<TensorInfo>, out: Seq<TensorInfo>) -> bool {
    &&& out.len() == input.len()
    &&& sorted_by_layer(out)
    &&& forall|k: i32| #[trigger] out.filter(in_layer(k)) == input.filter(in_layer(k))
}

pub(crate) proof fn lemma_filter_none<A>(s: Seq<A>, pred: spec_fn(A) -> bool)
    requires
        forall|i: int| 0 <= i < s.len() ==> !pred(#[trigger] s[i]),
    ensures
        s.filter(pred) == Seq::<A>::empty(),
    decreases s.len(),
{
    reveal(Seq::filter);
    if s.len() > 0 {
        lemma_filter_none(s.drop_last(), pred);
    }
}

pub(crate) proof fn lemma_filter_single<A>(x: A, pred: spec_fn(A) -> bool)
    ensures
        seq![x].filter(pred) == (if pred(x) { seq![x] } else { Seq::<A>::empty() }),
{
    reveal(Seq::filter);
    assert(seq![x].drop_last() =~= Seq::<A>::empty());
    assert(Seq::<A>::empty().filter(pred) =~= Seq::<A>::empty());
    assert(seq![x].last() == x);
    assert(Seq::<A>::empty().push(x) =~= seq![x]);
}

/// `tensors` stably sorted by layer index.
pub fn sort_by_layer(tensors: Vec<TensorInfo>) -> (r: Vec<TensorInfo>)
    ensures
        is_stable_layer_sort(tensors@, r@),
{
    let ghost input = tensors@;
    let n = tensors.len();
    assert(input.len() == n);
    let mut rest = tensors;
    let mut out: Vec<TensorInfo> = Vec::new();
    let mut done: usize = 0;
    proof {
        reveal(Seq::filter);
    }
    assert(input.take(0) =~= Seq::<TensorInfo>::empty());
    assert forall|k: i32| #[trigger] out@.filter(in_layer(k)) == input.take(0).filter(in_layer(k)) by {
        assert(out@ =~= Seq::<TensorInfo>::empty());
    }
    while rest.len() > 0
        invariant
            input.len() <= usize::MAX,
            done + rest@.len() == input.len(),
            rest@ == input.skip(done as int),
            out@.len() == done,
            sorted_by_layer(out@),
            forall|k: i32| #[trigger] out@.filter(in_layer(k)) == input.take(done as int).filter(in_layer(k)),
        decreases rest.len(),
    {
        let ghost before_rest = rest@;
        let x = rest.remove(0);
        assert(x == input[done as int]);
        assert(rest@ =~= input.skip(done + 1));
        let key = x.layer_index;
        let mut p: usize = 0;
        while p < out.len() && out[p].layer_index <= key
            invariant
                p <= out.len(),
                forall|m: int| 0 <= m < p ==> #[trigger] out@[m].layer_index <= key,
            decreases out.len() - p,
        {
            p = p + 1;
        }
        let ghost g = out@;
        proof {
            if p < g.len() {
                assert forall|m: int| p <= m < g.len() implies key < #[trigger] g[m].layer_index by {
                    if m > p {
                        assert(g[p as int].layer_index <= g[m].layer_index);
                    }
                }
            }
        }
        out.insert(p, x);
        proof {
            let g2 = out@;
            assert(g2 =~= g.take(p as int) + seq![x] + g.skip(p as int));
            assert(g =~= g.take(p as int) + g.skip(p as int));
            assert(input.take(done + 1) =~= input.take(done as int).push(x));
            assert forall|a: int, b: int| 0 <= a < b < g2.len() implies g2[a].layer_index <= g2[b].layer_index by {
                if b < p {
                    assert(g2[a] == g[a] && g2[b] == g[b]);
                } else if b == p {
                    assert(g2[a] == g[a]);
                } else if a < p {
                    assert(g2[a] == g[a] && g2[b] == g[b - 1]);
                } else if a == p {
                    assert(g2[b] == g[b - 1]);
                } else {
                    assert(g2[a] == g[a - 1] && g2[b] == g[b - 1]);
                }
            }
            assert forall|k: i32| #[trigger] g2.filter(in_layer(k)) == input.take(done + 1).filter(in_layer(k)) by {
                let pred = in_layer(k);
                Seq::filter_distributes_over_add(g.take(p as int) + seq![x], g.skip(p as int), pred);
                Seq::filter_distributes_over_add(g.take(p as int), seq![x], pred);
                Seq::filter_distributes_over_add(g.take(p as int), g.skip(p as int), pred);
                lemma_filter_single(x, pred);
                input.take(done as int).lemma_filter_push(x, pred);
                assert(g.filter(pred) == input.take(done as int).filter(pred));
                if k == key {
                    assert forall|m: int| 0 <= m < g.skip(p as int).len() implies !pred(#[trigger] g.skip(p as int)[m]) by {
                        assert(g.skip(p as int)[m] == g[p + m]);
                    }
                    lemma_filter_none(g.skip(p as int), pred);
                    assert(g.skip(p as int).filter(pred) =~= Seq::<TensorInfo>::empty());
                    assert(g.take(p as int).filter(pred) + g.skip(p as int).filter(pred) =~= g.take(p as int).filter(pred));
                } else {
                    assert(seq![x].filter(pred) =~= Seq::<TensorInfo>::empty());
                    assert(g.take(p as int).filter(pred) + Seq::<TensorInfo>::empty() =~= g.take(p as int).filter(pred));
                }
            }
        }
        done = done + 1;
    }
    assert(input.take(input.len() as int) == input);
    out
}

// ---------------------------------------------------------------------------
// Reading a file of which a prefix is at hand
// ---------------------------------------------------------------------------
//
// The reader sees the first `b.len()` bytes of a file that is `len` bytes
// long. Positions run from 0 to `len + 1`; a skip past the end of the file
// stops at `len + 1`, from where every read fails as the file has ended.

/// Why reading stopped.
#[derive(PartialEq, Eq, Structural, Clone, Copy, Debug)]
pub enum Stop {
    /// The file ends before the value does.
    End,
    /// The value lies beyond the bytes at hand, but within the file.
    More,
}

/// What a read from a partly loaded file yields: a value and the position
/// after it, or a reason to stop.
pub enum Fetch<T> {
    Got(T, int),
    Halt(Stop),
}

/// Whether `n` bytes at `pos` can be read from the bytes at hand.
pub open spec fn available(b: Seq<u8>, len: int, pos: int, n: int) -> Option<Stop> {
    if pos + n <= b.len() {
        None
    } else if pos + n <= len {
        Some(Stop::More)
    } else {
        Some(Stop::End)
    }
}

/// The position `k` bytes after `pos`, stopping one past the end.
pub open spec fn advance(len: int, pos: int, k: int) -> int {
    if pos + k <= len + 1 {
        pos + k
    } else {
        len + 1
    }
}

/// The little-endian `u32` at `pos`.
pub open spec fn le_u32(b: Seq<u8>, pos: int) -> u32 {
    (b[pos] + b[pos + 1] * 0x100 + b[pos + 2] * 0x1_0000 + b[pos + 3] * 0x100_0000) as u32
}

/// The little-endian `u64` at `pos`.
pub open spec fn le_u64(b: Seq<u8>, pos: int) -> u64 {
    (b[pos] + b[pos + 1] * 0x100 + b[pos + 2] * 0x1_0000 + b[pos + 3] * 0x100_0000 + b[pos + 4]
        * 0x1_0000_0000 + b[pos + 5] * 0x100_0000_0000 + b[pos + 6] * 0x1_0000_0000_0000 + b[pos
        + 7] * 0x100_0000_0000_0000) as u64
}

/// Reads a little-endian `u32` at `pos`.
pub open spec fn fetch_u32(b: Seq<u8>, len: int, pos: int) -> Fetch<u32> {
    match available(b, len, pos, 4) {
        None => Fetch::Got(le_u32(b, pos), pos + 4),
        Some(stop) => Fetch::Halt(stop),
    }
}

/// Reads a little-endian `u64` at `pos`.
pub open spec fn fetch_u64(b: Seq<u8>, len: int, pos: int) -> Fetch<u64> {
    match available(b, len, pos, 8) {
        None => Fetch::Got(le_u64(b, pos), pos + 8),
        Some(stop) => Fetch::Halt(stop),
    }
}

/// Reads a GGUF string at `pos`: a `u64` length, then that many bytes.
pub open spec fn fetch_bytes(b: Seq<u8>, len: int, pos: int) -> Fetch<Seq<u8>> {
    match fetch_u64(b, len, pos) {
        Fetch::Got(n, p) => match available(b, len, p, n as int) {
            None => Fetch::Got(b.subrange(p, p + n), p + n),
            Some(stop) => Fetch::Halt(stop),
        },
        Fetch::Halt(stop) => Fetch::Halt(stop),
    }
}

/// The size in bytes of a fixed-size GGUF value type; zero for strings,
/// arrays and unknown types.
pub open spec fn fixed_size(t: u32) -> int {
    if t == 0 || t == 1 || t == 7 {
        1
    } else if t == 2 || t == 3 {
        2
    } else if t == 4 || t == 5 || t == 6 {
        4
    } else if t == 10 || t == 11 || t == 12 {
        8
    } else {
        0
    }
}

/// Skips one metadata value of type `t` at `pos`. Fixed-size values are
/// stepped over without being read; unknown types take no room.
pub open spec fn skip_value(b: Seq<u8>, len: int, pos: int, t: u32) -> Fetch<()>
    decreases len + 1 - pos, 0int, 0int,
{
    if t == 8 {
        match fetch_bytes(b, len, pos) {
            Fetch::Got(_, p) => Fetch::Got((), p),
            Fetch::Halt(stop) => Fetch::Halt(stop),
        }
    } else if t == 9 {
        match fetch_u32(b, len, pos) {
            Fetch::Got(et, p1) => match fetch_u64(b, len, p1) {
                Fetch::Got(count, p2) => if pos < p2 <= len + 1 {
                    skip_elems(b, len, p2, et, count as nat)
                } else {
                    Fetch::Halt(Stop::End)
                },
                Fetch::Halt(stop) => Fetch::Halt(stop),
            },
            Fetch::Halt(stop) => Fetch::Halt(stop),
        }
    } else {
        Fetch::Got((), advance(len, pos, fixed_size(t)))
    }
}

/// Skips `count` array elements of type `t` at `pos`.
pub open spec fn skip_elems(b: Seq<u8>, len: int, pos: int, t: u32, count: nat) -> Fetch<()>
    decreases len + 1 - pos, 1int, count,
{
    if count == 0 {
        Fetch::Got((), pos)
    } else if t != 8 && t != 9 {
        Fetch::Got((), advance(len, pos, count * fixed_size(t)))
    } else {
        match skip_value(b, len, pos, t) {
            Fetch::Got(_, p) => if pos < p <= len + 1 {
                skip_elems(b, len, p, t, (count - 1) as nat)
            } else {
                Fetch::Halt(Stop::End)
            },
            Fetch::Halt(stop) => Fetch::Halt(stop),
        }
    }
}

/// The bytes at hand and the file length are consistent, and `pos` is a
/// reader position.
pub open spec fn reader_ok(b: Seq<u8>, len: int, pos: int) -> bool {
    b.len() <= len <= u64::MAX && 0 <= pos <= len + 1
}

/// The exec result `r` is the spec fetch `f`, with values compared by `eq`.
pub open spec fn fetched<T, U>(r: Result<(T, u128), Stop>, f: Fetch<U>, eq: spec_fn(T, U) -> bool) -> bool {
    match f {
        Fetch::Got(v, p) => r matches Ok((x, q)) && eq(x, v) && q == p,
        Fetch::Halt(stop) => r == Err::<(T, u128), Stop>(stop),
    }
}

/// Whether `n` bytes at `pos` can be read from the bytes at hand.
fn check_available(b: &[u8], len: u64, pos: u128, n: u128) -> (r: Option<Stop>)
    requires
        n <= 0x1_0000_0000_0000_0000,
        reader_ok(b@, len as int, pos as int),
    ensures
        r == available(b@, len as int, pos as int, n as int),
{
    if pos + n <= b.len() as u128 {
        None
    } else if pos + n <= len as u128 {
        Some(Stop::More)
    } else {
        Some(Stop::End)
    }
}

/// Reads a little-endian `u32` at `pos`.
fn read_u32(b: &[u8], len: u64, pos: u128) -> (r: Result<(u32, u128), Stop>)
    requires
        reader_ok(b@, len as int, pos as int),
    ensures
        fetched(r, fetch_u32(b@, len as int, pos as int), |x: u32, y: u32| x == y),
{
    match check_available(b, len, pos, 4) {
        Some(stop) => Err(stop),
        None => {
            let i = pos as usize;
            let v = (b[i] as u64) + (b[i + 1] as u64) * 0x100 + (b[i + 2] as u64) * 0x1_0000 + (b[i
                + 3] as u64) * 0x100_0000;
            Ok((v as u32, pos + 4))
        },
    }
}

/// Reads a little-endian `u64` at `pos`.
fn read_u64(b: &[u8], len: u64, pos: u128) -> (r: Result<(u64, u128), Stop>)
    requires
        reader_ok(b@, len as int, pos as int),
    ensures
        fetched(r, fetch_u64(b@, len as int, pos as int), |x: u64, y: u64| x == y),
{
    match check_available(b, len, pos, 8) {
        Some(stop) => Err(stop),
        None => {
            let i = pos as usize;
            let v = (b[i] as u128) + (b[i + 1] as u128) * 0x100 + (b[i + 2] as u128) * 0x1_0000 + (b[i
                + 3] as u128) * 0x100_0000 + (b[i + 4] as u128) * 0x1_0000_0000 + (b[i + 5] as u128)
                * 0x100_0000_0000 + (b[i + 6] as u128) * 0x1_0000_0000_0000 + (b[i + 7] as u128)
                * 0x100_0000_0000_0000;
            Ok((v as u64, pos + 8))
        },
    }
}

/// Reads the extent of a GGUF string at `pos`: where its bytes start and
/// end.
fn read_string_extent(b: &[u8], len: u64, pos: u128) -> (r: Result<((usize, usize), u128), Stop>)
    requires
        reader_ok(b@, len as int, pos as int),
    ensures
        fetched(
            r,
            fetch_bytes(b@, len as int, pos as int),
            |x: (usize, usize), y: Seq<u8>| x.0 <= x.1 <= b@.len() && b@.subrange(x.0 as int, x.1 as int) == y,
        ),
        r matches Ok((_, q)) ==> reader_ok(b@, len as int, q as int),
{
    let blen = b.len();
    match read_u64(b, len, pos) {
        Err(stop) => Err(stop),
        Ok((n, p)) => match check_available(b, len, p, n as u128) {
            Some(stop) => Err(stop),
            None => Ok(((p as usize, (p + n as u128) as usize), p + n as u128)),
        },
    }
}

/// Skipping a value never moves backwards nor past one beyond the end;
/// skipping a string or an array always moves forwards.
pub proof fn lemma_skip_value_bounds(b: Seq<u8>, len: int, pos: int, t: u32)
    requires
        reader_ok(b, len, pos),
    ensures
        skip_value(b, len, pos, t) matches Fetch::Got(_, p) ==> pos <= p <= len + 1 && ((t == 8 || t
            == 9) ==> pos < p),
    decreases len + 1 - pos, 0int, 0int,
{
    if t == 9 {
        if let Fetch::Got(et, p1) = fetch_u32(b, len, pos) {
            if let Fetch::Got(count, p2) = fetch_u64(b, len, p1) {
                lemma_skip_elems_bounds(b, len, p2, et, count as nat);
            }
        }
    }
}

/// Skipping array elements never moves backwards nor past one beyond the
/// end.
pub proof fn lemma_skip_elems_bounds(b: Seq<u8>, len: int, pos: int, t: u32, count: nat)
    requires
        reader_ok(b, len, pos),
    ensures
        skip_elems(b, len, pos, t, count) matches Fetch::Got(_, p) ==> pos <= p <= len + 1,
    decreases len + 1 - pos, 1int, count,
{
    if count > 0 && (t == 8 || t == 9) {
        lemma_skip_value_bounds(b, len, pos, t);
        if let Fetch::Got(_, p) = skip_value(b, len, pos, t) {
            if pos < p <= len + 1 {
                lemma_skip_elems_bounds(b, len, p, t, (count - 1) as nat);
            }
        }
    }
}

/// The exec result `r` is the outcome of the spec skip `f`.
pub open spec fn skipped(r: Result<u128, Stop>, f: Fetch<()>) -> bool {
    match f {
        Fetch::Got(_, p) => r == Ok::<u128, Stop>(p as u128),
        Fetch::Halt(stop) => r == Err::<u128, Stop>(stop),
    }
}

/// The size in bytes of a fixed-size GGUF value type.
fn value_fixed_size(t: u32) -> (r: u128)
    ensures
        r == fixed_size(t),
{
    if t == 0 || t == 1 || t == 7 {
        1
    } else if t == 2 || t == 3 {
        2
    } else if t == 4 || t == 5 || t == 6 {
        4
    } else if t == 10 || t == 11 || t == 12 {
        8
    } else {
        0
    }
}

/// The position `k` bytes after `pos`, stopping one past the end.
fn advance_by(len: u64, pos: u128, k: u128) -> (r: u128)
    requires
        pos <= len as int + 1,
        k <= 0x10_0000_0000_0000_0000,
    ensures
        r == advance(len as int, pos as int, k as int),
{
    if pos + k <= len as u128 + 1 {
        pos + k
    } else {
        len as u128 + 1
    }
}

/// Skips one metadata value of type `t` at `pos`.
fn skip_value_at(b: &[u8], len: u64, pos: u128, t: u32) -> (r: Result<u128, Stop>)
    requires
        reader_ok(b@, len as int, pos as int),
    ensures
        skipped(r, skip_value(b@, len as int, pos as int, t)),
    decreases len + 1 - pos, 0int, 0int,
{
    if t == 8 {
        match read_string_extent(b, len, pos) {
            Ok((_, p)) => Ok(p),
            Err(stop) => Err(stop),
        }
    } else if t == 9 {
        match read_u32(b, len, pos) {
            Err(stop) => Err(stop),
            Ok((et, p1)) => match read_u64(b, len, p1) {
                Err(stop) => Err(stop),
                Ok((count, p2)) => skip_elems_at(b, len, p2, et, count),
            },
        }
    } else {
        Ok(advance_by(len, pos, value_fixed_size(t)))
    }
}

/// Skips `count` array elements of type `t` at `pos`.
fn skip_elems_at(b: &[u8], len: u64, pos: u128, t: u32, count: u64) -> (r: Result<u128, Stop>)
    requires
        reader_ok(b@, len as int, pos as int),
    ensures
        skipped(r, skip_elems(b@, len as int, pos as int, t, count as nat)),
    decreases len + 1 - pos, 1int, count,
{
    if count == 0 {
        return Ok(pos);
    }
    if t != 8 && t != 9 {
        let size = value_fixed_size(t);
        return Ok(advance_by(len, pos, (count as u128) * size));
    }
    let mut p = pos;
    let mut k: u64 = 0;
    while k < count
        invariant
            reader_ok(b@, len as int, p as int),
            pos <= p,
            t == 8 || t == 9,
            k <= count,
            skip_elems(b@, len as int, pos as int, t, count as nat) == skip_elems(
                b@,
                len as int,
                p as int,
                t,
                (count - k) as nat,
            ),
        decreases count - k,
    {
        proof {
            lemma_skip_value_bounds(b@, len as int, p as int, t);
        }
        match skip_value_at(b, len, p, t) {
            Err(stop) => {
                return Err(stop);
            },
            Ok(q) => {
                p = q;
            },
        }
        k = k + 1;
    }
    Ok(p)
}

// ---------------------------------------------------------------------------
// Metadata and tensor table
// ---------------------------------------------------------------------------

/// Reads one metadata entry at `pos`, keeping the model name and
/// architecture when the entry holds one of them.
pub open spec fn meta_entry(b: Seq<u8>, len: int, pos: int, name: Seq<char>, arch: Seq<char>) -> Fetch<
    (Seq<char>, Seq<char>),
> {
    match fetch_bytes(b, len, pos) {
        Fetch::Got(key_bytes, p1) => match fetch_u32(b, len, p1) {
            Fetch::Got(value_type, p2) => {
                let key = utf8_lossy(key_bytes);
                if key == "general.name"@ || key == "general.architecture"@ {
                    match fetch_bytes(b, len, p2) {
                        Fetch::Got(value, p3) => if key == "general.name"@ {
                            Fetch::Got((utf8_lossy(value), arch), p3)
                        } else {
                            Fetch::Got((name, utf8_lossy(value)), p3)
                        },
                        Fetch::Halt(stop) => Fetch::Halt(stop),
                    }
                } else {
                    match skip_value(b, len, p2, value_type) {
                        Fetch::Got(_, p3) => Fetch::Got((name, arch), p3),
                        Fetch::Halt(stop) => Fetch::Halt(stop),
                    }
                }
            },
            Fetch::Halt(stop) => Fetch::Halt(stop),
        },
        Fetch::Halt(stop) => Fetch::Halt(stop),
    }
}

/// Reads `n` metadata entries at `pos`: the model name and architecture
/// they give (empty where none does).
pub open spec fn meta_entries(b: Seq<u8>, len: int, pos: int, n: nat) -> Fetch<(Seq<char>, Seq<char>)>
    decreases n,
{
    if n == 0 {
        Fetch::Got((seq![], seq![]), pos)
    } else {
        match meta_entries(b, len, pos, (n - 1) as nat) {
            Fetch::Got((name, arch), p) => meta_entry(b, len, p, name, arch),
            Fetch::Halt(stop) => Fetch::Halt(stop),
        }
    }
}

/// One entry of the tensor table, as stored.
pub struct RawTensor {
    pub name: Seq<u8>,
    pub dims: Seq<u64>,
    pub ggml_type: u32,
}

/// Reads `n` dimensions at `pos`.
pub open spec fn fetch_dims(b: Seq<u8>, len: int, pos: int, n: nat) -> Fetch<Seq<u64>>
    decreases n,
{
    if n == 0 {
        Fetch::Got(seq![], pos)
    } else {
        match fetch_dims(b, len, pos, (n - 1) as nat) {
            Fetch::Got(dims, p) => match fetch_u64(b, len, p) {
                Fetch::Got(d, q) => Fetch::Got(dims.push(d), q),
                Fetch::Halt(stop) => Fetch::Halt(stop),
            },
            Fetch::Halt(stop) => Fetch::Halt(stop),
        }
    }
}

/// Reads one tensor table entry at `pos`: name, dimension count,
/// dimensions, type and data offset.
pub open spec fn tensor_entry(b: Seq<u8>, len: int, pos: int) -> Fetch<RawTensor> {
    match fetch_bytes(b, len, pos) {
        Fetch::Got(name, p1) => match fetch_u32(b, len, p1) {
            Fetch::Got(n_dims, p2) => match fetch_dims(b, len, p2, n_dims as nat) {
                Fetch::Got(dims, p3) => match fetch_u32(b, len, p3) {
                    Fetch::Got(t, p4) => match fetch_u64(b, len, p4) {
                        Fetch::Got(_, p5) => Fetch::Got(RawTensor { name, dims, ggml_type: t }, p5),
                        Fetch::Halt(stop) => Fetch::Halt(stop),
                    },
                    Fetch::Halt(stop) => Fetch::Halt(stop),
                },
                Fetch::Halt(stop) => Fetch::Halt(stop),
            },
            Fetch::Halt(stop) => Fetch::Halt(stop),
        },
        Fetch::Halt(stop) => Fetch::Halt(stop),
    }
}

/// Reads `n` tensor table entries at `pos`.
pub open spec fn tensor_entries(b: Seq<u8>, len: int, pos: int, n: nat) -> Fetch<Seq<RawTensor>>
    decreases n,
{
    if n == 0 {
        Fetch::Got(seq![], pos)
    } else {
        match tensor_entries(b, len, pos, (n - 1) as nat) {
            Fetch::Got(ts, p) => match tensor_entry(b, len, p) {
                Fetch::Got(t, q) => Fetch::Got(ts.push(t), q),
                Fetch::Halt(stop) => Fetch::Halt(stop),
            },
            Fetch::Halt(stop) => Fetch::Halt(stop),
        }
    }
}

/// The magic number that opens every GGUF file ("GGUF" read as a
/// little-endian `u32`).
pub const GGUF_MAGIC: u32 = 0x46554747;

/// What reading a GGUF header yields.
pub enum HeaderParse {
    Parsed { name: Seq<char>, arch: Seq<char>, tensors: Seq<RawTensor> },
    BadMagic,
    BadVersion(u32),
    Halted(Stop),
}

/// Reads the GGUF header of a file of `len` bytes of which `b` is at hand:
/// magic, version (2 or 3), counts, metadata and tensor table.
pub open spec fn parse_header(b: Seq<u8>, len: int) -> HeaderParse {
    match fetch_u32(b, len, 0) {
        Fetch::Got(magic, p1) => if magic != GGUF_MAGIC {
            HeaderParse::BadMagic
        } else {
            match fetch_u32(b, len, p1) {
                Fetch::Got(version, p2) => if version != 3 && version != 2 {
                    HeaderParse::BadVersion(version)
                } else {
                    match fetch_u64(b, len, p2) {
                        Fetch::Got(tensor_count, p3) => match fetch_u64(b, len, p3) {
                            Fetch::Got(kv_count, p4) => match meta_entries(b, len, p4, kv_count as nat) {
                                Fetch::Got((name, arch), p5) => match tensor_entries(
                                    b,
                                    len,
                                    p5,
                                    tensor_count as nat,
                                ) {
                                    Fetch::Got(tensors, _) => HeaderParse::Parsed { name, arch, tensors },
                                    Fetch::Halt(stop) => HeaderParse::Halted(stop),
                                },
                                Fetch::Halt(stop) => HeaderParse::Halted(stop),
                            },
                            Fetch::Halt(stop) => HeaderParse::Halted(stop),
                        },
                        Fetch::Halt(stop) => HeaderParse::Halted(stop),
                    }
                },
                Fetch::Halt(stop) => HeaderParse::Halted(stop),
            }
        },
        Fetch::Halt(stop) => HeaderParse::Halted(stop),
    }
}

/// The description of one tensor table entry.
pub open spec fn tensor_from_raw(t: TensorInfo, raw: RawTensor) -> bool {
    &&& t.name@ == utf8_lossy(raw.name)
    &&& t.shape@ == raw.dims
    &&& t.current_quant@ == ggml_name(raw.ggml_type)
    &&& t.size_bytes == tensor_bytes(saturating_product(raw.dims), raw.ggml_type)
    &&& t.layer_index == layer_index_of(t.name@)
    &&& t.layer_group@ == tensor_group(t.name@, t.layer_index as int)
    &&& match preflight_block(t) {
        Some(reason) => is_blocked_with(t.quant_preflight, reason),
        None => t.quant_preflight.can_quantize && string_views(
            t.quant_preflight.allowed_target_quants@,
        ) == preflight_targets(t) && t.quant_preflight.blocked_reason is None,
    }
}

/// The sum of `s`.
pub open spec fn sum_of(s: Seq<nat>) -> nat
    decreases s.len(),
{
    if s.len() == 0 {
        0
    } else {
        sum_of(s.drop_last()) + s.last()
    }
}

/// `x`, capped at `u64::MAX`.
pub open spec fn cap_u64(x: nat) -> nat {
    if x <= u64::MAX {
        x
    } else {
        u64::MAX as nat
    }
}

/// The model description a parsed header gives.
pub open spec fn describes_header(
    info: ModelInfo,
    name: Seq<char>,
    arch: Seq<char>,
    raws: Seq<RawTensor>,
) -> bool {
    &&& info.metadata.name@ == name
    &&& info.metadata.architecture@ == arch
    &&& info.metadata.total_params == cap_u64(
        sum_of(raws.map_values(|r: RawTensor| saturating_product(r.dims))),
    )
    &&& info.metadata.total_size_fp16 == cap_u64(2 * (info.metadata.total_params as nat))
    &&& exists|unsorted: Seq<TensorInfo>|
        #![trigger is_stable_layer_sort(unsorted, info.tensors@)]
        unsorted.len() == raws.len() && (forall|i: int|
            0 <= i < raws.len() ==> tensor_from_raw(#[trigger] unsorted[i], raws[i]))
            && is_stable_layer_sort(unsorted, info.tensors@)
    &&& is_prevailing_quant(info.tensors@, info.current_uniform_quant@)
    &&& info.total_size_bytes == cap_u64(
        sum_of(info.tensors@.map_values(|t: TensorInfo| t.size_bytes as nat)),
    )
}

/// The reasons a GGUF header cannot be read.
#[derive(Clone, Debug)]
pub enum GgufError {
    /// Reading the file failed; holds std's description of the failure.
    Io(String),
    /// The file does not start with the GGUF magic number.
    InvalidMagic,
    /// The file is a GGUF version other than 2 or 3.
    UnsupportedVersion(u32),
    /// The header runs past the bytes at hand: more of the file is needed.
    Incomplete,
}

/// std's description of a read that met the end of the file.
pub open spec fn eof_message() -> Seq<char> {
    "failed to fill whole buffer"@
}

impl GgufError {
    /// The message shown for the error.
    pub fn message(&self) -> (m: String)
        ensures
            match self {
                GgufError::Io(e) => m@ == "IO error: "@ + e@,
                GgufError::InvalidMagic => m@ == "Not a valid GGUF file"@,
                GgufError::UnsupportedVersion(v) => m@ == "Unsupported GGUF version: "@ + decimal(
                    *v as nat,
                ),
                GgufError::Incomplete => m@ == "IO error: "@ + eof_message(),
            },
    {
        match self {
            GgufError::Io(e) => {
                let mut m = String::from_str("IO error: ");
                m.append(e.as_str());
                m
            },
            GgufError::InvalidMagic => String::from_str("Not a valid GGUF file"),
            GgufError::UnsupportedVersion(v) => {
                let mut m = String::from_str("Unsupported GGUF version: ");
                push_decimal(&mut m, *v as u64);
                m
            },
            GgufError::Incomplete => {
                let mut m = String::from_str("IO error: ");
                m.append("failed to fill whole buffer");
                m
            },
        }
    }
}

/// The error a stopped read turns into.
fn stop_error(stop: Stop) -> (e: GgufError)
    ensures
        match stop {
            Stop::End => e matches GgufError::Io(m) && m@ == eof_message(),
            Stop::More => e matches GgufError::Incomplete,
        },
{
    match stop {
        Stop::End => GgufError::Io(String::from_str("failed to fill whole buffer")),
        Stop::More => GgufError::Incomplete,
    }
}

/// The metadata entries the reader keeps.
#[derive(PartialEq, Eq, Structural, Clone, Copy, Debug)]
pub enum MetadataKey {
    /// `general.name`, the model's name.
    Name,
    /// `general.architecture`, the model's architecture.
    Architecture,
    /// Any other key; its value is skipped.
    Other,
}

/// Which kept entry a metadata key names.
pub open spec fn metadata_key_of(key: Seq<char>) -> MetadataKey {
    if key == "general.name"@ {
        MetadataKey::Name
    } else if key == "general.architecture"@ {
        MetadataKey::Architecture
    } else {
        MetadataKey::Other
    }
}

/// Which kept entry a decoded metadata key names.
pub fn metadata_key_kind(key: &str) -> (r: MetadataKey)
    ensures
        r == metadata_key_of(key@),
{
    if str_eq(key, "general.name") {
        MetadataKey::Name
    } else if str_eq(key, "general.architecture") {
        MetadataKey::Architecture
    } else {
        MetadataKey::Other
    }
}

/// Reads one metadata entry at `pos`, as `meta_entry` describes it.
fn read_meta_entry(b: &[u8], len: u64, pos: u128, name: String, arch: String) -> (r: Result<
    (String, String, u128),
    Stop,
>)
    requires
        reader_ok(b@, len as int, pos as int),
    ensures
        match meta_entry(b@, len as int, pos as int, name@, arch@) {
            Fetch::Got((n, a), q) => r matches Ok((rn, ra, p)) && rn@ == n && ra@ == a && p == q
                && reader_ok(b@, len as int, p as int),
            Fetch::Halt(stop) => r == Err::<(String, String, u128), Stop>(stop),
        },
{
    let ((k0, k1), p1) = match read_string_extent(b, len, pos) {
        Ok(x) => x,
        Err(stop) => return Err(stop),
    };
    let (value_type, p2) = match read_u32(b, len, p1) {
        Ok(x) => x,
        Err(stop) => return Err(stop),
    };
    let key = lossy_text(b, k0, k1);
    let kind = metadata_key_kind(key.as_str());
    let is_name = kind == MetadataKey::Name;
    let is_arch = kind == MetadataKey::Architecture;
    if is_name || is_arch {
        let ((v0, v1), p3) = match read_string_extent(b, len, p2) {
            Ok(x) => x,
            Err(stop) => return Err(stop),
        };
        let value = lossy_text(b, v0, v1);
        if is_name {
            Ok((value, arch, p3))
        } else {
            Ok((name, value, p3))
        }
    } else {
        proof {
            lemma_skip_value_bounds(b@, len as int, p2 as int, value_type);
        }
        match skip_value_at(b, len, p2, value_type) {
            Ok(p3) => Ok((name, arch, p3)),
            Err(stop) => Err(stop),
        }
    }
}

/// Reads `n` metadata entries at `pos`, as `meta_entries` describes it.
fn read_metadata(b: &[u8], len: u64, pos: u128, n: u64) -> (r: Result<(String, String, u128), Stop>)
    requires
        reader_ok(b@, len as int, pos as int),
    ensures
        match meta_entries(b@, len as int, pos as int, n as nat) {
            Fetch::Got((name, arch), q) => r matches Ok((rn, ra, p)) && rn@ == name && ra@ == arch
                && p == q && reader_ok(b@, len as int, p as int),
            Fetch::Halt(stop) => r == Err::<(String, String, u128), Stop>(stop),
        },
{
    let mut name = String::new();
    let mut arch = String::new();
    let mut p = pos;
    let mut i: u64 = 0;
    while i < n
        invariant
            i <= n,
            reader_ok(b@, len as int, p as int),
            meta_entries(b@, len as int, pos as int, i as nat) == Fetch::Got((name@, arch@), p as int),
        decreases n - i,
    {
        match read_meta_entry(b, len, p, name, arch) {
            Ok((n2, a2, p2)) => {
                name = n2;
                arch = a2;
                p = p2;
            },
            Err(stop) => {
                proof {
                    lemma_meta_entries_halt(b@, len as int, pos as int, (i + 1) as nat, n as nat);
                }
                return Err(stop);
            },
        }
        i = i + 1;
    }
    Ok((name, arch, p))
}

proof fn lemma_meta_entries_halt(b: Seq<u8>, len: int, pos: int, i: nat, n: nat)
    requires
        i <= n,
        meta_entries(b, len, pos, i) is Halt,
    ensures
        meta_entries(b, len, pos, n) == meta_entries(b, len, pos, i),
    decreases n - i,
{
    if i < n {
        lemma_meta_entries_halt(b, len, pos, i, (n - 1) as nat);
    }
}

/// Reads `n` dimensions at `pos`, as `fetch_dims` describes it.
fn read_dims(b: &[u8], len: u64, pos: u128, n: u32) -> (r: Result<(Vec<u64>, u128), Stop>)
    requires
        reader_ok(b@, len as int, pos as int),
    ensures
        match fetch_dims(b@, len as int, pos as int, n as nat) {
            Fetch::Got(dims, q) => r matches Ok((v, p)) && v@ == dims && p == q && reader_ok(
                b@,
                len as int,
                p as int,
            ),
            Fetch::Halt(stop) => r == Err::<(Vec<u64>, u128), Stop>(stop),
        },
{
    let mut dims: Vec<u64> = Vec::new();
    let mut p = pos;
    let mut i: u32 = 0;
    while i < n
        invariant
            i <= n,
            reader_ok(b@, len as int, p as int),
            fetch_dims(b@, len as int, pos as int, i as nat) == Fetch::Got(dims@, p as int),
        decreases n - i,
    {
        match read_u64(b, len, p) {
            Ok((d, q)) => {
                dims.push(d);
                p = q;
            },
            Err(stop) => {
                proof {
                    lemma_fetch_dims_halt(b@, len as int, pos as int, (i + 1) as nat, n as nat);
                }
                return Err(stop);
            },
        }
        i = i + 1;
    }
    Ok((dims, p))
}

proof fn lemma_fetch_dims_halt(b: Seq<u8>, len: int, pos: int, i: nat, n: nat)
    requires
        i <= n,
        fetch_dims(b, len, pos, i) is Halt,
    ensures
        fetch_dims(b, len, pos, n) == fetch_dims(b, len, pos, i),
    decreases n - i,
{
    if i < n {
        lemma_fetch_dims_halt(b, len, pos, i, (n - 1) as nat);
    }
}

/// Describes a tensor from its decoded name, dimensions and type.
pub fn tensor_info(name: String, shape: Vec<u64>, ggml_type: u32) -> (t: TensorInfo)
    ensures
        t.name@ == name@,
        t.shape@ == shape@,
        t.current_quant@ == ggml_name(ggml_type),
        t.size_bytes == tensor_bytes(saturating_product(shape@), ggml_type),
        t.layer_index == layer_index_of(name@),
        t.layer_group@ == tensor_group(name@, t.layer_index as int),
        match preflight_block(t) {
            Some(reason) => is_blocked_with(t.quant_preflight, reason),
            None => t.quant_preflight.can_quantize && string_views(
                t.quant_preflight.allowed_target_quants@,
            ) == preflight_targets(t) && t.quant_preflight.blocked_reason is None,
        },
{
    let elements = element_count(&shape);
    let size_bytes = tensor_size_bytes(elements, ggml_type);
    let layer_index = extract_layer_index(name.as_str());
    let layer_group = String::from_str(classify_tensor(name.as_str(), layer_index));
    let current_quant = String::from_str(ggml_type_name(ggml_type));
    let mut t = TensorInfo {
        name,
        shape,
        current_quant,
        size_bytes,
        layer_index,
        layer_group,
        quant_preflight: TensorQuantPreflight::pending(),
    };
    let preflight = analyze_tensor_quant_preflight(&t);
    t.quant_preflight = preflight;
    t
}

/// Reads one tensor table entry at `pos`, as `tensor_entry` describes it.
fn read_tensor(b: &[u8], len: u64, pos: u128) -> (r: Result<(TensorInfo, u128), Stop>)
    requires
        reader_ok(b@, len as int, pos as int),
    ensures
        match tensor_entry(b@, len as int, pos as int) {
            Fetch::Got(raw, q) => r matches Ok((t, p)) && tensor_from_raw(t, raw) && p == q && reader_ok(
                b@,
                len as int,
                p as int,
            ),
            Fetch::Halt(stop) => r == Err::<(TensorInfo, u128), Stop>(stop),
        },
{
    let ((n0, n1), p1) = match read_string_extent(b, len, pos) {
        Ok(x) => x,
        Err(stop) => return Err(stop),
    };
    let (n_dims, p2) = match read_u32(b, len, p1) {
        Ok(x) => x,
        Err(stop) => return Err(stop),
    };
    let (shape, p3) = match read_dims(b, len, p2, n_dims) {
        Ok(x) => x,
        Err(stop) => return Err(stop),
    };
    let (ggml_type, p4) = match read_u32(b, len, p3) {
        Ok(x) => x,
        Err(stop) => return Err(stop),
    };
    let (_offset, p5) = match read_u64(b, len, p4) {
        Ok(x) => x,
        Err(stop) => return Err(stop),
    };
    let name = lossy_text(b, n0, n1);
    let t = tensor_info(name, shape, ggml_type);
    Ok((t, p5))
}

/// Reads `n` tensor table entries at `pos`, as `tensor_entries` describes
/// it.
fn read_tensors(b: &[u8], len: u64, pos: u128, n: u64) -> (r: Result<(Vec<TensorInfo>, u128), Stop>)
    requires
        reader_ok(b@, len as int, pos as int),
    ensures
        match tensor_entries(b@, len as int, pos as int, n as nat) {
            Fetch::Got(raws, q) => r matches Ok((v, p)) && v@.len() == raws.len() && (forall|i: int|
                0 <= i < raws.len() ==> tensor_from_raw(#[trigger] v@[i], raws[i])) && p == q,
            Fetch::Halt(stop) => r == Err::<(Vec<TensorInfo>, u128), Stop>(stop),
        },
{
    let mut out: Vec<TensorInfo> = Vec::new();
    let ghost mut raws: Seq<RawTensor> = seq![];
    let mut p = pos;
    let mut i: u64 = 0;
    while i < n
        invariant
            i <= n,
            reader_ok(b@, len as int, p as int),
            tensor_entries(b@, len as int, pos as int, i as nat) == Fetch::Got(raws, p as int),
            out@.len() == raws.len(),
            forall|k: int| 0 <= k < raws.len() ==> tensor_from_raw(#[trigger] out@[k], raws[k]),
        decreases n - i,
    {
        match read_tensor(b, len, p) {
            Ok((t, q)) => {
                let ghost raw = match tensor_entry(b@, len as int, p as int) {
                    Fetch::Got(x, _) => x,
                    Fetch::Halt(_) => raws[0],
                };
                let ghost before = out@;
                out.push(t);
                proof {
                    raws = raws.push(raw);
                    assert forall|k: int| 0 <= k < raws.len() implies tensor_from_raw(#[trigger] out@[k], raws[k]) by {
                        if k < before.len() {
                            assert(out@[k] == before[k]);
                        }
                    }
                }
                p = q;
            },
            Err(stop) => {
                proof {
                    lemma_tensor_entries_halt(b@, len as int, pos as int, (i + 1) as nat, n as nat);
                }
                return Err(stop);
            },
        }
        i = i + 1;
    }
    Ok((out, p))
}

proof fn lemma_tensor_entries_halt(b: Seq<u8>, len: int, pos: int, i: nat, n: nat)
    requires
        i <= n,
        tensor_entries(b, len, pos, i) is Halt,
    ensures
        tensor_entries(b, len, pos, n) == tensor_entries(b, len, pos, i),
    decreases n - i,
{
    if i < n {
        lemma_tensor_entries_halt(b, len, pos, i, (n - 1) as nat);
    }
}

proof fn lemma_cap_add(s: nat, x: nat)
    ensures
        cap_u64(cap_u64(s) + x) == cap_u64(s + x),
{
}

/// The element counts of a tensor list, summed and capped at `u64::MAX`.
fn total_elements(ts: &Vec<TensorInfo>) -> (r: u64)
    ensures
        r == cap_u64(sum_of(ts@.map_values(|t: TensorInfo| saturating_product(t.shape@)))),
{
    let ghost f = |t: TensorInfo| saturating_product(t.shape@);
    let mut acc: u64 = 0;
    let mut i: usize = 0;
    assert(ts@.take(0).map_values(f) =~= Seq::<nat>::empty());
    while i < ts.len()
        invariant
            i <= ts.len(),
            f == (|t: TensorInfo| saturating_product(t.shape@)),
            acc == cap_u64(sum_of(ts@.take(i as int).map_values(f))),
        decreases ts.len() - i,
    {
        let e = element_count(&ts[i].shape);
        let ghost prev = ts@.take(i as int).map_values(f);
        assert(ts@.take(i + 1).map_values(f) =~= prev.push(e as nat));
        assert(prev.push(e as nat).drop_last() =~= prev);
        proof {
            lemma_cap_add(sum_of(prev), e as nat);
        }
        acc = match acc.checked_add(e) {
            Some(x) => x,
            None => u64::MAX,
        };
        i = i + 1;
    }
    assert(ts@.take(ts.len() as int) == ts@);
    acc
}

/// The byte sizes of a tensor list, summed and capped at `u64::MAX`.
fn total_bytes(ts: &Vec<TensorInfo>) -> (r: u64)
    ensures
        r == cap_u64(sum_of(ts@.map_values(|t: TensorInfo| t.size_bytes as nat))),
{
    let ghost f = |t: TensorInfo| t.size_bytes as nat;
    let mut acc: u64 = 0;
    let mut i: usize = 0;
    assert(ts@.take(0).map_values(f) =~= Seq::<nat>::empty());
    while i < ts.len()
        invariant
            i <= ts.len(),
            f == (|t: TensorInfo| t.size_bytes as nat),
            acc == cap_u64(sum_of(ts@.take(i as int).map_values(f))),
        decreases ts.len() - i,
    {
        let e = ts[i].size_bytes;
        let ghost prev = ts@.take(i as int).map_values(f);
        assert(ts@.take(i + 1).map_values(f) =~= prev.push(e as nat));
        assert(prev.push(e as nat).drop_last() =~= prev);
        proof {
            lemma_cap_add(sum_of(prev), e as nat);
        }
        acc = match acc.checked_add(e) {
            Some(x) => x,
            None => u64::MAX,
        };
        i = i + 1;
    }
    assert(ts@.take(ts.len() as int) == ts@);
    acc
}

/// The outcome the spec parse gives, as the library reports it.
pub open spec fn parse_reported(r: Result<ModelInfo, GgufError>, h: HeaderParse) -> bool {
    match h {
        HeaderParse::Parsed { name, arch, tensors } => r matches Ok(info) && describes_header(
            info,
            name,
            arch,
            tensors,
        ),
        HeaderParse::BadMagic => r matches Err(GgufError::InvalidMagic),
        HeaderParse::BadVersion(v) => r matches Err(GgufError::UnsupportedVersion(w)) && w == v,
        HeaderParse::Halted(Stop::End) => r matches Err(GgufError::Io(m)) && m@ == eof_message(),
        HeaderParse::Halted(Stop::More) => r matches Err(GgufError::Incomplete),
    }
}

/// Reads the header of a GGUF file that is `file_len` bytes long, of which
/// `bytes` are the first: the model name and architecture, and every
/// tensor with its type, size, layer, group and quantization preflight,
/// sorted by layer.
pub fn parse_gguf(bytes: &[u8], file_len: u64) -> (r: Result<ModelInfo, GgufError>)
    requires
        bytes@.len() <= file_len,
    ensures
        parse_reported(r, parse_header(bytes@, file_len as int)),
{
    let len = file_len;
    let (magic, p1) = match read_u32(bytes, len, 0) {
        Ok(x) => x,
        Err(stop) => return Err(stop_error(stop)),
    };
    if magic != GGUF_MAGIC {
        return Err(GgufError::InvalidMagic);
    }
    let (version, p2) = match read_u32(bytes, len, p1) {
        Ok(x) => x,
        Err(stop) => return Err(stop_error(stop)),
    };
    if version != 3 && version != 2 {
        return Err(GgufError::UnsupportedVersion(version));
    }
    let (tensor_count, p3) = match read_u64(bytes, len, p2) {
        Ok(x) => x,
        Err(stop) => return Err(stop_error(stop)),
    };
    let (kv_count, p4) = match read_u64(bytes, len, p3) {
        Ok(x) => x,
        Err(stop) => return Err(stop_error(stop)),
    };
    let (model_name, architecture, p5) = match read_metadata(bytes, len, p4, kv_count) {
        Ok(x) => x,
        Err(stop) => return Err(stop_error(stop)),
    };
    let (unsorted, _) = match read_tensors(bytes, len, p5, tensor_count) {
        Ok(x) => x,
        Err(stop) => return Err(stop_error(stop)),
    };
    let ghost raws = match tensor_entries(bytes@, len as int, p5 as int, tensor_count as nat) {
        Fetch::Got(x, _) => x,
        Fetch::Halt(_) => seq![],
    };
    let total_params = total_elements(&unsorted);
    proof {
        assert(unsorted@.map_values(|t: TensorInfo| saturating_product(t.shape@)) =~= raws.map_values(
            |r: RawTensor| saturating_product(r.dims),
        ));
    }
    let ghost unsorted_view = unsorted@;
    let tensors = sort_by_layer(unsorted);
    let current_uniform_quant = most_common_quant(&tensors);
    let total_size_bytes = total_bytes(&tensors);
    let total_size_fp16 = match total_params.checked_mul(2) {
        Some(x) => x,
        None => u64::MAX,
    };
    let info = ModelInfo {
        metadata: GgufMetadata {
            name: model_name,
            architecture,
            total_params,
            total_size_fp16,
        },
        tensors,
        current_uniform_quant,
        total_size_bytes,
    };
    assert(is_stable_layer_sort(unsorted_view, info.tensors@));
    Ok(info)
}

// ---------------------------------------------------------------------------
// Laws of the reader
// ---------------------------------------------------------------------------

/// The read did not stop for want of bytes at hand.
pub open spec fn settled<T>(f: Fetch<T>) -> bool {
    !(f matches Fetch::Halt(Stop::More))
}

proof fn lemma_skip_value_whole(b: Seq<u8>, pos: int, t: u32)
    requires
        reader_ok(b, b.len() as int, pos),
    ensures
        settled(skip_value(b, b.len() as int, pos, t)),
    decreases b.len() + 1 - pos, 0int, 0int,
{
    let len = b.len() as int;
    if t == 9 {
        if let Fetch::Got(et, p1) = fetch_u32(b, len, pos) {
            if let Fetch::Got(count, p2) = fetch_u64(b, len, p1) {
                if pos < p2 <= len + 1 {
                    lemma_skip_elems_whole(b, p2, et, count as nat);
                }
            }
        }
    }
}

proof fn lemma_skip_elems_whole(b: Seq<u8>, pos: int, t: u32, count: nat)
    requires
        reader_ok(b, b.len() as int, pos),
    ensures
        settled(skip_elems(b, b.len() as int, pos, t, count)),
    decreases b.len() + 1 - pos, 1int, count,
{
    let len = b.len() as int;
    if count > 0 && (t == 8 || t == 9) {
        lemma_skip_value_whole(b, pos, t);
        if let Fetch::Got(_, p) = skip_value(b, len, pos, t) {
            if pos < p <= len + 1 {
                lemma_skip_elems_whole(b, p, t, (count - 1) as nat);
            }
        }
    }
}

proof fn lemma_meta_entries_whole(b: Seq<u8>, pos: int, n: nat)
    requires
        reader_ok(b, b.len() as int, pos),
    ensures
        settled(meta_entries(b, b.len() as int, pos, n)),
        meta_entries(b, b.len() as int, pos, n) matches Fetch::Got(_, p) ==> reader_ok(
            b,
            b.len() as int,
            p,
        ),
    decreases n,
{
    let len = b.len() as int;
    if n > 0 {
        lemma_meta_entries_whole(b, pos, (n - 1) as nat);
        if let Fetch::Got((name, arch), p) = meta_entries(b, len, pos, (n - 1) as nat) {
            if let Fetch::Got(key, p1) = fetch_bytes(b, len, p) {
                if let Fetch::Got(vt, p2) = fetch_u32(b, len, p1) {
                    lemma_skip_value_whole(b, p2, vt);
                    lemma_skip_value_bounds(b, len, p2, vt);
                }
            }
        }
    }
}

proof fn lemma_fetch_dims_whole(b: Seq<u8>, pos: int, n: nat)
    requires
        reader_ok(b, b.len() as int, pos),
    ensures
        settled(fetch_dims(b, b.len() as int, pos, n)),
        fetch_dims(b, b.len() as int, pos, n) matches Fetch::Got(_, p) ==> reader_ok(
            b,
            b.len() as int,
            p,
        ),
    decreases n,
{
    if n > 0 {
        lemma_fetch_dims_whole(b, pos, (n - 1) as nat);
    }
}

proof fn lemma_tensor_entries_whole(b: Seq<u8>, pos: int, n: nat)
    requires
        reader_ok(b, b.len() as int, pos),
    ensures
        settled(tensor_entries(b, b.len() as int, pos, n)),
        tensor_entries(b, b.len() as int, pos, n) matches Fetch::Got(_, p) ==> reader_ok(
            b,
            b.len() as int,
            p,
        ),
    decreases n,
{
    let len = b.len() as int;
    if n > 0 {
        lemma_tensor_entries_whole(b, pos, (n - 1) as nat);
        if let Fetch::Got(ts, p) = tensor_entries(b, len, pos, (n - 1) as nat) {
            if let Fetch::Got(name, p1) = fetch_bytes(b, len, p) {
                if let Fetch::Got(n_dims, p2) = fetch_u32(b, len, p1) {
                    lemma_fetch_dims_whole(b, p2, n_dims as nat);
                }
            }
        }
    }
}

/// With the whole file at hand, reading its header never asks for more of
/// it.
pub proof fn lemma_whole_file_never_incomplete(b: Seq<u8>)
    requires
        b.len() <= u64::MAX,
    ensures
        !(parse_header(b, b.len() as int) matches HeaderParse::Halted(Stop::More)),
{
    let len = b.len() as int;
    if let Fetch::Got(magic, p1) = fetch_u32(b, len, 0) {
        if let Fetch::Got(version, p2) = fetch_u32(b, len, p1) {
            if let Fetch::Got(tc, p3) = fetch_u64(b, len, p2) {
                if let Fetch::Got(kc, p4) = fetch_u64(b, len, p3) {
                    lemma_meta_entries_whole(b, p4, kc as nat);
                    if let Fetch::Got(_, p5) = meta_entries(b, len, p4, kc as nat) {
                        lemma_tensor_entries_whole(b, p5, tc as nat);
                    }
                }
            }
        }
    }
}

/// `b2` holds the bytes of `b1` and perhaps more of the same file of `len`
/// bytes.
pub open spec fn extends(b1: Seq<u8>, b2: Seq<u8>, len: int) -> bool {
    &&& b1.len() <= b2.len() <= len
    &&& forall|k: int| 0 <= k < b1.len() ==> b2[k] == b1[k]
}

proof fn lemma_fetch_u32_stable(b1: Seq<u8>, b2: Seq<u8>, len: int, pos: int)
    requires
        extends(b1, b2, len),
        0 <= pos,
        settled(fetch_u32(b1, len, pos)),
    ensures
        fetch_u32(b2, len, pos) == fetch_u32(b1, len, pos),
{
    if pos + 4 <= b1.len() {
        assert(b2[pos] == b1[pos] && b2[pos + 1] == b1[pos + 1] && b2[pos + 2] == b1[pos + 2] && b2[pos
            + 3] == b1[pos + 3]);
    }
}

proof fn lemma_fetch_u64_stable(b1: Seq<u8>, b2: Seq<u8>, len: int, pos: int)
    requires
        extends(b1, b2, len),
        0 <= pos,
        settled(fetch_u64(b1, len, pos)),
    ensures
        fetch_u64(b2, len, pos) == fetch_u64(b1, len, pos),
{
    if pos + 8 <= b1.len() {
        assert(b2[pos] == b1[pos] && b2[pos + 1] == b1[pos + 1] && b2[pos + 2] == b1[pos + 2] && b2[pos
            + 3] == b1[pos + 3]);
        assert(b2[pos + 4] == b1[pos + 4] && b2[pos + 5] == b1[pos + 5] && b2[pos + 6] == b1[pos + 6]
            && b2[pos + 7] == b1[pos + 7]);
    }
}

proof fn lemma_fetch_bytes_stable(b1: Seq<u8>, b2: Seq<u8>, len: int, pos: int)
    requires
        extends(b1, b2, len),
        0 <= pos,
        settled(fetch_bytes(b1, len, pos)),
    ensures
        fetch_bytes(b2, len, pos) == fetch_bytes(b1, len, pos),
{
    lemma_fetch_u64_stable(b1, b2, len, pos);
    if let Fetch::Got(n, p) = fetch_u64(b1, len, pos) {
        if p + n <= b1.len() {
            assert(b2.subrange(p, p + n) =~= b1.subrange(p, p + n));
        }
    }
}

proof fn lemma_skip_value_stable(b1: Seq<u8>, b2: Seq<u8>, len: int, pos: int, t: u32)
    requires
        extends(b1, b2, len),
        0 <= pos,
        settled(skip_value(b1, len, pos, t)),
    ensures
        skip_value(b2, len, pos, t) == skip_value(b1, len, pos, t),
    decreases len + 1 - pos, 0int, 0int,
{
    if t == 8 {
        lemma_fetch_bytes_stable(b1, b2, len, pos);
    } else if t == 9 {
        lemma_fetch_u32_stable(b1, b2, len, pos);
        if let Fetch::Got(et, p1) = fetch_u32(b1, len, pos) {
            lemma_fetch_u64_stable(b1, b2, len, p1);
            if let Fetch::Got(count, p2) = fetch_u64(b1, len, p1) {
                if pos < p2 <= len + 1 {
                    lemma_skip_elems_stable(b1, b2, len, p2, et, count as nat);
                }
            }
        }
    }
}

proof fn lemma_skip_elems_stable(b1: Seq<u8>, b2: Seq<u8>, len: int, pos: int, t: u32, count: nat)
    requires
        extends(b1, b2, len),
        0 <= pos,
        settled(skip_elems(b1, len, pos, t, count)),
    ensures
        skip_elems(b2, len, pos, t, count) == skip_elems(b1, len, pos, t, count),
    decreases len + 1 - pos, 1int, count,
{
    if count > 0 && (t == 8 || t == 9) {
        lemma_skip_value_stable(b1, b2, len, pos, t);
        if let Fetch::Got(_, p) = skip_value(b1, len, pos, t) {
            if pos < p <= len + 1 {
                lemma_skip_elems_stable(b1, b2, len, p, t, (count - 1) as nat);
            }
        }
    }
}

proof fn lemma_meta_entry_stable(
    b1: Seq<u8>,
    b2: Seq<u8>,
    len: int,
    pos: int,
    name: Seq<char>,
    arch: Seq<char>,
)
    requires
        extends(b1, b2, len),
        reader_ok(b1, len, pos),
        settled(meta_entry(b1, len, pos, name, arch)),
    ensures
        meta_entry(b2, len, pos, name, arch) == meta_entry(b1, len, pos, name, arch),
        meta_entry(b1, len, pos, name, arch) matches Fetch::Got(_, p) ==> reader_ok(b1, len, p),
{
    lemma_fetch_bytes_stable(b1, b2, len, pos);
    if let Fetch::Got(key_bytes, p1) = fetch_bytes(b1, len, pos) {
        lemma_fetch_u32_stable(b1, b2, len, p1);
        if let Fetch::Got(vt, p2) = fetch_u32(b1, len, p1) {
            let key = utf8_lossy(key_bytes);
            if key == "general.name"@ || key == "general.architecture"@ {
                lemma_fetch_bytes_stable(b1, b2, len, p2);
            } else {
                lemma_skip_value_stable(b1, b2, len, p2, vt);
                lemma_skip_value_bounds(b1, len, p2, vt);
            }
        }
    }
}

proof fn lemma_meta_entries_stable(b1: Seq<u8>, b2: Seq<u8>, len: int, pos: int, n: nat)
    requires
        extends(b1, b2, len),
        reader_ok(b1, len, pos),
        settled(meta_entries(b1, len, pos, n)),
    ensures
        meta_entries(b2, len, pos, n) == meta_entries(b1, len, pos, n),
        meta_entries(b1, len, pos, n) matches Fetch::Got(_, p) ==> reader_ok(b1, len, p),
    decreases n,
{
    if n > 0 {
        let prev = meta_entries(b1, len, pos, (n - 1) as nat);
        lemma_meta_entries_stable(b1, b2, len, pos, (n - 1) as nat);
        if let Fetch::Got((name, arch), p) = prev {
            lemma_meta_entry_stable(b1, b2, len, p, name, arch);
        }
    }
}

proof fn lemma_fetch_dims_stable(b1: Seq<u8>, b2: Seq<u8>, len: int, pos: int, n: nat)
    requires
        extends(b1, b2, len),
        reader_ok(b1, len, pos),
        settled(fetch_dims(b1, len, pos, n)),
    ensures
        fetch_dims(b2, len, pos, n) == fetch_dims(b1, len, pos, n),
        fetch_dims(b1, len, pos, n) matches Fetch::Got(_, p) ==> reader_ok(b1, len, p),
    decreases n,
{
    if n > 0 {
        lemma_fetch_dims_stable(b1, b2, len, pos, (n - 1) as nat);
        if let Fetch::Got(dims, p) = fetch_dims(b1, len, pos, (n - 1) as nat) {
            lemma_fetch_u64_stable(b1, b2, len, p);
        }
    }
}

proof fn lemma_tensor_entry_stable(b1: Seq<u8>, b2: Seq<u8>, len: int, pos: int)
    requires
        extends(b1, b2, len),
        reader_ok(b1, len, pos),
        settled(tensor_entry(b1, len, pos)),
    ensures
        tensor_entry(b2, len, pos) == tensor_entry(b1, len, pos),
        tensor_entry(b1, len, pos) matches Fetch::Got(_, p) ==> reader_ok(b1, len, p),
{
    lemma_fetch_bytes_stable(b1, b2, len, pos);
    if let Fetch::Got(name, p1) = fetch_bytes(b1, len, pos) {
        lemma_fetch_u32_stable(b1, b2, len, p1);
        if let Fetch::Got(n_dims, p2) = fetch_u32(b1, len, p1) {
            lemma_fetch_dims_stable(b1, b2, len, p2, n_dims as nat);
            if let Fetch::Got(dims, p3) = fetch_dims(b1, len, p2, n_dims as nat) {
                lemma_fetch_u32_stable(b1, b2, len, p3);
                if let Fetch::Got(gt, p4) = fetch_u32(b1, len, p3) {
                    lemma_fetch_u64_stable(b1, b2, len, p4);
                }
            }
        }
    }
}

proof fn lemma_tensor_entries_stable(b1: Seq<u8>, b2: Seq<u8>, len: int, pos: int, n: nat)
    requires
        extends(b1, b2, len),
        reader_ok(b1, len, pos),
        settled(tensor_entries(b1, len, pos, n)),
    ensures
        tensor_entries(b2, len, pos, n) == tensor_entries(b1, len, pos, n),
        tensor_entries(b1, len, pos, n) matches Fetch::Got(_, p) ==> reader_ok(b1, len, p),
    decreases n,
{
    if n > 0 {
        lemma_tensor_entries_stable(b1, b2, len, pos, (n - 1) as nat);
        if let Fetch::Got(ts, p) = tensor_entries(b1, len, pos, (n - 1) as nat) {
            lemma_tensor_entry_stable(b1, b2, len, p);
        }
    }
}

/// Reading more of a file never changes a header read that did not stop
/// for want of bytes: if the header read from a prefix `b1` of a file of
/// `len` bytes did not ask for more of it, the read from any longer
/// prefix `b2` gives the same outcome.
pub proof fn lemma_settled_header_is_final(b1: Seq<u8>, b2: Seq<u8>, len: int)
    requires
        b1.is_prefix_of(b2),
        b2.len() <= len <= u64::MAX,
        !(parse_header(b1, len) matches HeaderParse::Halted(Stop::More)),
    ensures
        parse_header(b2, len) == parse_header(b1, len),
{
    assert forall|k: int| 0 <= k < b1.len() implies b2[k] == b1[k] by {
        assert(b2.subrange(0, b1.len() as int)[k] == b2[k]);
    }
    assert(extends(b1, b2, len));
    lemma_fetch_u32_stable(b1, b2, len, 0);
    if let Fetch::Got(magic, p1) = fetch_u32(b1, len, 0) {
        if magic == GGUF_MAGIC {
            lemma_fetch_u32_stable(b1, b2, len, p1);
            if let Fetch::Got(version, p2) = fetch_u32(b1, len, p1) {
                if version == 3 || version == 2 {
                    lemma_fetch_u64_stable(b1, b2, len, p2);
                    if let Fetch::Got(tc, p3) = fetch_u64(b1, len, p2) {
                        lemma_fetch_u64_stable(b1, b2, len, p3);
                        if let Fetch::Got(kc, p4) = fetch_u64(b1, len, p3) {
                            lemma_meta_entries_stable(b1, b2, len, p4, kc as nat);
                            if let Fetch::Got(_, p5) = meta_entries(b1, len, p4, kc as nat) {
                                lemma_tensor_entries_stable(b1, b2, len, p5, tc as nat);
                            }
                        }
                    }
                }
            }
        }
    }
}

} // verus!
