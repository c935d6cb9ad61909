//! Which quantization targets a tensor may be converted to.
//!
//! A tensor qualifies for conversion only when it is a real weight matrix
//! (two or more non-zero dimensions, not a bias, norm, rope or scale tensor),
//! its current type is known, and its rows fit whole `Q8_0` blocks. Each
//! direct target is then allowed when its family may be produced from the
//! source family, it does not raise the bits per weight of a quantized
//! target, and its block size divides the row width.

use vstd::prelude::*;

use crate::text::string_views;
use crate::gguf::types::{is_blocked_with, TensorInfo, TensorQuantPreflight};
use crate::quant::recipe::{
    lemma_quant_type_name_round_trip, quant_type_from_name, quant_type_named, QuantType,
};
use crate::text::{ascii_lower, ascii_lowercase, contains_seq, str_contains};

verus! {

/// The families that quantization types belong to.
#[derive(PartialEq, Eq, Structural, Clone, Copy, Debug)]
pub enum QuantFamily {
    Full,
    Q8,
    Legacy,
    K,
}

/// The family a quantization type belongs to.
pub open spec fn family_of(q: QuantType) -> QuantFamily {
    match q {
        QuantType::F32 | QuantType::BF16 | QuantType::F16 => QuantFamily::Full,
        QuantType::Q8_0 => QuantFamily::Q8,
        QuantType::Q5_1 | QuantType::Q5_0 | QuantType::Q4_1 | QuantType::Q4_0 => QuantFamily::Legacy,
        _ => QuantFamily::K,
    }
}

/// Bits per weight of the type a name denotes, in tenths of a bit.
pub open spec fn quant_bits_tenths(q: Seq<char>) -> Option<nat> {
    match quant_type_named(q) {
        Some(t) => Some(t.bits_tenths()),
        None => None,
    }
}

/// The family of the type a name denotes.
pub open spec fn quant_family_of(q: Seq<char>) -> Option<QuantFamily> {
    match quant_type_named(q) {
        Some(t) => Some(family_of(t)),
        None => None,
    }
}

/// Whether a tensor of the `source` family may be converted to `target`.
pub open spec fn family_allows_spec(source: QuantFamily, target: QuantFamily) -> bool {
    match source {
        QuantFamily::Full => target != QuantFamily::Legacy,
        QuantFamily::Q8 => target != QuantFamily::Full,
        QuantFamily::Legacy => target == QuantFamily::Legacy,
        QuantFamily::K => target == QuantFamily::K,
    }
}

/// The number of direct conversion targets.
pub const TARGET_COUNT: usize = 13;

/// Direct target `i`, in the order targets are offered.
pub open spec fn target_type(i: int) -> QuantType {
    if i == 0 {
        QuantType::F32
    } else if i == 1 {
        QuantType::BF16
    } else if i == 2 {
        QuantType::F16
    } else if i == 3 {
        QuantType::Q8_0
    } else if i == 4 {
        QuantType::Q6_K
    } else if i == 5 {
        QuantType::Q5_K
    } else if i == 6 {
        QuantType::Q5_1
    } else if i == 7 {
        QuantType::Q5_0
    } else if i == 8 {
        QuantType::Q4_K
    } else if i == 9 {
        QuantType::Q4_1
    } else if i == 10 {
        QuantType::Q4_0
    } else if i == 11 {
        QuantType::Q3_K
    } else {
        QuantType::Q2_K
    }
}

/// The name of direct target `i`.
pub open spec fn target_name(i: int) -> Seq<char> {
    target_type(i).name_spec()
}

/// The block size of direct target `i`; zero where it has none.
pub open spec fn target_block(i: int) -> nat {
    if i <= 2 {
        0
    } else if i == 3 || i == 6 || i == 7 || i == 9 || i == 10 {
        32
    } else {
        256
    }
}

/// Whether direct target `i` may be produced from a tensor of family
/// `source`, `bits` tenths of a bit per weight and row width `row`.
pub open spec fn target_fits(i: int, source: QuantFamily, bits: nat, row: nat) -> bool {
    let family = family_of(target_type(i));
    &&& family_allows_spec(source, family)
    &&& (family == QuantFamily::Full || target_type(i).bits_tenths() <= bits)
    &&& (target_block(i) == 0 || row % target_block(i) == 0)
}

/// The names of the first `n` direct targets that fit, in table order.
pub open spec fn fitting_targets(n: int, source: QuantFamily, bits: nat, row: nat) -> Seq<
    Seq<char>,
>
    decreases n,
{
    if n <= 0 {
        seq![]
    } else {
        let before = fitting_targets(n - 1, source, bits, row);
        if target_fits(n - 1, source, bits, row) {
            before.push(target_name(n - 1))
        } else {
            before
        }
    }
}

/// The table positions of the first `n` direct targets that fit, in
/// table order.
pub open spec fn fitting_indices(n: int, source: QuantFamily, bits: nat, row: nat) -> Seq<int>
    decreases n,
{
    if n <= 0 {
        seq![]
    } else {
        let before = fitting_indices(n - 1, source, bits, row);
        if target_fits(n - 1, source, bits, row) {
            before.push(n - 1)
        } else {
            before
        }
    }
}

proof fn lemma_target_names_distinct(i: int, j: int)
    requires
        0 <= i < j < TARGET_COUNT,
    ensures
        target_name(i) != target_name(j),
{
    lemma_quant_type_name_round_trip(target_type(i));
    lemma_quant_type_name_round_trip(target_type(j));
}

/// The fitting targets are the names of the fitting table positions, which
/// ascend and each fit.
proof fn lemma_fitting_targets_positions(n: int, source: QuantFamily, bits: nat, row: nat)
    requires
        0 <= n <= TARGET_COUNT,
    ensures
        fitting_targets(n, source, bits, row).len() == fitting_indices(n, source, bits, row).len(),
        forall|k: int| #![trigger fitting_indices(n, source, bits, row)[k]]
            0 <= k < fitting_indices(n, source, bits, row).len() ==> {
                let i = fitting_indices(n, source, bits, row)[k];
                &&& 0 <= i < n
                &&& target_fits(i, source, bits, row)
                &&& fitting_targets(n, source, bits, row)[k] == target_name(i)
            },
        forall|k1: int, k2: int|
            0 <= k1 < k2 < fitting_indices(n, source, bits, row).len() ==> fitting_indices(n, source, bits, row)[k1]
                < fitting_indices(n, source, bits, row)[k2],
    decreases n,
{
    if n > 0 {
        lemma_fitting_targets_positions(n - 1, source, bits, row);
    }
}

/// What a tensor may be converted to: distinct names, in the order of the
/// target table (F32, BF16, F16, Q8_0, Q6_K, Q5_K, Q5_1, Q5_0, Q4_K, Q4_1,
/// Q4_0, Q3_K, Q2_K), each of a family the tensor's family may become, each
/// block-quantized one with a block size (32 or 256) that divides the
/// tensor's row width, and each quantized one at no more bits per weight
/// than the tensor has now.
pub proof fn lemma_allowed_targets_follow_the_table(t: TensorInfo)
    requires
        preflight_block(t) is None,
    ensures
        ({
            let names = preflight_targets(t);
            let source = quant_family_of(t.current_quant@)->Some_0;
            let bits = quant_bits_tenths(t.current_quant@)->Some_0;
            let row = t.shape@[0] as nat;
            let positions = fitting_indices(TARGET_COUNT as int, source, bits, row);
            &&& names.len() == positions.len()
            &&& forall|k1: int, k2: int| 0 <= k1 < k2 < names.len() ==> positions[k1] < positions[k2] && names[k1]
                != names[k2]
            &&& forall|k: int| #![trigger positions[k]] 0 <= k < positions.len() ==> {
                let i = positions[k];
                &&& 0 <= i < TARGET_COUNT
                &&& names[k] == target_name(i)
                &&& family_allows_spec(source, family_of(target_type(i)))
                &&& (target_block(i) == 0 || row % target_block(i) == 0)
                &&& (family_of(target_type(i)) == QuantFamily::Full || target_type(i).bits_tenths() <= bits)
            }
        }),
{
    let source = quant_family_of(t.current_quant@)->Some_0;
    let bits = quant_bits_tenths(t.current_quant@)->Some_0;
    let row = t.shape@[0] as nat;
    let positions = fitting_indices(TARGET_COUNT as int, source, bits, row);
    let names = preflight_targets(t);
    lemma_fitting_targets_positions(TARGET_COUNT as int, source, bits, row);
    assert forall|k1: int, k2: int| 0 <= k1 < k2 < names.len() implies positions[k1] < positions[k2]
        && names[k1] != names[k2] by {
        let a = positions[k1];
        let b = positions[k2];
        lemma_target_names_distinct(a, b);
    }
}

proof fn lemma_fitting_targets_include(n: int, source: QuantFamily, bits: nat, row: nat, i: int)
    requires
        0 <= i < n,
        target_fits(i, source, bits, row),
    ensures
        fitting_targets(n, source, bits, row).contains(target_name(i)),
    decreases n,
{
    let before = fitting_targets(n - 1, source, bits, row);
    if i == n - 1 {
        assert(fitting_targets(n, source, bits, row) == before.push(target_name(i)));
        assert(before.push(target_name(i))[before.len() as int] == target_name(i));
    } else {
        lemma_fitting_targets_include(n - 1, source, bits, row, i);
        let k = choose|k: int| 0 <= k < before.len() && before[k] == target_name(i);
        if target_fits(n - 1, source, bits, row) {
            assert(before.push(target_name(n - 1))[k] == target_name(i));
        }
    }
}

/// A tensor stored as Q8_0 may be requantized to every quantized target
/// (one below 16 bits per weight) whose block size divides its row width:
/// every such target is among those its preflight allows.
pub proof fn lemma_q8_tensors_reach_every_quantized_target(t: TensorInfo, i: int)
    requires
        preflight_block(t) is None,
        t.current_quant@ == "Q8_0"@,
        0 <= i < TARGET_COUNT,
        target_type(i).bits_tenths() < 160,
        target_block(i) == 0 || (t.shape@[0] as nat) % target_block(i) == 0,
    ensures
        preflight_targets(t).contains(target_name(i)),
{
    lemma_quant_type_name_round_trip(QuantType::Q8_0);
    assert(quant_type_named(t.current_quant@) == Some(QuantType::Q8_0));
    assert(target_fits(i, QuantFamily::Q8, 80, t.shape@[0] as nat));
    lemma_fitting_targets_include(TARGET_COUNT as int, QuantFamily::Q8, 80, t.shape@[0] as nat, i);
}

/// Preflight never widens a tensor and never crosses between block
/// layouts: a quantized tensor (below 16 bits per weight) is offered no
/// floating-point target, a K-family tensor only 256-weight-block targets,
/// and a legacy tensor only 32-weight-block targets other than Q8_0.
pub proof fn lemma_preflight_never_widens(t: TensorInfo, k: int)
    requires
        preflight_block(t) is None,
        0 <= k < preflight_targets(t).len(),
    ensures
        ({
            let cur = quant_type_named(t.current_quant@)->Some_0;
            let positions = fitting_indices(
                TARGET_COUNT as int,
                quant_family_of(t.current_quant@)->Some_0,
                quant_bits_tenths(t.current_quant@)->Some_0,
                t.shape@[0] as nat,
            );
            let target = target_type(positions[k]);
            &&& preflight_targets(t)[k] == target.name_spec()
            &&& cur.bits_tenths() < 160 ==> target.bits_tenths() < 160
            &&& family_of(cur) == QuantFamily::K ==> target_block(positions[k]) == 256
            &&& family_of(cur) == QuantFamily::Legacy ==> target_block(positions[k]) == 32 && target
                != QuantType::Q8_0
        }),
{
    lemma_allowed_targets_follow_the_table(t);
    let source = quant_family_of(t.current_quant@)->Some_0;
    let bits = quant_bits_tenths(t.current_quant@)->Some_0;
    let positions = fitting_indices(TARGET_COUNT as int, source, bits, t.shape@[0] as nat);
    let i = positions[k];
    assert(0 <= i < TARGET_COUNT);
    assert(family_allows_spec(source, family_of(target_type(i))));
}

/// The targets allowed for a tensor whose early checks passed.
pub open spec fn preflight_targets(t: TensorInfo) -> Seq<Seq<char>> {
    fitting_targets(
        TARGET_COUNT as int,
        quant_family_of(t.current_quant@)->Some_0,
        quant_bits_tenths(t.current_quant@)->Some_0,
        t.shape@[0] as nat,
    )
}

/// Whether a lower-cased tensor name marks a runtime or normalization tensor.
pub open spec fn is_runtime_tensor_name(lower: Seq<char>) -> bool {
    contains_seq(lower, "bias"@) || contains_seq(lower, "norm"@) || contains_seq(lower, "rope"@)
        || contains_seq(lower, "scale"@)
}

/// Why the tensor cannot be converted, or `None` when some target is allowed.
pub open spec fn preflight_block(t: TensorInfo) -> Option<Seq<char>> {
    let shape = t.shape@;
    if shape.len() == 0 || exists|i: int| 0 <= i < shape.len() && shape[i] == 0 {
        Some("tensor shape is empty or invalid"@)
    } else if shape.len() < 2 {
        Some("1D tensors are not quantizable weight matrices"@)
    } else if is_runtime_tensor_name(ascii_lower(t.name@)) {
        Some("runtime or normalization tensors are not quantizable weight matrices"@)
    } else if quant_bits_tenths(t.current_quant@) is None || quant_family_of(t.current_quant@) is None {
        Some("unsupported current quant type"@)
    } else if shape[0] % 32 != 0 {
        Some("tensor row width is not divisible by Q8_0 block size 32"@)
    } else if preflight_targets(t).len() == 0 {
        Some("no equal-or-smaller target quant fits this tensor row"@)
    } else {
        None
    }
}

/// The family a quantization type belongs to.
pub fn family_of_type(q: QuantType) -> (r: QuantFamily)
    ensures
        r == family_of(q),
{
    match q {
        QuantType::F32 | QuantType::BF16 | QuantType::F16 => QuantFamily::Full,
        QuantType::Q8_0 => QuantFamily::Q8,
        QuantType::Q5_1 | QuantType::Q5_0 | QuantType::Q4_1 | QuantType::Q4_0 => QuantFamily::Legacy,
        _ => QuantFamily::K,
    }
}

/// Bits per weight of the type a name denotes, in tenths of a bit.
pub fn bits_per_weight(quant: &str) -> (r: Option<u32>)
    ensures
        match quant_bits_tenths(quant@) {
            Some(b) => r == Some(b as u32),
            None => r is None,
        },
{
    match quant_type_from_name(quant) {
        Some(t) => Some(t.bits_per_weight_tenths()),
        None => None,
    }
}

/// The family of the type a name denotes.
pub fn quant_family(quant: &str) -> (r: Option<QuantFamily>)
    ensures
        r == quant_family_of(quant@),
{
    match quant_type_from_name(quant) {
        Some(t) => Some(family_of_type(t)),
        None => None,
    }
}

/// Whether a tensor of the `source` family may be converted to `target`.
pub fn family_allows(source: QuantFamily, target: QuantFamily) -> (r: bool)
    ensures
        r == family_allows_spec(source, target),
{
    match source {
        QuantFamily::Full => target != QuantFamily::Legacy,
        QuantFamily::Q8 => target != QuantFamily::Full,
        QuantFamily::Legacy => target == QuantFamily::Legacy,
        QuantFamily::K => target == QuantFamily::K,
    }
}

/// Direct target `i`: its name, bits per weight in tenths, block size (zero
/// where it has none) and family.
fn direct_target(i: usize) -> (r: (&'static str, u32, u64, QuantFamily))
    requires
        i < TARGET_COUNT,
    ensures
        r.0@ == target_name(i as int),
        r.1 == target_type(i as int).bits_tenths(),
        r.2 == target_block(i as int),
        r.3 == family_of(target_type(i as int)),
{
    if i == 0 {
        ("F32", 320, 0, QuantFamily::Full)
    } else if i == 1 {
        ("BF16", 160, 0, QuantFamily::Full)
    } else if i == 2 {
        ("F16", 160, 0, QuantFamily::Full)
    } else if i == 3 {
        ("Q8_0", 80, 32, QuantFamily::Q8)
    } else if i == 4 {
        ("Q6_K", 66, 256, QuantFamily::K)
    } else if i == 5 {
        ("Q5_K", 55, 256, QuantFamily::K)
    } else if i == 6 {
        ("Q5_1", 60, 32, QuantFamily::Legacy)
    } else if i == 7 {
        ("Q5_0", 55, 32, QuantFamily::Legacy)
    } else if i == 8 {
        ("Q4_K", 45, 256, QuantFamily::K)
    } else if i == 9 {
        ("Q4_1", 50, 32, QuantFamily::Legacy)
    } else if i == 10 {
        ("Q4_0", 45, 32, QuantFamily::Legacy)
    } else if i == 11 {
        ("Q3_K", 34, 256, QuantFamily::K)
    } else {
        ("Q2_K", 26, 256, QuantFamily::K)
    }
}

/// A preflight result that allows nothing, for `reason`.
pub fn blocked(reason: &str) -> (p: TensorQuantPreflight)
    ensures
        is_blocked_with(p, reason@),
{
    TensorQuantPreflight {
        can_quantize: false,
        allowed_target_quants: Vec::new(),
        blocked_reason: Some(String::from_str(reason)),
    }
}

/// Whether any of `needles` occurs in `haystack`.
pub fn contains_any(haystack: &str, needles: &[&str]) -> (r: bool)
    ensures
        r == exists|i: int| 0 <= i < needles@.len() && contains_seq(haystack@, needles@[i]@),
{
    let mut i: usize = 0;
    while i < needles.len()
        invariant
            i <= needles@.len(),
            forall|j: int| 0 <= j < i ==> !contains_seq(haystack@, needles@[j]@),
        decreases needles.len() - i,
    {
        if str_contains(haystack, needles[i]) {
            return true;
        }
        i = i + 1;
    }
    false
}

/// Decides which quantization targets `tensor` may be converted to.
pub fn analyze_tensor_quant_preflight(tensor: &TensorInfo) -> (p: TensorQuantPreflight)
    ensures
        match preflight_block(*tensor) {
            Some(reason) => is_blocked_with(p, reason),
            None => p.can_quantize && string_views(p.allowed_target_quants@) == preflight_targets(
                *tensor,
            ) && p.blocked_reason is None,
        },
{
    let shape = &tensor.shape;
    let mut k: usize = 0;
    while k < shape.len()
        invariant
            shape@ == tensor.shape@,
            k <= shape.len(),
            forall|i: int| 0 <= i < k ==> shape@[i] != 0,
        decreases shape.len() - k,
    {
        if shape[k] == 0 {
            assert(shape@[k as int] == 0);
            return blocked("tensor shape is empty or invalid");
        }
        k = k + 1;
    }
    if shape.len() == 0 {
        return blocked("tensor shape is empty or invalid");
    }
    if shape.len() < 2 {
        return blocked("1D tensors are not quantizable weight matrices");
    }
    let name = ascii_lowercase(tensor.name.as_str());
    let runtime = contains_any(name.as_str(), &["bias", "norm", "rope", "scale"]);
    if runtime {
        return blocked("runtime or normalization tensors are not quantizable weight matrices");
    }
    let current_bits = match bits_per_weight(tensor.current_quant.as_str()) {
        Some(b) => b,
        None => return blocked("unsupported current quant type"),
    };
    let source_family = match quant_family(tensor.current_quant.as_str()) {
        Some(f) => f,
        None => return blocked("unsupported current quant type"),
    };
    let row = shape[0];
    if row % 32 != 0 {
        return blocked("tensor row width is not divisible by Q8_0 block size 32");
    }
    let mut allowed: Vec<String> = Vec::new();
    let mut i: usize = 0;
    while i < TARGET_COUNT
        invariant
            i <= TARGET_COUNT,
            string_views(allowed@) == fitting_targets(
                i as int,
                source_family,
                current_bits as nat,
                row as nat,
            ),
        decreases TARGET_COUNT - i,
    {
        let (name, bits, block, family) = direct_target(i);
        let fits = family_allows(source_family, family) && (family == QuantFamily::Full || bits
            <= current_bits) && (block == 0 || row % block == 0);
        if fits {
            let ghost before = string_views(allowed@);
            allowed.push(String::from_str(name));
            assert(string_views(allowed@) == before.push(name@));
        }
        i = i + 1;
    }
    if allowed.len() == 0 {
        return blocked("no equal-or-smaller target quant fits this tensor row");
    }
    TensorQuantPreflight { can_quantize: true, allowed_target_quants: allowed, blocked_reason: None }
}

} // verus!
