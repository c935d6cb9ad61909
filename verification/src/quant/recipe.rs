//! The editable quantization recipe of a model.

use vstd::prelude::*;

use crate::text::{contains_seq, push_char, push_decimal, str_contains, str_eq, decimal};

verus! {

/// The quantization types a tensor can be assigned.
#[allow(non_camel_case_types)]
#[derive(PartialEq, Eq, Structural, Clone, Copy, Debug)]
pub enum QuantType {
    F32,
    BF16,
    F16,
    Q8_0,
    Q6_K,
    Q5_K,
    Q5_K_M,
    Q5_1,
    Q5_0,
    Q4_K,
    Q4_K_M,
    Q4_1,
    Q4_0,
    Q3_K,
    Q3_K_M,
    Q2_K,
}

/// The quantization type a name denotes, if any.
pub open spec fn quant_type_named(q: Seq<char>) -> Option<QuantType> {
    if q == "F32"@ {
        Some(QuantType::F32)
    } else if q == "BF16"@ {
        Some(QuantType::BF16)
    } else if q == "F16"@ {
        Some(QuantType::F16)
    } else if q == "Q8_0"@ {
        Some(QuantType::Q8_0)
    } else if q == "Q6_K"@ {
        Some(QuantType::Q6_K)
    } else if q == "Q5_K"@ {
        Some(QuantType::Q5_K)
    } else if q == "Q5_K_M"@ {
        Some(QuantType::Q5_K_M)
    } else if q == "Q5_1"@ {
        Some(QuantType::Q5_1)
    } else if q == "Q5_0"@ {
        Some(QuantType::Q5_0)
    } else if q == "Q4_K"@ {
        Some(QuantType::Q4_K)
    } else if q == "Q4_K_M"@ {
        Some(QuantType::Q4_K_M)
    } else if q == "Q4_1"@ {
        Some(QuantType::Q4_1)
    } else if q == "Q4_0"@ {
        Some(QuantType::Q4_0)
    } else if q == "Q3_K"@ {
        Some(QuantType::Q3_K)
    } else if q == "Q3_K_M"@ {
        Some(QuantType::Q3_K_M)
    } else if q == "Q2_K"@ {
        Some(QuantType::Q2_K)
    } else {
        None
    }
}

impl QuantType {
    /// The name of the type, as GGUF tools print it.
    pub open spec fn name_spec(self) -> Seq<char> {
        match self {
            QuantType::F32 => "F32"@,
            QuantType::BF16 => "BF16"@,
            QuantType::F16 => "F16"@,
            QuantType::Q8_0 => "Q8_0"@,
            QuantType::Q6_K => "Q6_K"@,
            QuantType::Q5_K => "Q5_K"@,
            QuantType::Q5_K_M => "Q5_K_M"@,
            QuantType::Q5_1 => "Q5_1"@,
            QuantType::Q5_0 => "Q5_0"@,
            QuantType::Q4_K => "Q4_K"@,
            QuantType::Q4_K_M => "Q4_K_M"@,
            QuantType::Q4_1 => "Q4_1"@,
            QuantType::Q4_0 => "Q4_0"@,
            QuantType::Q3_K => "Q3_K"@,
            QuantType::Q3_K_M => "Q3_K_M"@,
            QuantType::Q2_K => "Q2_K"@,
        }
    }

    /// Bits per weight, in tenths of a bit.
    pub open spec fn bits_tenths(self) -> nat {
        match self {
            QuantType::F32 => 320,
            QuantType::BF16 => 160,
            QuantType::F16 => 160,
            QuantType::Q8_0 => 80,
            QuantType::Q6_K => 66,
            QuantType::Q5_K => 55,
            QuantType::Q5_K_M => 53,
            QuantType::Q5_1 => 60,
            QuantType::Q5_0 => 55,
            QuantType::Q4_K => 45,
            QuantType::Q4_K_M => 48,
            QuantType::Q4_1 => 50,
            QuantType::Q4_0 => 45,
            QuantType::Q3_K => 34,
            QuantType::Q3_K_M => 39,
            QuantType::Q2_K => 26,
        }
    }

    /// Whether the type stores quantized blocks rather than plain floats.
    pub open spec fn is_quantized(self) -> bool {
        !(self == QuantType::F32 || self == QuantType::BF16 || self == QuantType::F16)
    }

    /// Bits per weight, in tenths of a bit (6.6 bits is 66).
    pub fn bits_per_weight_tenths(&self) -> (r: u32)
        ensures
            r == self.bits_tenths(),
    {
        match self {
            QuantType::F32 => 320,
            QuantType::BF16 => 160,
            QuantType::F16 => 160,
            QuantType::Q8_0 => 80,
            QuantType::Q6_K => 66,
            QuantType::Q5_K => 55,
            QuantType::Q5_K_M => 53,
            QuantType::Q5_1 => 60,
            QuantType::Q5_0 => 55,
            QuantType::Q4_K => 45,
            QuantType::Q4_K_M => 48,
            QuantType::Q4_1 => 50,
            QuantType::Q4_0 => 45,
            QuantType::Q3_K => 34,
            QuantType::Q3_K_M => 39,
            QuantType::Q2_K => 26,
        }
    }
}

/// The name of a quantization type.
pub fn quant_type_name(quant_type: &QuantType) -> (r: &'static str)
    ensures
        r@ == quant_type.name_spec(),
{
    match quant_type {
        QuantType::F32 => "F32",
        QuantType::BF16 => "BF16",
        QuantType::F16 => "F16",
        QuantType::Q8_0 => "Q8_0",
        QuantType::Q6_K => "Q6_K",
        QuantType::Q5_K => "Q5_K",
        QuantType::Q5_K_M => "Q5_K_M",
        QuantType::Q5_1 => "Q5_1",
        QuantType::Q5_0 => "Q5_0",
        QuantType::Q4_K => "Q4_K",
        QuantType::Q4_K_M => "Q4_K_M",
        QuantType::Q4_1 => "Q4_1",
        QuantType::Q4_0 => "Q4_0",
        QuantType::Q3_K => "Q3_K",
        QuantType::Q3_K_M => "Q3_K_M",
        QuantType::Q2_K => "Q2_K",
    }
}

/// The quantization type a name denotes, if any.
pub fn quant_type_from_name(s: &str) -> (r: Option<QuantType>)
    ensures
        r == quant_type_named(s@),
{
    if str_eq(s, "F32") {
        Some(QuantType::F32)
    } else if str_eq(s, "BF16") {
        Some(QuantType::BF16)
    } else if str_eq(s, "F16") {
        Some(QuantType::F16)
    } else if str_eq(s, "Q8_0") {
        Some(QuantType::Q8_0)
    } else if str_eq(s, "Q6_K") {
        Some(QuantType::Q6_K)
    } else if str_eq(s, "Q5_K") {
        Some(QuantType::Q5_K)
    } else if str_eq(s, "Q5_K_M") {
        Some(QuantType::Q5_K_M)
    } else if str_eq(s, "Q5_1") {
        Some(QuantType::Q5_1)
    } else if str_eq(s, "Q5_0") {
        Some(QuantType::Q5_0)
    } else if str_eq(s, "Q4_K") {
        Some(QuantType::Q4_K)
    } else if str_eq(s, "Q4_K_M") {
        Some(QuantType::Q4_K_M)
    } else if str_eq(s, "Q4_1") {
        Some(QuantType::Q4_1)
    } else if str_eq(s, "Q4_0") {
        Some(QuantType::Q4_0)
    } else if str_eq(s, "Q3_K") {
        Some(QuantType::Q3_K)
    } else if str_eq(s, "Q3_K_M") {
        Some(QuantType::Q3_K_M)
    } else if str_eq(s, "Q2_K") {
        Some(QuantType::Q2_K)
    } else {
        None
    }
}

/// Reading back the name of a quantization type gives that type.
pub proof fn lemma_quant_type_name_round_trip(q: QuantType)
    ensures
        quant_type_named(q.name_spec()) == Some(q),
{
    match q {
        QuantType::F32 => {
            reveal_strlit("F32");
        },
        QuantType::BF16 => {
            reveal_strlit("BF16");
            reveal_strlit("F32");
            assert("BF16"@.len() != "F32"@.len());
        },
        QuantType::F16 => {
            reveal_strlit("F16");
            reveal_strlit("F32");
            assert("F16"@[1] != "F32"@[1]);
            reveal_strlit("BF16");
            assert("F16"@.len() != "BF16"@.len());
        },
        QuantType::Q8_0 => {
            reveal_strlit("Q8_0");
            reveal_strlit("F32");
            assert("Q8_0"@.len() != "F32"@.len());
            reveal_strlit("BF16");
            assert("Q8_0"@[0] != "BF16"@[0]);
            reveal_strlit("F16");
            assert("Q8_0"@.len() != "F16"@.len());
        },
        QuantType::Q6_K => {
            reveal_strlit("Q6_K");
            reveal_strlit("F32");
            assert("Q6_K"@.len() != "F32"@.len());
            reveal_strlit("BF16");
            assert("Q6_K"@[0] != "BF16"@[0]);
            reveal_strlit("F16");
            assert("Q6_K"@.len() != "F16"@.len());
            reveal_strlit("Q8_0");
            assert("Q6_K"@[1] != "Q8_0"@[1]);
        },
        QuantType::Q5_K => {
            reveal_strlit("Q5_K");
            reveal_strlit("F32");
            assert("Q5_K"@.len() != "F32"@.len());
            reveal_strlit("BF16");
            assert("Q5_K"@[0] != "BF16"@[0]);
            reveal_strlit("F16");
            assert("Q5_K"@.len() != "F16"@.len());
            reveal_strlit("Q8_0");
            assert("Q5_K"@[1] != "Q8_0"@[1]);
            reveal_strlit("Q6_K");
            assert("Q5_K"@[1] != "Q6_K"@[1]);
        },
        QuantType::Q5_K_M => {
            reveal_strlit("Q5_K_M");
            reveal_strlit("F32");
            assert("Q5_K_M"@.len() != "F32"@.len());
            reveal_strlit("BF16");
            assert("Q5_K_M"@.len() != "BF16"@.len());
            reveal_strlit("F16");
            assert("Q5_K_M"@.len() != "F16"@.len());
            reveal_strlit("Q8_0");
            assert("Q5_K_M"@.len() != "Q8_0"@.len());
            reveal_strlit("Q6_K");
            assert("Q5_K_M"@.len() != "Q6_K"@.len());
            reveal_strlit("Q5_K");
            assert("Q5_K_M"@.len() != "Q5_K"@.len());
        },
        QuantType::Q5_1 => {
            reveal_strlit("Q5_1");
            reveal_strlit("F32");
            assert("Q5_1"@.len() != "F32"@.len());
            reveal_strlit("BF16");
            assert("Q5_1"@[0] != "BF16"@[0]);
            reveal_strlit("F16");
            assert("Q5_1"@.len() != "F16"@.len());
            reveal_strlit("Q8_0");
            assert("Q5_1"@[1] != "Q8_0"@[1]);
            reveal_strlit("Q6_K");
            assert("Q5_1"@[1] != "Q6_K"@[1]);
            reveal_strlit("Q5_K");
            assert("Q5_1"@[3] != "Q5_K"@[3]);
            reveal_strlit("Q5_K_M");
            assert("Q5_1"@.len() != "Q5_K_M"@.len());
        },
        QuantType::Q5_0 => {
            reveal_strlit("Q5_0");
            reveal_strlit("F32");
            assert("Q5_0"@.len() != "F32"@.len());
            reveal_strlit("BF16");
            assert("Q5_0"@[0] != "BF16"@[0]);
            reveal_strlit("F16");
            assert("Q5_0"@.len() != "F16"@.len());
            reveal_strlit("Q8_0");
            assert("Q5_0"@[1] != "Q8_0"@[1]);
            reveal_strlit("Q6_K");
            assert("Q5_0"@[1] != "Q6_K"@[1]);
            reveal_strlit("Q5_K");
            assert("Q5_0"@[3] != "Q5_K"@[3]);
            reveal_strlit("Q5_K_M");
            assert("Q5_0"@.len() != "Q5_K_M"@.len());
            reveal_strlit("Q5_1");
            assert("Q5_0"@[3] != "Q5_1"@[3]);
        },
        QuantType::Q4_K => {
            reveal_strlit("Q4_K");
            reveal_strlit("F32");
            assert("Q4_K"@.len() != "F32"@.len());
            reveal_strlit("BF16");
            assert("Q4_K"@[0] != "BF16"@[0]);
            reveal_strlit("F16");
            assert("Q4_K"@.len() != "F16"@.len());
            reveal_strlit("Q8_0");
            assert("Q4_K"@[1] != "Q8_0"@[1]);
            reveal_strlit("Q6_K");
            assert("Q4_K"@[1] != "Q6_K"@[1]);
            reveal_strlit("Q5_K");
            assert("Q4_K"@[1] != "Q5_K"@[1]);
            reveal_strlit("Q5_K_M");
            assert("Q4_K"@.len() != "Q5_K_M"@.len());
            reveal_strlit("Q5_1");
            assert("Q4_K"@[1] != "Q5_1"@[1]);
            reveal_strlit("Q5_0");
            assert("Q4_K"@[1] != "Q5_0"@[1]);
        },
        QuantType::Q4_K_M => {
            reveal_strlit("Q4_K_M");
            reveal_strlit("F32");
            assert("Q4_K_M"@.len() != "F32"@.len());
            reveal_strlit("BF16");
            assert("Q4_K_M"@.len() != "BF16"@.len());
            reveal_strlit("F16");
            assert("Q4_K_M"@.len() != "F16"@.len());
            reveal_strlit("Q8_0");
            assert("Q4_K_M"@.len() != "Q8_0"@.len());
            reveal_strlit("Q6_K");
            assert("Q4_K_M"@.len() != "Q6_K"@.len());
            reveal_strlit("Q5_K");
            assert("Q4_K_M"@.len() != "Q5_K"@.len());
            reveal_strlit("Q5_K_M");
            assert("Q4_K_M"@[1] != "Q5_K_M"@[1]);
            reveal_strlit("Q5_1");
            assert("Q4_K_M"@.len() != "Q5_1"@.len());
            reveal_strlit("Q5_0");
            assert("Q4_K_M"@.len() != "Q5_0"@.len());
            reveal_strlit("Q4_K");
            assert("Q4_K_M"@.len() != "Q4_K"@.len());
        },
        QuantType::Q4_1 => {
            reveal_strlit("Q4_1");
            reveal_strlit("F32");
            assert("Q4_1"@.len() != "F32"@.len());
            reveal_strlit("BF16");
            assert("Q4_1"@[0] != "BF16"@[0]);
            reveal_strlit("F16");
            assert("Q4_1"@.len() != "F16"@.len());
            reveal_strlit("Q8_0");
            assert("Q4_1"@[1] != "Q8_0"@[1]);
            reveal_strlit("Q6_K");
            assert("Q4_1"@[1] != "Q6_K"@[1]);
            reveal_strlit("Q5_K");
            assert("Q4_1"@[1] != "Q5_K"@[1]);
            reveal_strlit("Q5_K_M");
            assert("Q4_1"@.len() != "Q5_K_M"@.len());
            reveal_strlit("Q5_1");
            assert("Q4_1"@[1] != "Q5_1"@[1]);
            reveal_strlit("Q5_0");
            assert("Q4_1"@[1] != "Q5_0"@[1]);
            reveal_strlit("Q4_K");
            assert("Q4_1"@[3] != "Q4_K"@[3]);
            reveal_strlit("Q4_K_M");
            assert("Q4_1"@.len() != "Q4_K_M"@.len());
        },
        QuantType::Q4_0 => {
            reveal_strlit("Q4_0");
            reveal_strlit("F32");
            assert("Q4_0"@.len() != "F32"@.len());
            reveal_strlit("BF16");
            assert("Q4_0"@[0] != "BF16"@[0]);
            reveal_strlit("F16");
            assert("Q4_0"@.len() != "F16"@.len());
            reveal_strlit("Q8_0");
            assert("Q4_0"@[1] != "Q8_0"@[1]);
            reveal_strlit("Q6_K");
            assert("Q4_0"@[1] != "Q6_K"@[1]);
            reveal_strlit("Q5_K");
            assert("Q4_0"@[1] != "Q5_K"@[1]);
            reveal_strlit("Q5_K_M");
            assert("Q4_0"@.len() != "Q5_K_M"@.len());
            reveal_strlit("Q5_1");
            assert("Q4_0"@[1] != "Q5_1"@[1]);
            reveal_strlit("Q5_0");
            assert("Q4_0"@[1] != "Q5_0"@[1]);
            reveal_strlit("Q4_K");
            assert("Q4_0"@[3] != "Q4_K"@[3]);
            reveal_strlit("Q4_K_M");
            assert("Q4_0"@.len() != "Q4_K_M"@.len());
            reveal_strlit("Q4_1");
            assert("Q4_0"@[3] != "Q4_1"@[3]);
        },
        QuantType::Q3_K => {
            reveal_strlit("Q3_K");
            reveal_strlit("F32");
            assert("Q3_K"@.len() != "F32"@.len());
            reveal_strlit("BF16");
            assert("Q3_K"@[0] != "BF16"@[0]);
            reveal_strlit("F16");
            assert("Q3_K"@.len() != "F16"@.len());
            reveal_strlit("Q8_0");
            assert("Q3_K"@[1] != "Q8_0"@[1]);
            reveal_strlit("Q6_K");
            assert("Q3_K"@[1] != "Q6_K"@[1]);
            reveal_strlit("Q5_K");
            assert("Q3_K"@[1] != "Q5_K"@[1]);
            reveal_strlit("Q5_K_M");
            assert("Q3_K"@.len() != "Q5_K_M"@.len());
            reveal_strlit("Q5_1");
            assert("Q3_K"@[1] != "Q5_1"@[1]);
            reveal_strlit("Q5_0");
            assert("Q3_K"@[1] != "Q5_0"@[1]);
            reveal_strlit("Q4_K");
            assert("Q3_K"@[1] != "Q4_K"@[1]);
            reveal_strlit("Q4_K_M");
            assert("Q3_K"@.len() != "Q4_K_M"@.len());
            reveal_strlit("Q4_1");
            assert("Q3_K"@[1] != "Q4_1"@[1]);
            reveal_strlit("Q4_0");
            assert("Q3_K"@[1] != "Q4_0"@[1]);
        },
        QuantType::Q3_K_M => {
            reveal_strlit("Q3_K_M");
            reveal_strlit("F32");
            assert("Q3_K_M"@.len() != "F32"@.len());
            reveal_strlit("BF16");
            assert("Q3_K_M"@.len() != "BF16"@.len());
            reveal_strlit("F16");
            assert("Q3_K_M"@.len() != "F16"@.len());
            reveal_strlit("Q8_0");
            assert("Q3_K_M"@.len() != "Q8_0"@.len());
            reveal_strlit("Q6_K");
            assert("Q3_K_M"@.len() != "Q6_K"@.len());
            reveal_strlit("Q5_K");
            assert("Q3_K_M"@.len() != "Q5_K"@.len());
            reveal_strlit("Q5_K_M");
            assert("Q3_K_M"@[1] != "Q5_K_M"@[1]);
            reveal_strlit("Q5_1");
            assert("Q3_K_M"@.len() != "Q5_1"@.len());
            reveal_strlit("Q5_0");
            assert("Q3_K_M"@.len() != "Q5_0"@.len());
            reveal_strlit("Q4_K");
            assert("Q3_K_M"@.len() != "Q4_K"@.len());
            reveal_strlit("Q4_K_M");
            assert("Q3_K_M"@[1] != "Q4_K_M"@[1]);
            reveal_strlit("Q4_1");
            assert("Q3_K_M"@.len() != "Q4_1"@.len());
            reveal_strlit("Q4_0");
            assert("Q3_K_M"@.len() != "Q4_0"@.len());
            reveal_strlit("Q3_K");
            assert("Q3_K_M"@.len() != "Q3_K"@.len());
        },
        QuantType::Q2_K => {
            reveal_strlit("Q2_K");
            reveal_strlit("F32");
            assert("Q2_K"@.len() != "F32"@.len());
            reveal_strlit("BF16");
            assert("Q2_K"@[0] != "BF16"@[0]);
            reveal_strlit("F16");
            assert("Q2_K"@.len() != "F16"@.len());
            reveal_strlit("Q8_0");
            assert("Q2_K"@[1] != "Q8_0"@[1]);
            reveal_strlit("Q6_K");
            assert("Q2_K"@[1] != "Q6_K"@[1]);
            reveal_strlit("Q5_K");
            assert("Q2_K"@[1] != "Q5_K"@[1]);
            reveal_strlit("Q5_K_M");
            assert("Q2_K"@.len() != "Q5_K_M"@.len());
            reveal_strlit("Q5_1");
            assert("Q2_K"@[1] != "Q5_1"@[1]);
            reveal_strlit("Q5_0");
            assert("Q2_K"@[1] != "Q5_0"@[1]);
            reveal_strlit("Q4_K");
            assert("Q2_K"@[1] != "Q4_K"@[1]);
            reveal_strlit("Q4_K_M");
            assert("Q2_K"@.len() != "Q4_K_M"@.len());
            reveal_strlit("Q4_1");
            assert("Q2_K"@[1] != "Q4_1"@[1]);
            reveal_strlit("Q4_0");
            assert("Q2_K"@[1] != "Q4_0"@[1]);
            reveal_strlit("Q3_K");
            assert("Q2_K"@[1] != "Q3_K"@[1]);
            reveal_strlit("Q3_K_M");
            assert("Q2_K"@.len() != "Q3_K_M"@.len());
        },
    }
}

/// The type a recipe falls back to for a name it does not know.
pub open spec fn default_quant_named(q: Seq<char>) -> QuantType {
    match quant_type_named(q) {
        Some(t) => t,
        None => QuantType::Q4_K_M,
    }
}

/// Reads a quantization type name, failing with a message on unknown names.
pub fn parse_quant_type(s: &str) -> (r: Result<QuantType, String>)
    ensures
        match quant_type_named(s@) {
            Some(t) => r == Ok::<QuantType, String>(t),
            None => r matches Err(m) && m@ == "Unknown quant type: "@ + s@,
        },
{
    match quant_type_from_name(s) {
        Some(t) => Ok(t),
        None => {
            let mut m = String::from_str("Unknown quant type: ");
            m.append(s);
            Err(m)
        },
    }
}

/// Reads a quantization type name, taking `Q4_K_M` for unknown names.
pub fn parse_default_quant(value: &str) -> (r: QuantType)
    ensures
        r == default_quant_named(value@),
{
    match quant_type_from_name(value) {
        Some(t) => t,
        None => QuantType::Q4_K_M,
    }
}

/// One tensor of a recipe and the type it is assigned.
#[derive(Clone, Debug)]
pub struct QuantAssignment {
    pub tensor_name: String,
    pub quant_type: QuantType,
}

/// The profile measured for a recipe; each figure holds the bit pattern of
/// an IEEE-754 double.
#[derive(Clone, Copy, Debug)]
pub struct RecipeProfile {
    pub vram_estimate_bits: u64,
    pub size_saved_vs_q8_bits: u64,
}

/// Where a recipe stands in its life cycle.
#[derive(PartialEq, Eq, Structural, Clone, Copy, Debug)]
pub enum RecipeStatus {
    Draft,
    Profiled,
    Applied,
    Saved,
}

/// A model's per-tensor quantization plan.
#[derive(Clone, Debug)]
pub struct RecipeState {
    pub id: String,
    pub base_model: String,
    pub assignments: Vec<QuantAssignment>,
    pub profile: Option<RecipeProfile>,
    pub status: RecipeStatus,
}

/// The tensor names of a list of assignments, in order.
pub open spec fn assignment_names(a: Seq<QuantAssignment>) -> Seq<Seq<char>> {
    a.map_values(|x: QuantAssignment| x.tensor_name@)
}

/// The assigned types of a list of assignments, in order.
pub open spec fn assignment_types(a: Seq<QuantAssignment>) -> Seq<QuantType> {
    a.map_values(|x: QuantAssignment| x.quant_type)
}

/// The decimal notation of a signed integer.
pub open spec fn signed_decimal(x: int) -> Seq<char> {
    if x < 0 {
        seq!['-'] + decimal((-x) as nat)
    } else {
        decimal(x as nat)
    }
}

/// The system clock's distance from the Unix epoch, in whole seconds and
/// the nanoseconds beyond them (std's `SystemTime::now()` and
/// `duration_since(UNIX_EPOCH)`): `Ok` at or after the epoch, `Err` with
/// the distance before it. Nothing is promised of the time itself; the
/// nanoseconds are below one second, as std's `Duration::subsec_nanos`
/// documents.
#[verifier::external_body]
fn clock_since_epoch() -> (r: Result<(u64, u32), (u64, u32)>)
    ensures
        match r {
            Ok((_, n)) => n < 1_000_000_000,
            Err((_, n)) => n < 1_000_000_000,
        },
{
    match std::time::SystemTime::now().duration_since(std::time::UNIX_EPOCH) {
        Ok(d) => Ok((d.as_secs(), d.subsec_nanos())),
        Err(e) => Err((e.duration().as_secs(), e.duration().subsec_nanos())),
    }
}

/// chrono's `DateTime::from_timestamp(secs, nanos)` read back with
/// `timestamp_millis()`: `None` where chrono cannot represent the instant;
/// otherwise, for nanoseconds below one second, the seconds in
/// milliseconds plus the whole milliseconds of the nanoseconds (chrono
/// documents that `from_timestamp` round-trips with `timestamp` and
/// `timestamp_subsec_nanos`). Which seconds chrono can represent is not
/// stated.
#[verifier::external_body]
fn utc_timestamp_millis(secs: i64, nanos: u32) -> (r: Option<i64>)
    ensures
        nanos < 1_000_000_000 ==> (r matches Some(m) ==> m == secs * 1000 + nanos / 1_000_000),
{
    chrono::DateTime::from_timestamp(secs, nanos).map(|t| t.timestamp_millis())
}

/// The wall-clock time in milliseconds since the Unix epoch (negative
/// before it), or `None` where the clock's reading is beyond what chrono
/// represents. Nothing is promised of the value: it is read from the clock.
fn now_millis() -> (r: Option<i64>) {
    let (secs, nanos): (i64, u32) = match clock_since_epoch() {
        Ok((s, n)) => {
            if s > 0x7fff_ffff_ffff_ffff {
                return None;
            }
            (s as i64, n)
        },
        Err((s, n)) => {
            if s >= 0x7fff_ffff_ffff_ffff {
                return None;
            }
            if n == 0 {
                (0 - (s as i64), 0)
            } else {
                (0 - (s as i64) - 1, 1_000_000_000 - n)
            }
        },
    };
    utc_timestamp_millis(secs, nanos)
}

/// The id of a recipe created now: the decimal time in milliseconds, or
/// `0` where the clock cannot be read as a time chrono represents.
fn fresh_recipe_id() -> (id: String)
    ensures
        is_time_id(id@),
{
    let t = match now_millis() {
        Some(t) => t,
        None => 0,
    };
    let id = signed_decimal_string(t);
    assert(is_time_id(id@)) by {
        assert(i64::MIN <= t as int <= i64::MAX && id@ == signed_decimal(t as int));
    }
    id
}

/// The decimal notation of a signed integer.
pub fn signed_decimal_string(x: i64) -> (s: String)
    ensures
        s@ == signed_decimal(x as int),
{
    let mut s = String::new();
    if x < 0 {
        push_char(&mut s, '-');
        let m = (0 - (x as i128)) as u64;
        push_decimal(&mut s, m);
    } else {
        push_decimal(&mut s, x as u64);
    }
    s
}

/// A recipe id: the decimal creation time in milliseconds.
pub open spec fn is_time_id(id: Seq<char>) -> bool {
    exists|t: int| i64::MIN <= t <= i64::MAX && id == signed_decimal(t)
}

/// Whether `name` marks a tensor the runtime keeps at full precision.
pub open spec fn runtime_only_name(name: Seq<char>) -> bool {
    contains_seq(name, "bias"@) || contains_seq(name, "norm"@) || contains_seq(name, "rope"@)
        || contains_seq(name, "scale"@)
}

/// Whether a bulk assignment of `q` may touch the tensor `name`.
pub open spec fn bulk_assignable(name: Seq<char>, q: QuantType) -> bool {
    !q.is_quantized() || !runtime_only_name(name)
}

/// A bulk assignment of a type stored at 16 or more bits per weight (a
/// floating-point type) reaches every tensor, runtime-only ones included:
/// afterwards every tensor has that type.
pub proof fn lemma_float_bulk_assignment_reaches_every_tensor(
    before: Seq<QuantAssignment>,
    after: Seq<QuantAssignment>,
    q: QuantType,
)
    requires
        q.bits_tenths() >= 160,
        assigned_where(before, after, q, |j: int| bulk_assignable(before[j].tensor_name@, q)),
    ensures
        after.len() == before.len(),
        forall|j: int| 0 <= j < after.len() ==> after[j].quant_type == q,
{
    assert forall|j: int| 0 <= j < after.len() implies after[j].quant_type == q by {
        assert(after[j].quant_type == (if bulk_assignable(before[j].tensor_name@, q) {
            q
        } else {
            before[j].quant_type
        }));
    }
}

/// Whether `name` is an attention tensor.
pub open spec fn attention_name(name: Seq<char>) -> bool {
    contains_seq(name, "attention"@) || contains_seq(name, "self_attn"@) || contains_seq(name, "attn_"@)
        || contains_seq(name, ".attn_"@) || contains_seq(name, "attn_q"@) || contains_seq(name, "attn_k"@)
        || contains_seq(name, "attn_v"@) || contains_seq(name, "attn_output"@) || contains_seq(
        name,
        "attn_norm"@,
    )
}

/// Whether `name` is a feed-forward tensor.
pub open spec fn ffn_name(name: Seq<char>) -> bool {
    contains_seq(name, "feed_forward"@) || contains_seq(name, "ffn_"@) || contains_seq(name, ".ffn_"@)
        || contains_seq(name, "mlp"@) || contains_seq(name, "gate_proj"@) || contains_seq(name, "up_proj"@)
        || contains_seq(name, "down_proj"@)
}

/// Whether `name` is an embedding or output-projection tensor.
pub open spec fn embedding_name(name: Seq<char>) -> bool {
    contains_seq(name, "token_embd"@) || contains_seq(name, "tok_embeddings"@) || contains_seq(
        name,
        "embed_tokens"@,
    ) || contains_seq(name, "embedding"@) || contains_seq(name, "output.weight"@) || contains_seq(
        name,
        "per_layer_token_embd"@,
    )
}

/// Whether the bulk pattern `pattern` selects the tensor `name`.
pub open spec fn pattern_selects(pattern: Seq<char>, name: Seq<char>) -> bool {
    if pattern == "all_attn"@ {
        attention_name(name)
    } else if pattern == "all_ffn"@ {
        ffn_name(name)
    } else if pattern == "all_embeddings"@ {
        embedding_name(name)
    } else {
        true
    }
}

/// `after` is `before` with the type `q` given exactly where `chosen` holds.
pub open spec fn assigned_where(
    before: Seq<QuantAssignment>,
    after: Seq<QuantAssignment>,
    q: QuantType,
    chosen: spec_fn(int) -> bool,
) -> bool {
    &&& after.len() == before.len()
    &&& assignment_names(after) == assignment_names(before)
    &&& forall|j: int|
        0 <= j < before.len() ==> #[trigger] after[j].quant_type == (if chosen(j) {
            q
        } else {
            before[j].quant_type
        })
}

/// Assignment `j` is the first one for its tensor name, and `names` lists
/// that name.
pub open spec fn first_named_in(a: Seq<QuantAssignment>, names: Seq<Seq<char>>, j: int) -> bool {
    &&& exists|k: int| 0 <= k < names.len() && names[k] == a[j].tensor_name@
    &&& forall|k: int| 0 <= k < j ==> a[k].tensor_name@ != a[j].tensor_name@
}

/// The position of the first assignment for tensor `name`.
fn find_assignment(a: &Vec<QuantAssignment>, name: &str) -> (r: Option<usize>)
    ensures
        match r {
            Some(i) => i < a.len() && a@[i as int].tensor_name@ == name@ && forall|k: int|
                0 <= k < i ==> a@[k].tensor_name@ != name@,
            None => forall|k: int| 0 <= k < a.len() ==> a@[k].tensor_name@ != name@,
        },
{
    let mut k: usize = 0;
    while k < a.len()
        invariant
            k <= a.len(),
            forall|m: int| 0 <= m < k ==> a@[m].tensor_name@ != name@,
        decreases a.len() - k,
    {
        if str_eq(a[k].tensor_name.as_str(), name) {
            return Some(k);
        }
        k = k + 1;
    }
    None
}

/// Whether `name` is a tensor the runtime must keep at full precision.
pub fn is_runtime_quantizable_tensor(name: &str) -> (r: bool)
    ensures
        r == !runtime_only_name(name@),
{
    !(str_contains(name, "bias") || str_contains(name, "norm") || str_contains(name, "rope")
        || str_contains(name, "scale"))
}

/// Whether `q` stores quantized blocks.
pub fn is_quantized_target(q: &QuantType) -> (r: bool)
    ensures
        r == q.is_quantized(),
{
    !(*q == QuantType::F32 || *q == QuantType::BF16 || *q == QuantType::F16)
}

/// Whether a bulk assignment of `q` may touch the tensor `name`.
pub fn should_bulk_assign(name: &str, q: &QuantType) -> (r: bool)
    ensures
        r == bulk_assignable(name@, *q),
{
    !is_quantized_target(q) || is_runtime_quantizable_tensor(name)
}

/// Whether `name` is an attention tensor.
pub fn is_attention_tensor(name: &str) -> (r: bool)
    ensures
        r == attention_name(name@),
{
    str_contains(name, "attention") || str_contains(name, "self_attn") || str_contains(name, "attn_")
        || str_contains(name, ".attn_") || str_contains(name, "attn_q") || str_contains(name, "attn_k")
        || str_contains(name, "attn_v") || str_contains(name, "attn_output") || str_contains(
        name,
        "attn_norm",
    )
}

/// Whether `name` is a feed-forward tensor.
pub fn is_ffn_tensor(name: &str) -> (r: bool)
    ensures
        r == ffn_name(name@),
{
    str_contains(name, "feed_forward") || str_contains(name, "ffn_") || str_contains(name, ".ffn_")
        || str_contains(name, "mlp") || str_contains(name, "gate_proj") || str_contains(name, "up_proj")
        || str_contains(name, "down_proj")
}

/// Whether `name` is an embedding or output-projection tensor.
pub fn is_embedding_tensor(name: &str) -> (r: bool)
    ensures
        r == embedding_name(name@),
{
    str_contains(name, "token_embd") || str_contains(name, "tok_embeddings") || str_contains(
        name,
        "embed_tokens",
    ) || str_contains(name, "embedding") || str_contains(name, "output.weight") || str_contains(
        name,
        "per_layer_token_embd",
    )
}

/// Whether the bulk pattern `pattern` selects the tensor `name`.
pub fn pattern_matches(pattern: &str, name: &str) -> (r: bool)
    ensures
        r == pattern_selects(pattern@, name@),
{
    if str_eq(pattern, "all_attn") {
        is_attention_tensor(name)
    } else if str_eq(pattern, "all_ffn") {
        is_ffn_tensor(name)
    } else if str_eq(pattern, "all_embeddings") {
        is_embedding_tensor(name)
    } else {
        true
    }
}

/// Gives assignment `idx` the type `q`, keeping its tensor name.
fn set_assignment_type(a: &mut Vec<QuantAssignment>, idx: usize, q: QuantType)
    requires
        idx < old(a).len(),
    ensures
        final(a).len() == old(a).len(),
        final(a)@[idx as int].quant_type == q,
        final(a)@[idx as int].tensor_name@ == old(a)@[idx as int].tensor_name@,
        forall|j: int| 0 <= j < old(a).len() && j != idx ==> final(a)@[j] == old(a)@[j],
{
    let name = a[idx].tensor_name.clone();
    a.set(idx, QuantAssignment { tensor_name: name, quant_type: q });
}

impl RecipeState {
    /// A draft recipe giving every tensor of `tensor_names` the type
    /// `default_quant`.
    pub fn new(base_model: String, tensor_names: Vec<String>, default_quant: QuantType) -> (r: Self)
        ensures
            r.base_model@ == base_model@,
            assignment_names(r.assignments@) == tensor_names@.map_values(|n: String| n@),
            forall|j: int| 0 <= j < r.assignments@.len() ==> #[trigger] r.assignments@[j].quant_type == default_quant,
            r.profile is None,
            r.status == RecipeStatus::Draft,
            is_time_id(r.id@),
    {
        let mut assignments: Vec<QuantAssignment> = Vec::new();
        let mut i: usize = 0;
        while i < tensor_names.len()
            invariant
                i <= tensor_names.len(),
                assignments@.len() == i,
                assignment_names(assignments@) == tensor_names@.take(i as int).map_values(|n: String| n@),
                forall|j: int| 0 <= j < i ==> #[trigger] assignments@[j].quant_type == default_quant,
            decreases tensor_names.len() - i,
        {
            let name = tensor_names[i].clone();
            let ghost before = assignments@;
            assignments.push(QuantAssignment { tensor_name: name, quant_type: default_quant });
            assert(assignments@ == before.push(QuantAssignment { tensor_name: name, quant_type: default_quant }));
            assert(assignment_names(assignments@) == assignment_names(before).push(name@));
            assert(tensor_names@.take(i + 1) == tensor_names@.take(i as int).push(tensor_names@[i as int]));
            i = i + 1;
            assert(assignment_names(assignments@) == tensor_names@.take(i as int).map_values(|n: String| n@));
        }
        assert(tensor_names@.take(tensor_names.len() as int) == tensor_names@);
        let id = fresh_recipe_id();
        RecipeState {
            id,
            base_model,
            assignments,
            profile: None,
            status: RecipeStatus::Draft,
        }
    }

    /// A draft recipe keeping each tensor at the type it has now.
    pub fn from_current_quants(base_model: String, tensors: Vec<(String, QuantType)>) -> (r: Self)
        ensures
            r.base_model@ == base_model@,
            assignment_names(r.assignments@) == tensors@.map_values(|t: (String, QuantType)| t.0@),
            assignment_types(r.assignments@) == tensors@.map_values(|t: (String, QuantType)| t.1),
            r.profile is None,
            r.status == RecipeStatus::Draft,
            is_time_id(r.id@),
    {
        let mut assignments: Vec<QuantAssignment> = Vec::new();
        let mut i: usize = 0;
        while i < tensors.len()
            invariant
                i <= tensors.len(),
                assignments@.len() == i,
                assignment_names(assignments@) == tensors@.take(i as int).map_values(
                    |t: (String, QuantType)| t.0@,
                ),
                assignment_types(assignments@) == tensors@.take(i as int).map_values(
                    |t: (String, QuantType)| t.1,
                ),
            decreases tensors.len() - i,
        {
            let name = tensors[i].0.clone();
            let q = tensors[i].1;
            let ghost before = assignments@;
            assignments.push(QuantAssignment { tensor_name: name, quant_type: q });
            assert(assignments@ == before.push(QuantAssignment { tensor_name: name, quant_type: q }));
            assert(assignment_names(assignments@) == assignment_names(before).push(name@));
            assert(assignment_types(assignments@) == assignment_types(before).push(q));
            assert(tensors@.take(i + 1) == tensors@.take(i as int).push(tensors@[i as int]));
            i = i + 1;
            assert(assignment_names(assignments@) == tensors@.take(i as int).map_values(
                |t: (String, QuantType)| t.0@,
            ));
            assert(assignment_types(assignments@) == tensors@.take(i as int).map_values(
                |t: (String, QuantType)| t.1,
            ));
        }
        assert(tensors@.take(tensors.len() as int) == tensors@);
        let id = fresh_recipe_id();
        RecipeState {
            id,
            base_model,
            assignments,
            profile: None,
            status: RecipeStatus::Draft,
        }
    }

    /// Gives each listed tensor the type `quant_type` (the first assignment
    /// of that name, where a name occurs twice) and marks the recipe a draft.
    pub fn assign_tensors(&mut self, names: &[String], quant_type: QuantType)
        ensures
            assigned_where(
                old(self).assignments@,
                final(self).assignments@,
                quant_type,
                |j: int| first_named_in(old(self).assignments@, names@.map_values(|n: String| n@), j),
            ),
            final(self).status == RecipeStatus::Draft,
            final(self).id == old(self).id,
            final(self).base_model == old(self).base_model,
            final(self).profile == old(self).profile,
    {
        let ghost a0 = self.assignments@;
        let ghost all_names = names@.map_values(|n: String| n@);
        let mut i: usize = 0;
        while i < names.len()
            invariant
                i <= names.len(),
                all_names == names@.map_values(|n: String| n@),
                self.id == old(self).id,
                self.base_model == old(self).base_model,
                self.profile == old(self).profile,
                a0 == old(self).assignments@,
                assigned_where(
                    a0,
                    self.assignments@,
                    quant_type,
                    |j: int| first_named_in(a0, all_names.take(i as int), j),
                ),
            decreases names.len() - i,
        {
            let n = names[i].as_str();
            let found = find_assignment(&self.assignments, n);
            let ghost before = self.assignments@;
            let ghost found_g = found;
            match found {
                Some(idx) => {
                    set_assignment_type(&mut self.assignments, idx, quant_type);
                    assert(assignment_names(self.assignments@) == assignment_names(before));
                },
                None => {},
            }
            let ghost prev_names = all_names.take(i as int);
            let ghost next_names = all_names.take(i + 1);
            assert(next_names == prev_names.push(n@));
            i = i + 1;
            assert forall|j: int| 0 <= j < a0.len() implies #[trigger] self.assignments@[j].quant_type == (
            if first_named_in(a0, next_names, j) {
                quant_type
            } else {
                a0[j].quant_type
            }) by {
                assert(assignment_names(a0)[j] == a0[j].tensor_name@);
                assert(assignment_names(before)[j] == before[j].tensor_name@);
                assert(before[j].quant_type == (if first_named_in(a0, prev_names, j) {
                    quant_type
                } else {
                    a0[j].quant_type
                }));
                if first_named_in(a0, prev_names, j) {
                    let k = choose|k: int| 0 <= k < prev_names.len() && prev_names[k] == a0[j].tensor_name@;
                    assert(next_names[k] == prev_names[k]);
                }
                if a0[j].tensor_name@ == n@ {
                    assert(next_names[prev_names.len() as int] == n@);
                }
                if first_named_in(a0, next_names, j) && !first_named_in(a0, prev_names, j) {
                    let k = choose|k: int| 0 <= k < next_names.len() && next_names[k] == a0[j].tensor_name@;
                    if k < prev_names.len() {
                        assert(prev_names[k] == next_names[k]);
                    }
                    assert(a0[j].tensor_name@ == n@);
                }
                match found_g {
                    Some(idx) => {
                        assert(assignment_names(before)[idx as int] == before[idx as int].tensor_name@);
                        assert(assignment_names(a0)[idx as int] == a0[idx as int].tensor_name@);
                        if j == idx as int {
                            assert forall|k: int| 0 <= k < j implies a0[k].tensor_name@ != a0[j].tensor_name@ by {
                                assert(assignment_names(a0)[k] == a0[k].tensor_name@);
                                assert(assignment_names(before)[k] == before[k].tensor_name@);
                            }
                            assert(first_named_in(a0, next_names, j));
                        }
                        if j != idx as int && a0[j].tensor_name@ == n@ {
                            if j < idx as int {
                                assert(before[j].tensor_name@ != n@);
                            } else {
                                assert(a0[idx as int].tensor_name@ == a0[j].tensor_name@);
                                assert(!first_named_in(a0, next_names, j));
                            }
                        }
                    },
                    None => {
                        assert(before[j].tensor_name@ != n@);
                    },
                }
            }
        }
        assert(all_names.take(names.len() as int) == all_names);
        self.status = RecipeStatus::Draft;
    }

    /// Gives the type `quant_type` to every tensor a bulk assignment may
    /// touch, and marks the recipe a draft.
    pub fn assign_all(&mut self, quant_type: QuantType)
        ensures
            assigned_where(
                old(self).assignments@,
                final(self).assignments@,
                quant_type,
                |j: int| bulk_assignable(old(self).assignments@[j].tensor_name@, quant_type),
            ),
            final(self).status == RecipeStatus::Draft,
            final(self).id == old(self).id,
            final(self).base_model == old(self).base_model,
            final(self).profile == old(self).profile,
    {
        let ghost a0 = self.assignments@;
        let mut i: usize = 0;
        while i < self.assignments.len()
            invariant
                i <= self.assignments.len(),
                self.id == old(self).id,
                self.base_model == old(self).base_model,
                self.profile == old(self).profile,
                a0 == old(self).assignments@,
                self.assignments@.len() == a0.len(),
                assignment_names(self.assignments@) == assignment_names(a0),
                forall|j: int| i <= j < a0.len() ==> #[trigger] self.assignments@[j] == a0[j],
                forall|j: int|
                    0 <= j < i ==> #[trigger] self.assignments@[j].quant_type == (if bulk_assignable(
                        a0[j].tensor_name@,
                        quant_type,
                    ) {
                        quant_type
                    } else {
                        a0[j].quant_type
                    }),
            decreases a0.len() - i,
        {
            let ok = should_bulk_assign(self.assignments[i].tensor_name.as_str(), &quant_type);
            if ok {
                let ghost before = self.assignments@;
                set_assignment_type(&mut self.assignments, i, quant_type);
                assert(assignment_names(self.assignments@) =~= assignment_names(before));
            }
            i = i + 1;
        }
        self.status = RecipeStatus::Draft;
    }

    /// Gives the type `quant_type` to every tensor that `pattern` selects
    /// and a bulk assignment may touch, and marks the recipe a draft.
    pub fn assign_by_pattern(&mut self, pattern: &str, quant_type: QuantType)
        ensures
            assigned_where(
                old(self).assignments@,
                final(self).assignments@,
                quant_type,
                |j: int|
                    pattern_selects(pattern@, old(self).assignments@[j].tensor_name@)
                        && bulk_assignable(old(self).assignments@[j].tensor_name@, quant_type),
            ),
            final(self).status == RecipeStatus::Draft,
            final(self).id == old(self).id,
            final(self).base_model == old(self).base_model,
            final(self).profile == old(self).profile,
    {
        let ghost a0 = self.assignments@;
        let mut i: usize = 0;
        while i < self.assignments.len()
            invariant
                i <= self.assignments.len(),
                self.id == old(self).id,
                self.base_model == old(self).base_model,
                self.profile == old(self).profile,
                a0 == old(self).assignments@,
                self.assignments@.len() == a0.len(),
                assignment_names(self.assignments@) == assignment_names(a0),
                forall|j: int| i <= j < a0.len() ==> #[trigger] self.assignments@[j] == a0[j],
                forall|j: int|
                    0 <= j < i ==> #[trigger] self.assignments@[j].quant_type == (if pattern_selects(
                        pattern@,
                        a0[j].tensor_name@,
                    ) && bulk_assignable(a0[j].tensor_name@, quant_type) {
                        quant_type
                    } else {
                        a0[j].quant_type
                    }),
            decreases a0.len() - i,
        {
            let selected = pattern_matches(pattern, self.assignments[i].tensor_name.as_str());
            let ok = selected && should_bulk_assign(self.assignments[i].tensor_name.as_str(), &quant_type);
            if ok {
                let ghost before = self.assignments@;
                set_assignment_type(&mut self.assignments, i, quant_type);
                assert(assignment_names(self.assignments@) =~= assignment_names(before));
            }
            i = i + 1;
        }
        self.status = RecipeStatus::Draft;
    }

    /// Like `assign_all`, but only where the tensor's preflight allows the
    /// type: `allowed` lists, per tensor name, the allowed type names.
    pub fn assign_all_with_preflight(&mut self, quant_type: QuantType, allowed: &Vec<(String, Vec<String>)>)
        ensures
            assigned_where(
                old(self).assignments@,
                final(self).assignments@,
                quant_type,
                |j: int|
                    bulk_assignable(old(self).assignments@[j].tensor_name@, quant_type)
                        && preflight_allows(allowed@, old(self).assignments@[j].tensor_name@, quant_type),
            ),
            final(self).status == RecipeStatus::Draft,
            final(self).id == old(self).id,
            final(self).base_model == old(self).base_model,
            final(self).profile == old(self).profile,
    {
        let ghost a0 = self.assignments@;
        let mut i: usize = 0;
        while i < self.assignments.len()
            invariant
                i <= self.assignments.len(),
                self.id == old(self).id,
                self.base_model == old(self).base_model,
                self.profile == old(self).profile,
                a0 == old(self).assignments@,
                self.assignments@.len() == a0.len(),
                assignment_names(self.assignments@) == assignment_names(a0),
                forall|j: int| i <= j < a0.len() ==> #[trigger] self.assignments@[j] == a0[j],
                forall|j: int|
                    0 <= j < i ==> #[trigger] self.assignments@[j].quant_type == (if bulk_assignable(
                        a0[j].tensor_name@,
                        quant_type,
                    ) && preflight_allows(allowed@, a0[j].tensor_name@, quant_type) {
                        quant_type
                    } else {
                        a0[j].quant_type
                    }),
            decreases a0.len() - i,
        {
            let name = self.assignments[i].tensor_name.as_str();
            let ok = should_bulk_assign(name, &quant_type) && allows_target(allowed, name, &quant_type);
            if ok {
                let ghost before = self.assignments@;
                set_assignment_type(&mut self.assignments, i, quant_type);
                assert(assignment_names(self.assignments@) =~= assignment_names(before));
            }
            i = i + 1;
        }
        self.status = RecipeStatus::Draft;
    }

    /// Like `assign_by_pattern`, but only where the tensor's preflight
    /// allows the type.
    pub fn assign_by_pattern_with_preflight(
        &mut self,
        pattern: &str,
        quant_type: QuantType,
        allowed: &Vec<(String, Vec<String>)>,
    )
        ensures
            assigned_where(
                old(self).assignments@,
                final(self).assignments@,
                quant_type,
                |j: int|
                    pattern_selects(pattern@, old(self).assignments@[j].tensor_name@)
                        && bulk_assignable(old(self).assignments@[j].tensor_name@, quant_type)
                        && preflight_allows(allowed@, old(self).assignments@[j].tensor_name@, quant_type),
            ),
            final(self).status == RecipeStatus::Draft,
            final(self).id == old(self).id,
            final(self).base_model == old(self).base_model,
            final(self).profile == old(self).profile,
    {
        let ghost a0 = self.assignments@;
        let mut i: usize = 0;
        while i < self.assignments.len()
            invariant
                i <= self.assignments.len(),
                self.id == old(self).id,
                self.base_model == old(self).base_model,
                self.profile == old(self).profile,
                a0 == old(self).assignments@,
                self.assignments@.len() == a0.len(),
                assignment_names(self.assignments@) == assignment_names(a0),
                forall|j: int| i <= j < a0.len() ==> #[trigger] self.assignments@[j] == a0[j],
                forall|j: int|
                    0 <= j < i ==> #[trigger] self.assignments@[j].quant_type == (if pattern_selects(
                        pattern@,
                        a0[j].tensor_name@,
                    ) && bulk_assignable(a0[j].tensor_name@, quant_type) && preflight_allows(
                        allowed@,
                        a0[j].tensor_name@,
                        quant_type,
                    ) {
                        quant_type
                    } else {
                        a0[j].quant_type
                    }),
            decreases a0.len() - i,
        {
            let name = self.assignments[i].tensor_name.as_str();
            let ok = pattern_matches(pattern, name) && should_bulk_assign(name, &quant_type)
                && allows_target(allowed, name, &quant_type);
            if ok {
                let ghost before = self.assignments@;
                set_assignment_type(&mut self.assignments, i, quant_type);
                assert(assignment_names(self.assignments@) =~= assignment_names(before));
            }
            i = i + 1;
        }
        self.status = RecipeStatus::Draft;
    }
}

/// Some entry of `allowed` for tensor `name` lists the type `q`.
pub open spec fn preflight_allows(allowed: Seq<(String, Vec<String>)>, name: Seq<char>, q: QuantType) -> bool {
    exists|i: int, k: int|
        0 <= i < allowed.len() && allowed[i].0@ == name && 0 <= k < allowed[i].1@.len()
            && #[trigger] allowed[i].1@[k]@ == q.name_spec()
}

/// Whether some entry of `allowed` for tensor `name` lists the type `q`.
pub fn allows_target(allowed: &Vec<(String, Vec<String>)>, name: &str, q: &QuantType) -> (r: bool)
    ensures
        r == preflight_allows(allowed@, name@, *q),
{
    let target = quant_type_name(q);
    let mut i: usize = 0;
    while i < allowed.len()
        invariant
            i <= allowed.len(),
            target@ == q.name_spec(),
            forall|a: int, k: int|
                0 <= a < i && allowed@[a].0@ == name@ && 0 <= k < allowed@[a].1@.len() ==> #[trigger] allowed@[a].1@[k]@
                    != q.name_spec(),
        decreases allowed.len() - i,
    {
        if str_eq(allowed[i].0.as_str(), name) {
            let list = &allowed[i].1;
            let mut k: usize = 0;
            while k < list.len()
                invariant
                    i < allowed.len(),
                    allowed@[i as int].0@ == name@,
                    k <= list.len(),
                    list@ == allowed@[i as int].1@,
                    target@ == q.name_spec(),
                    forall|m: int| 0 <= m < k ==> #[trigger] list@[m]@ != q.name_spec(),
                decreases list.len() - k,
            {
                if str_eq(list[k].as_str(), target) {
                    assert(allowed@[i as int].1@[k as int]@ == q.name_spec());
                    return true;
                }
                k = k + 1;
            }
        }
        i = i + 1;
    }
    false
}

/// The `(tensor name, type name)` pairs a recipe asks the runtime for.
pub fn recipe_targets(recipe: &RecipeState) -> (r: Vec<(String, String)>)
    ensures
        r@.len() == recipe.assignments@.len(),
        forall|j: int|
            0 <= j < r@.len() ==> #[trigger] r@[j].0@ == recipe.assignments@[j].tensor_name@
                && r@[j].1@ == recipe.assignments@[j].quant_type.name_spec(),
{
    let mut out: Vec<(String, String)> = Vec::new();
    let mut i: usize = 0;
    while i < recipe.assignments.len()
        invariant
            i <= recipe.assignments.len(),
            out@.len() == i,
            forall|j: int| 0 <= j < i ==> (#[trigger] out@[j]).0@ == recipe.assignments@[j].tensor_name@,
            forall|j: int|
                0 <= j < i ==> (#[trigger] out@[j]).1@ == recipe.assignments@[j].quant_type.name_spec(),
        decreases recipe.assignments.len() - i,
    {
        let a = &recipe.assignments[i];
        let name = a.tensor_name.clone();
        let q = String::from_str(quant_type_name(&a.quant_type));
        let ghost before = out@;
        out.push((name, q));
        assert(out@ == before.push((name, q)));
        assert(out@[i as int].0@ == recipe.assignments@[i as int].tensor_name@);
        assert(out@[i as int].1@ == recipe.assignments@[i as int].quant_type.name_spec());
        assert forall|j: int| 0 <= j < i implies #[trigger] out@[j] == before[j] by {}
        i = i + 1;
    }
    out
}

/// What the native runtime reports when it checks a recipe against a model.
#[derive(Clone, Copy, Debug)]
pub struct MsRecipeAnalysis {
    pub tensor_count: u64,
    pub changed_count: u64,
    pub unsupported_count: u64,
    pub missing_count: u64,
    pub unknown_quant_count: u64,
    pub current_size_bytes: u64,
    pub estimated_target_size_bytes: u64,
}

/// Refuses a recipe that names missing tensors or unknown types, or asks
/// for conversions the runtime does not support.
pub fn validate_recipe_analysis(analysis: &MsRecipeAnalysis) -> (r: Result<(), String>)
    ensures
        analysis.missing_count > 0 || analysis.unknown_quant_count > 0 ==> (r matches Err(m) && m@
            == "Recipe preflight failed: "@ + decimal(analysis.missing_count as nat)
            + " missing tensor(s), "@ + decimal(analysis.unknown_quant_count as nat)
            + " unknown quant target(s)."@),
        analysis.missing_count == 0 && analysis.unknown_quant_count == 0 && analysis.unsupported_count
            > 0 ==> (r matches Err(m) && m@ == "Recipe preflight found "@ + decimal(
            analysis.unsupported_count as nat,
        ) + " unsupported tensor conversion(s). Phase 2 supports only F32/F16/BF16 to Q8_0."@),
        r is Ok <==> (analysis.missing_count == 0 && analysis.unknown_quant_count == 0
            && analysis.unsupported_count == 0),
{
    if analysis.missing_count > 0 || analysis.unknown_quant_count > 0 {
        let mut m = String::from_str("Recipe preflight failed: ");
        push_decimal(&mut m, analysis.missing_count);
        m.append(" missing tensor(s), ");
        push_decimal(&mut m, analysis.unknown_quant_count);
        m.append(" unknown quant target(s).");
        return Err(m);
    }
    if analysis.unsupported_count > 0 {
        let mut m = String::from_str("Recipe preflight found ");
        push_decimal(&mut m, analysis.unsupported_count);
        m.append(" unsupported tensor conversion(s). Phase 2 supports only F32/F16/BF16 to Q8_0.");
        return Err(m);
    }
    Ok(())
}

/// A bulk assignment of a quantized type (one below 16 bits per weight)
/// leaves every runtime-only tensor (bias, norm, rope or scale) at the type
/// it had.
pub proof fn lemma_bulk_quantization_keeps_runtime_tensors(
    before: Seq<QuantAssignment>,
    after: Seq<QuantAssignment>,
    q: QuantType,
    chosen: spec_fn(int) -> bool,
)
    requires
        q.bits_tenths() < 160,
        assigned_where(before, after, q, chosen),
        forall|j: int| 0 <= j < before.len() && #[trigger] chosen(j) ==> bulk_assignable(before[j].tensor_name@, q),
    ensures
        forall|j: int|
            0 <= j < before.len() && runtime_only_name(#[trigger] before[j].tensor_name@) ==> after[j].quant_type
                == before[j].quant_type,
{
    assert forall|j: int|
        0 <= j < before.len() && runtime_only_name(#[trigger] before[j].tensor_name@) implies after[j].quant_type
        == before[j].quant_type by {
        if chosen(j) {
            assert(bulk_assignable(before[j].tensor_name@, q));
        }
    }
}

/// Repeating a bulk assignment changes nothing: the second pass selects by
/// tensor name, and names are kept, so it gives the same tensors the same
/// type again.
pub proof fn lemma_bulk_assignment_idempotent(
    a0: Seq<QuantAssignment>,
    a1: Seq<QuantAssignment>,
    a2: Seq<QuantAssignment>,
    q: QuantType,
    select: spec_fn(Seq<char>) -> bool,
)
    requires
        assigned_where(a0, a1, q, |j: int| select(a0[j].tensor_name@)),
        assigned_where(a1, a2, q, |j: int| select(a1[j].tensor_name@)),
    ensures
        assignment_names(a2) == assignment_names(a1),
        assignment_types(a2) == assignment_types(a1),
{
    assert forall|j: int| 0 <= j < a1.len() implies #[trigger] a2[j].quant_type == a1[j].quant_type by {
        assert(assignment_names(a1)[j] == assignment_names(a0)[j]);
        assert(a1[j].quant_type == (if select(a0[j].tensor_name@) { q } else { a0[j].quant_type }));
        assert(a2[j].quant_type == (if select(a1[j].tensor_name@) { q } else { a1[j].quant_type }));
    }
    assert(assignment_types(a2) =~= assignment_types(a1));
}

} // verus!
