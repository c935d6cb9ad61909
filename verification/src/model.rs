//! The model the workbench has open, and what opening one sets up.

use vstd::prelude::*;

use crate::gguf::types::{ModelInfo, TensorInfo};
use crate::text::string_views;
use crate::quant::recipe::{
    assignment_names, assignment_types, default_quant_named, is_time_id, parse_default_quant,
    QuantType, RecipeState, RecipeStatus,
};

verus! {

/// The model file that is open, with what its header holds.
#[derive(Clone, Debug)]
pub struct LoadedModel {
    pub path: String,
    pub info: ModelInfo,
}

/// The draft recipe an opened model starts from: every tensor keeps the
/// type it has in the file, and a type name the recipe types do not know
/// counts as Q4_K_M.
pub fn recipe_for_model(path: String, info: &ModelInfo) -> (r: RecipeState)
    ensures
        r.base_model@ == path@,
        assignment_names(r.assignments@) == info.tensors@.map_values(|t: TensorInfo| t.name@),
        assignment_types(r.assignments@) == info.tensors@.map_values(
            |t: TensorInfo| default_quant_named(t.current_quant@),
        ),
        r.profile is None,
        r.status == RecipeStatus::Draft,
        is_time_id(r.id@),
{
    let mut quants: Vec<(String, QuantType)> = Vec::new();
    let mut i: usize = 0;
    while i < info.tensors.len()
        invariant
            i <= info.tensors.len(),
            quants@.map_values(|t: (String, QuantType)| t.0@) == info.tensors@.take(i as int).map_values(
                |t: TensorInfo| t.name@,
            ),
            quants@.map_values(|t: (String, QuantType)| t.1) == info.tensors@.take(i as int).map_values(
                |t: TensorInfo| default_quant_named(t.current_quant@),
            ),
        decreases info.tensors.len() - i,
    {
        let ghost prev = quants@;
        let name = info.tensors[i].name.clone();
        let q = parse_default_quant(info.tensors[i].current_quant.as_str());
        quants.push((name, q));
        assert(quants@ == prev.push((name, q)));
        assert(quants@.map_values(|t: (String, QuantType)| t.0@) =~= prev.map_values(
            |t: (String, QuantType)| t.0@,
        ).push(info.tensors@[i as int].name@));
        assert(info.tensors@.take(i + 1).map_values(|t: TensorInfo| t.name@) =~= info.tensors@.take(
            i as int,
        ).map_values(|t: TensorInfo| t.name@).push(info.tensors@[i as int].name@));
        assert(quants@.map_values(|t: (String, QuantType)| t.1) =~= prev.map_values(
            |t: (String, QuantType)| t.1,
        ).push(default_quant_named(info.tensors@[i as int].current_quant@)));
        assert(info.tensors@.take(i + 1).map_values(
            |t: TensorInfo| default_quant_named(t.current_quant@),
        ) =~= info.tensors@.take(i as int).map_values(
            |t: TensorInfo| default_quant_named(t.current_quant@),
        ).push(default_quant_named(info.tensors@[i as int].current_quant@)));
        i = i + 1;
    }
    assert(info.tensors@.take(info.tensors.len() as int) == info.tensors@);
    RecipeState::from_current_quants(path, quants)
}

/// The window of tensor values a preview reads: each side is capped at
/// 128, and a window of more than 4096 values is refused.
pub fn tensor_preview_window(row_count: u64, col_count: u64) -> (r: Result<(u64, u64), String>)
    ensures
        ({
            let rows = if row_count < 128 { row_count } else { 128 };
            let cols = if col_count < 128 { col_count } else { 128 };
            match r {
                Ok((a, b)) => a == rows && b == cols && rows * cols <= 4096,
                Err(e) => rows * cols > 4096 && e@
                    == "Tensor preview window is limited to 4096 values"@,
            }
        }),
{
    let rows = if row_count < 128 { row_count } else { 128 };
    let cols = if col_count < 128 { col_count } else { 128 };
    let value_count = match rows.checked_mul(cols) {
        Some(n) => n,
        None => {
            assert(rows * cols <= 128 * 128) by (nonlinear_arith)
                requires
                    rows <= 128,
                    cols <= 128,
            ;
            return Err(String::from_str("tensor preview window is too large"));
        },
    };
    if value_count > 4096 {
        return Err(String::from_str("Tensor preview window is limited to 4096 values"));
    }
    Ok((rows, cols))
}

/// The views of the `(tensor name, allowed targets)` pairs.
pub open spec fn allowed_views(v: Seq<(String, Vec<String>)>) -> Seq<(Seq<char>, Seq<Seq<char>>)> {
    v.map_values(|p: (String, Vec<String>)| (p.0@, string_views(p.1@)))
}

/// What each tensor of a model may be converted to, by name.
pub open spec fn model_allowed_targets(tensors: Seq<TensorInfo>) -> Seq<(Seq<char>, Seq<Seq<char>>)> {
    tensors.map_values(
        |t: TensorInfo| (t.name@, string_views(t.quant_preflight.allowed_target_quants@)),
    )
}

fn clone_strings(v: &Vec<String>) -> (r: Vec<String>)
    ensures
        string_views(r@) == string_views(v@),
{
    let mut r: Vec<String> = Vec::new();
    let mut i: usize = 0;
    while i < v.len()
        invariant
            i <= v.len(),
            string_views(r@) == string_views(v@).take(i as int),
        decreases v.len() - i,
    {
        let ghost prev = string_views(r@);
        let s = v[i].clone();
        r.push(s);
        assert(string_views(r@) =~= prev.push(v@[i as int]@));
        i = i + 1;
    }
    assert(string_views(v@).take(v.len() as int) == string_views(v@));
    r
}

/// The targets each tensor of the open model allows, which bulk
/// assignments respect; refused when no model is open.
pub fn loaded_allowed_target_quants(model: Option<&LoadedModel>) -> (r: Result<
    Vec<(String, Vec<String>)>,
    String,
>)
    ensures
        match model {
            Some(m) => r matches Ok(v) && allowed_views(v@) == model_allowed_targets(m.info.tensors@),
            None => r matches Err(e) && e@ == "No model loaded"@,
        },
{
    let m = match model {
        Some(m) => m,
        None => return Err(String::from_str("No model loaded")),
    };
    let ts = &m.info.tensors;
    let mut out: Vec<(String, Vec<String>)> = Vec::new();
    let mut i: usize = 0;
    while i < ts.len()
        invariant
            i <= ts.len(),
            allowed_views(out@) == model_allowed_targets(ts@).take(i as int),
        decreases ts.len() - i,
    {
        let ghost prev = allowed_views(out@);
        let name = ts[i].name.clone();
        let allowed = clone_strings(&ts[i].quant_preflight.allowed_target_quants);
        out.push((name, allowed));
        assert(allowed_views(out@) =~= prev.push(
            (ts@[i as int].name@, string_views(ts@[i as int].quant_preflight.allowed_target_quants@)),
        ));
        assert(model_allowed_targets(ts@).take(i + 1) =~= model_allowed_targets(ts@).take(i as int).push(
            (ts@[i as int].name@, string_views(ts@[i as int].quant_preflight.allowed_target_quants@)),
        ));
        i = i + 1;
    }
    assert(model_allowed_targets(ts@).take(ts.len() as int) == model_allowed_targets(ts@));
    Ok(out)
}

} // verus!
