//! Whether the managed lm-evaluation-harness backend is installed.

use vstd::prelude::*;

use crate::text::opt_chars;

verus! {

/// What the check of the official eval backend found.
#[derive(Clone, Debug)]
pub struct OfficialEvalBackendStatus {
    pub installed: bool,
    pub backend_dir: String,
    pub python_path: Option<String>,
    pub lm_eval_available: bool,
    pub adapter_available: bool,
    pub message: String,
}

/// The status of the official eval backend, from what was found on disk:
/// the backend directory (or why it could not be resolved), the path of
/// the backend's virtual-environment Python and whether it exists, whether
/// `python -m lm_eval --help` succeeded there, and whether the adapter
/// package is present. lm-eval counts as available only where the Python
/// exists.
pub fn check_official_eval_backend_status(
    backend_dir: Result<String, String>,
    python_path: String,
    python_exists: bool,
    lm_eval_runs: bool,
    adapter_exists: bool,
) -> (r: OfficialEvalBackendStatus)
    ensures
        match backend_dir {
            Err(e) => {
                &&& !r.installed
                &&& r.backend_dir@ == Seq::<char>::empty()
                &&& r.python_path is None
                &&& !r.lm_eval_available
                &&& !r.adapter_available
                &&& r.message@ == e@
            },
            Ok(dir) => {
                let lm = python_exists && lm_eval_runs;
                &&& r.lm_eval_available == lm
                &&& r.adapter_available == adapter_exists
                &&& r.installed == (lm && adapter_exists)
                &&& r.backend_dir@ == dir@
                &&& opt_chars(r.python_path) == (if python_exists {
                    Some(python_path@)
                } else {
                    None
                })
                &&& r.message@ == (if lm && adapter_exists {
                    "Official eval backend is installed"@
                } else if !python_exists {
                    "Official eval backend is not installed"@
                } else if !lm {
                    "Official eval backend venv exists, but lm-eval is not available"@
                } else {
                    "Official eval backend adapter is missing"@
                })
            },
        },
{
    let dir = match backend_dir {
        Ok(d) => d,
        Err(e) => {
            return OfficialEvalBackendStatus {
                installed: false,
                backend_dir: String::new(),
                python_path: None,
                lm_eval_available: false,
                adapter_available: false,
                message: e,
            };
        },
    };
    let lm_eval_available = python_exists && lm_eval_runs;
    let installed = lm_eval_available && adapter_exists;
    let message = if installed {
        "Official eval backend is installed"
    } else if !python_exists {
        "Official eval backend is not installed"
    } else if !lm_eval_available {
        "Official eval backend venv exists, but lm-eval is not available"
    } else {
        "Official eval backend adapter is missing"
    };
    OfficialEvalBackendStatus {
        installed,
        backend_dir: dir,
        python_path: if python_exists {
            Some(python_path)
        } else {
            None
        },
        lm_eval_available,
        adapter_available: adapter_exists,
        message: String::from_str(message),
    }
}

} // verus!
