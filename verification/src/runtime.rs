//! Launch parameters of a game session.
use vstd::prelude::*;

verus! {

/// Game profile describing launch parameters.
#[derive(Debug, Clone)]
pub struct GameProfile {
    pub exe_path: String,
    pub arguments: Vec<String>,
    pub working_directory: Option<String>,
}

} // verus!
