//! Fractalium's verified core: the recursion budget of the fractal expansion, the
//! structure of the walk, the editing state machines and the preset catalogues.
use vstd::prelude::*;

pub mod budget;
pub mod fractal_line_walk;
pub mod fractal_state;
pub mod undo;
pub mod seed_preset;
pub mod fractal_presets;
pub mod export_phase;
pub mod placement_rules;
pub mod edit_state;
pub mod text;
pub mod share_payload;
pub mod share_link;
pub mod app_screen;
pub mod export_name;
pub mod user_agent;
pub mod session_rules;
pub mod edit_input;
pub mod placement_input;

verus! {
}
