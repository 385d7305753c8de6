//! Game-logic core of the yaobow engine's PAL4 / PAL5 / SWD5 layers:
//! the decisions, state and data formats that the engine drives.
use vstd::prelude::*;

pub mod actor;
pub mod agent_routing;
pub mod app_state;
pub mod asset_paths;
pub mod assoc;
pub mod pal5_ground;
pub mod pal5_script;
pub mod persistent_state;
pub mod director_logic;
pub mod imageset;
pub mod modes;
pub mod scene_logic;
pub mod script_rules;
pub mod session;
pub mod texture_table;
pub mod transition;
pub mod uv_anim;
pub mod swd5;
pub mod text;

verus! {

} // verus!
