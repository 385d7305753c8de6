//! One PAL4 playthrough: the durable progress and the policy that folds
//! the live world into it at save time and reads it back at load time.
use vstd::prelude::*;

use crate::persistent_state::{Pal4PersistentState, PersistentStateView, fresh_state};
use crate::text::{push_signed_decimal, push_str, signed_decimal};

verus! {

/// Save namespace of PAL4: the directory name under the save root.
pub open spec fn pal4_app_name() -> Seq<char> {
    seq!['O', 'p', 'e', 'n', 'P', 'A', 'L', '4']
}

/// The state after a save folds in the values read off the live scene.
pub open spec fn runtime_saved<P, D, C>(
    v: PersistentStateView<P, D, C>,
    position: Option<P>,
    direction: Option<D>,
    camera: Option<C>,
    script_globals: Seq<u32>,
) -> PersistentStateView<P, D, C> {
    PersistentStateView { position, direction, camera, script_globals, ..v }
}

/// `r` is the runtime snapshot of the state `v` (its camera a clone of
/// the saved one).
pub open spec fn snapshot_of<P, D, C: Clone>(r: RuntimeSnapshot<P, D, C>, v: PersistentStateView<P, D, C>) -> bool {
    &&& r.scene_name@ == v.scene_name
    &&& r.block_name@ == v.block_name
    &&& r.leader == v.leader
    &&& r.position == v.position
    &&& r.direction == v.direction
    &&& r.player_locked == v.player_locked
    &&& r.script_globals@ == v.script_globals
    &&& (v.camera is None ==> r.camera is None)
    &&& (v.camera matches Some(c) ==> (r.camera matches Some(rc) && cloned(c, rc)))
}

/// Loading what a save wrote gives back the values the save folded in
/// (leader position and facing, camera, script globals) together with the
/// scene, block, leader and control lock that the session already held.
pub proof fn law_save_then_load<P, D, C: Clone>(
    v: PersistentStateView<P, D, C>,
    position: Option<P>,
    direction: Option<D>,
    camera: Option<C>,
    script_globals: Seq<u32>,
    r: RuntimeSnapshot<P, D, C>,
)
    requires
        snapshot_of(r, runtime_saved(v, position, direction, camera, script_globals)),
    ensures
        r.position == position,
        r.direction == direction,
        r.script_globals@ == script_globals,
        camera is None ==> r.camera is None,
        camera matches Some(c) ==> (r.camera matches Some(rc) && cloned(c, rc)),
        r.scene_name@ == v.scene_name,
        r.block_name@ == v.block_name,
        r.leader == v.leader,
        r.player_locked == v.player_locked,
{
}

/// Plain-data snapshot of the live runtime world: what the director reads
/// off the running scene at save time, and re-applies after a load.
#[derive(Debug, Clone)]
pub struct RuntimeSnapshot<P, D, C> {
    pub scene_name: String,
    pub block_name: String,
    pub leader: usize,
    pub position: Option<P>,
    pub direction: Option<D>,
    pub camera: Option<C>,
    pub player_locked: bool,
    pub script_globals: Vec<u32>,
}

impl<P, D, C> Default for RuntimeSnapshot<P, D, C> {
    fn default() -> (r: Self)
        ensures
            r.scene_name@.len() == 0,
            r.block_name@.len() == 0,
            r.leader == 0,
            r.position is None,
            r.direction is None,
            r.camera is None,
            !r.player_locked,
            r.script_globals@.len() == 0,
    {
        RuntimeSnapshot {
            scene_name: String::new(),
            block_name: String::new(),
            leader: 0,
            position: None,
            direction: None,
            camera: None,
            player_locked: false,
            script_globals: Vec::new(),
        }
    }
}

/// One active PAL4 playthrough. Owns the serializable game progress.
pub struct Pal4Session<P, D, C> {
    state: Pal4PersistentState<P, D, C>,
}

impl<P, D, C> View for Pal4Session<P, D, C> {
    type V = PersistentStateView<P, D, C>;

    closed spec fn view(&self) -> PersistentStateView<P, D, C> {
        self.state@
    }
}

impl<P, D, C> Pal4Session<P, D, C> {
    /// Fresh playthrough seeded with the PAL4 save namespace.
    pub fn new() -> (r: Self)
        ensures
            fresh_state(r@, pal4_app_name()),
    {
        let name = String::from_str("OpenPAL4");
        proof {
            reveal_strlit("OpenPAL4");
            assert(name@ =~= pal4_app_name());
        }
        Pal4Session { state: Pal4PersistentState::new(name) }
    }

    /// Wraps an already-loaded persistent state.
    pub fn from_state(state: Pal4PersistentState<P, D, C>) -> (r: Self)
        ensures
            r@ == state@,
    {
        Pal4Session { state }
    }

    pub fn state(&self) -> (r: &Pal4PersistentState<P, D, C>)
        ensures
            r@ == self@,
    {
        &self.state
    }

    pub fn state_mut(&mut self) -> (r: &mut Pal4PersistentState<P, D, C>)
        ensures
            r@ == old(self)@,
            final(self)@ == final(r)@,
    {
        &mut self.state
    }

    /// Overwrites the whole durable state.
    pub fn replace_state(&mut self, state: Pal4PersistentState<P, D, C>)
        ensures
            final(self)@ == state@,
    {
        self.state = state;
    }

    pub fn app_name(&self) -> (r: &str)
        ensures
            r@ == self@.app_name,
    {
        self.state.app_name()
    }

    /// Folds the values derived from the live scene (leader position and
    /// facing, camera, script globals) into the state. Scene, block,
    /// leader and lock already live in the state. Returns whether the state
    /// is then to be written to `slot`: a negative slot means "no slot".
    pub fn save_runtime(
        &mut self,
        slot: i32,
        position: Option<P>,
        direction: Option<D>,
        camera: Option<C>,
        script_globals: Vec<u32>,
    ) -> (persist: bool)
        ensures
            final(self)@ == runtime_saved(old(self)@, position, direction, camera, script_globals@),
            persist == (slot >= 0),
    {
        self.state.set_position(position);
        self.state.set_direction(direction);
        self.state.set_camera(camera);
        self.state.set_script_globals(script_globals);
        slot >= 0
    }

    /// Adopts a state read from a save slot and returns the snapshot of it
    /// that the director re-applies to the running world.
    pub fn adopt_loaded(&mut self, state: Pal4PersistentState<P, D, C>) -> (r: RuntimeSnapshot<P, D, C>)
        where P: Copy, D: Copy, C: Clone
        ensures
            final(self)@ == state@,
            snapshot_of(r, state@),
    {
        let globals = state.script_globals();
        let mut copied: Vec<u32> = Vec::new();
        let mut i: usize = 0;
        while i < globals.len()
            invariant
                i <= globals@.len(),
                copied@ == globals@.take(i as int),
            decreases globals@.len() - i,
        {
            copied.push(globals[i]);
            proof {
                assert(globals@.take(i + 1) =~= globals@.take(i as int).push(globals@[i as int]));
            }
            i = i + 1;
        }
        proof {
            assert(globals@.take(globals@.len() as int) =~= globals@);
        }
        let snapshot = RuntimeSnapshot {
            scene_name: String::from_str(state.scene_name()),
            block_name: String::from_str(state.block_name()),
            leader: state.leader(),
            position: state.position(),
            direction: state.direction(),
            camera: state.camera().cloned(),
            player_locked: state.player_locked(),
            script_globals: copied,
        };
        self.state = state;
        snapshot
    }
}

impl<P, D, C> Default for Pal4Session<P, D, C> {
    fn default() -> (r: Self)
        ensures
            fresh_state(r@, pal4_app_name()),
    {
        Self::new()
    }
}

/// The load screen's row for save slot `slot`: `Slot <n> - ` and the saved
/// state's summary, or `(empty)` where the slot holds no save.
pub fn slot_label(slot: i32, summary: Option<&str>) -> (r: String)
    ensures
        r@ == "Slot "@ + signed_decimal(slot as int) + " - "@ + match summary {
            Some(t) => t@,
            None => "(empty)"@,
        },
{
    let mut s = String::new();
    push_str(&mut s, "Slot ");
    push_signed_decimal(&mut s, slot as i64);
    push_str(&mut s, " - ");
    match summary {
        Some(t) => push_str(&mut s, t),
        None => push_str(&mut s, "(empty)"),
    }
    s
}

} // verus!
