//! The PAL4 scene transition: a loading overlay is painted, the load runs
//! while it covers the freeze, the overlay is held for a minimum dwell,
//! and then the next director takes over. The engine keeps the timers and
//! reports, per tick, whether the paint deadline and the hold have run
//! out; this module decides the phases and what each tick does.
use vstd::prelude::*;

use crate::persistent_state::PersistentStateView;
use crate::session::{Pal4Session, RuntimeSnapshot};

verus! {

/// Most frames counted as painted; the counter stops there.
pub const FRAMES_PAINTED_CAP: u32 = 1000;

/// What a transition does once its overlay is up.
pub enum Pal4TransitionAction<P, D, C> {
    /// Menu to New Game: nothing to load, the overlay only hides the swap.
    EnterStoryNew,
    /// Menu to Load Game: restore the snapshot read from `slot`.
    EnterStoryFromSave { snapshot: RuntimeSnapshot<P, D, C>, slot: i32 },
    /// In-game scene change requested by the story.
    ChangeScene { scene: String, block: String },
}

#[derive(Copy, Clone, Debug, PartialEq, Eq, Structural)]
pub enum TransitionPhase {
    /// Waiting until the overlay has been painted at least once.
    Painting,
    /// The next tick runs the load.
    Loading,
    /// Keeping the overlay up for its minimum dwell.
    Holding,
    /// Hand over to the next director.
    Done,
}

/// What one tick of the transition asks the engine to do.
#[derive(Copy, Clone, Debug, PartialEq, Eq, Structural)]
pub enum TransitionStep {
    /// Nothing this tick.
    Wait,
    /// Run the load; with `notify`, tell the overlay that it finished and
    /// restart the hold timer.
    Load { notify: bool },
    /// Run the load and hand over to the next director at once.
    LoadAndHandOff,
    /// Hand over to the next director; with `dismiss`, take the overlay
    /// down first.
    HandOff { dismiss: bool },
}

/// What running the load of an action amounts to.
pub enum LoadPlan {
    /// Nothing to load.
    Nothing,
    /// Restore the script globals of a save; then, when the save recorded
    /// a scene, load it and apply the snapshot.
    RestoreSave { globals: Vec<u32>, target: Option<(String, String)>, slot: i32 },
    /// Load the requested scene and report to the session whether it
    /// succeeded.
    ChangeScene { scene: String, block: String },
}

/// The scene and block that the overlay announces for an action (empty
/// for a new game).
pub open spec fn overlay_label<P, D, C>(action: Pal4TransitionAction<P, D, C>) -> (Seq<char>, Seq<char>) {
    match action {
        Pal4TransitionAction::EnterStoryNew => (Seq::empty(), Seq::empty()),
        Pal4TransitionAction::EnterStoryFromSave { snapshot, .. } => (snapshot.scene_name@, snapshot.block_name@),
        Pal4TransitionAction::ChangeScene { scene, block } => (scene@, block@),
    }
}

pub fn overlay_request<P, D, C>(action: &Pal4TransitionAction<P, D, C>) -> (r: (String, String))
    ensures
        (r.0@, r.1@) == overlay_label(*action),
{
    match action {
        Pal4TransitionAction::EnterStoryNew => (String::new(), String::new()),
        Pal4TransitionAction::EnterStoryFromSave { snapshot, .. } => {
            (snapshot.scene_name.clone(), snapshot.block_name.clone())
        },
        Pal4TransitionAction::ChangeScene { scene, block } => (scene.clone(), block.clone()),
    }
}

/// The load that running `action` performs.
pub fn load_plan<P, D, C>(action: Pal4TransitionAction<P, D, C>) -> (r: LoadPlan)
    ensures
        action is EnterStoryNew ==> r is Nothing,
        action matches Pal4TransitionAction::EnterStoryFromSave { snapshot, slot } ==> (r matches
            LoadPlan::RestoreSave { globals, target, slot: s } && s == slot && globals@
            == snapshot.script_globals@ && (snapshot.scene_name@.len() == 0 <==> target is None) && (
        target matches Some(sb) ==> sb.0@ == snapshot.scene_name@ && sb.1@ == snapshot.block_name@)),
        action matches Pal4TransitionAction::ChangeScene { scene, block } ==> (r matches LoadPlan::ChangeScene {
            scene: s,
            block: b,
        } && s@ == scene@ && b@ == block@),
{
    match action {
        Pal4TransitionAction::EnterStoryNew => LoadPlan::Nothing,
        Pal4TransitionAction::EnterStoryFromSave { snapshot, slot } => {
            let RuntimeSnapshot { scene_name, block_name, script_globals, .. } = snapshot;
            let target = if scene_name.as_str().is_empty() {
                None
            } else {
                Some((scene_name, block_name))
            };
            LoadPlan::RestoreSave { globals: script_globals, target, slot }
        },
        Pal4TransitionAction::ChangeScene { scene, block } => LoadPlan::ChangeScene { scene, block },
    }
}

/// Phase after one tick, and what the tick does. `silent` transitions show
/// no overlay and need neither the paint nor the hold.
pub open spec fn tick(
    phase: TransitionPhase,
    silent: bool,
    painted_once: bool,
    paint_timed_out: bool,
    hold_expired: bool,
) -> (TransitionPhase, TransitionStep) {
    if silent {
        match phase {
            TransitionPhase::Painting => (TransitionPhase::Loading, TransitionStep::Wait),
            TransitionPhase::Loading => (TransitionPhase::Done, TransitionStep::LoadAndHandOff),
            TransitionPhase::Holding => (TransitionPhase::Done, TransitionStep::HandOff { dismiss: false }),
            TransitionPhase::Done => (TransitionPhase::Done, TransitionStep::HandOff { dismiss: false }),
        }
    } else {
        match phase {
            TransitionPhase::Painting => if painted_once || paint_timed_out {
                (TransitionPhase::Loading, TransitionStep::Wait)
            } else {
                (TransitionPhase::Painting, TransitionStep::Wait)
            },
            TransitionPhase::Loading => (TransitionPhase::Holding, TransitionStep::Load { notify: true }),
            TransitionPhase::Holding => if hold_expired {
                (TransitionPhase::Done, TransitionStep::Wait)
            } else {
                (TransitionPhase::Holding, TransitionStep::Wait)
            },
            TransitionPhase::Done => (TransitionPhase::Done, TransitionStep::HandOff { dismiss: true }),
        }
    }
}

/// Phase bookkeeping of a transition director.
pub struct Pal4TransitionMachine {
    pub phase: TransitionPhase,
    pub frames_painted: u32,
    pub silent: bool,
}

impl Pal4TransitionMachine {
    pub fn new() -> (r: Self)
        ensures
            r.phase == TransitionPhase::Painting,
            r.frames_painted == 0,
            !r.silent,
    {
        Pal4TransitionMachine { phase: TransitionPhase::Painting, frames_painted: 0, silent: false }
    }

    pub fn set_silent(&mut self, silent: bool)
        ensures
            *final(self) == (Pal4TransitionMachine { silent, ..*old(self) }),
    {
        self.silent = silent;
    }

    /// The director became active: start painting afresh.
    pub fn activate(&mut self)
        ensures
            *final(self) == (Pal4TransitionMachine {
                phase: TransitionPhase::Painting,
                frames_painted: 0,
                ..*old(self)
            }),
    {
        self.frames_painted = 0;
        self.phase = TransitionPhase::Painting;
    }

    /// One engine tick.
    pub fn update(&mut self, paint_timed_out: bool, hold_expired: bool) -> (step: TransitionStep)
        ensures
            (final(self).phase, step) == tick(
                old(self).phase,
                old(self).silent,
                old(self).frames_painted >= 1,
                paint_timed_out,
                hold_expired,
            ),
            final(self).frames_painted == old(self).frames_painted,
            final(self).silent == old(self).silent,
    {
        if self.silent {
            match self.phase {
                TransitionPhase::Painting => {
                    self.phase = TransitionPhase::Loading;
                    TransitionStep::Wait
                },
                TransitionPhase::Loading => {
                    self.phase = TransitionPhase::Done;
                    TransitionStep::LoadAndHandOff
                },
                TransitionPhase::Holding => {
                    self.phase = TransitionPhase::Done;
                    TransitionStep::HandOff { dismiss: false }
                },
                TransitionPhase::Done => TransitionStep::HandOff { dismiss: false },
            }
        } else {
            match self.phase {
                TransitionPhase::Painting => {
                    if self.frames_painted >= 1 || paint_timed_out {
                        self.phase = TransitionPhase::Loading;
                    }
                    TransitionStep::Wait
                },
                TransitionPhase::Loading => {
                    self.phase = TransitionPhase::Holding;
                    TransitionStep::Load { notify: true }
                },
                TransitionPhase::Holding => {
                    if hold_expired {
                        self.phase = TransitionPhase::Done;
                    }
                    TransitionStep::Wait
                },
                TransitionPhase::Done => TransitionStep::HandOff { dismiss: true },
            }
        }
    }

    /// A frame is being drawn: returns whether the overlay is to be
    /// rendered, and counts the painted frame (up to the cap).
    pub fn render_frame(&mut self) -> (render: bool)
        ensures
            render == (old(self).phase != TransitionPhase::Done),
            final(self).phase == old(self).phase,
            final(self).silent == old(self).silent,
            final(self).frames_painted == if render && old(self).frames_painted < FRAMES_PAINTED_CAP {
                old(self).frames_painted + 1
            } else {
                old(self).frames_painted as int
            },
    {
        if self.phase == TransitionPhase::Done {
            return false;
        }
        if self.frames_painted < FRAMES_PAINTED_CAP {
            self.frames_painted = self.frames_painted + 1;
        }
        true
    }
}

/// Leader and control lock to re-apply after a scene swap.
#[derive(Copy, Clone, Debug, PartialEq, Eq, Structural)]
pub struct SceneSwapOutcome {
    pub leader: usize,
    pub player_locked: bool,
}

/// The session side of a scene swap, given how the engine's load of the
/// scene went (`loaded`): after a failed load the session is left as it
/// was and the load's error is handed back; after a successful one the
/// session records the new scene and block and hands back the leader and
/// the control lock that the fresh scene is to take over.
pub fn swap_pal4_scene<P, D, C, L>(
    session: &mut Pal4Session<P, D, C>,
    scene_name: &str,
    block_name: &str,
    loaded: Result<(), L>,
) -> (r: Result<SceneSwapOutcome, L>)
    ensures
        loaded matches Err(e) ==> r == Err::<SceneSwapOutcome, L>(e) && final(session)@ == old(session)@,
        loaded is Ok ==> final(session)@ == (PersistentStateView {
            scene_name: scene_name@,
            block_name: block_name@,
            ..old(session)@
        }),
        loaded is Ok ==> r == Ok::<SceneSwapOutcome, L>(
            SceneSwapOutcome { leader: old(session)@.leader, player_locked: old(session)@.player_locked },
        ),
{
    match loaded {
        Err(e) => Err(e),
        Ok(()) => {
            let state = session.state_mut();
            state.set_scene(String::from_str(scene_name), String::from_str(block_name));
            Ok(SceneSwapOutcome { leader: state.leader(), player_locked: state.player_locked() })
        },
    }
}

/// A silent transition hands over to the next director on its second tick,
/// after running the load on that same tick, whatever the timers say.
pub proof fn law_silent_transition_hands_off_on_second_tick(a: bool, b: bool, c: bool, d: bool, e: bool, f: bool)
    ensures
        ({
            let (p1, s1) = tick(TransitionPhase::Painting, true, a, b, c);
            let (p2, s2) = tick(p1, true, d, e, f);
            &&& s1 == TransitionStep::Wait
            &&& s2 == TransitionStep::LoadAndHandOff
            &&& p2 == TransitionPhase::Done
        }),
{
}

/// A transition with an overlay runs the load exactly on the tick after
/// the overlay was painted (or its paint deadline passed), holds until the
/// hold runs out, and hands over on the following tick with the overlay
/// dismissed.
pub proof fn law_overlay_transition_phases(painted_once: bool, paint_timed_out: bool, hold_expired: bool)
    requires
        painted_once || paint_timed_out,
        hold_expired,
    ensures
        ({
            let (p1, s1) = tick(TransitionPhase::Painting, false, painted_once, paint_timed_out, false);
            let (p2, s2) = tick(p1, false, true, false, false);
            let (p3, s3) = tick(p2, false, true, false, hold_expired);
            let (p4, s4) = tick(p3, false, true, false, false);
            &&& p1 == TransitionPhase::Loading && s1 == TransitionStep::Wait
            &&& p2 == TransitionPhase::Holding && s2 == (TransitionStep::Load { notify: true })
            &&& p3 == TransitionPhase::Done && s3 == TransitionStep::Wait
            &&& s4 == (TransitionStep::HandOff { dismiss: true })
        }),
{
}

/// While the overlay is neither painted nor past its deadline, the
/// transition keeps waiting and loads nothing.
pub proof fn law_no_load_before_paint(hold_expired: bool)
    ensures
        tick(TransitionPhase::Painting, false, false, false, hold_expired) == (TransitionPhase::Painting, TransitionStep::Wait),
{
}

} // verus!
