//! How the agent surface routes a command: which layer of the PAL4 game
//! serves it, what is answered where nothing can serve it, how a mode
//! change is planned, and the time controls of the agent bridge.
use vstd::prelude::*;

use crate::director_logic::{failure, AgentErrorKind, AgentFailure};
use crate::modes::Pal4ModeIntent;

verus! {

/// The agent commands, by kind.
#[derive(Debug, Clone, Copy, PartialEq, Eq, Structural)]
pub enum AgentCommandKind {
    GetState,
    KeyInput,
    AxisInput,
    PauseTime,
    ResumeTime,
    StepTime,
    FastForward,
    Screenshot,
    LogTail,
    GetPerfMetrics,
    AdvanceDialog,
    SetCamera,
    TeleportPlayer,
    GetScriptGlobals,
    ScriptEval,
    SaveSlot,
    EnterNewGame,
    EnterLoadGame,
    LoadSlot,
    ExitGame,
    ChooseDialog,
    ChooseWorldMap,
    GetSceneTriggers,
    FireSceneTrigger,
    GetSceneObjects,
    InteractObject,
    SetDebugCamera,
    TraceStart,
    TraceStop,
    TraceDrain,
}

/// Commands served by the agent bridge alone, in every mode: input, time
/// control, screenshots, metrics and logs.
pub open spec fn is_bridge_command(kind: AgentCommandKind) -> bool {
    match kind {
        AgentCommandKind::KeyInput | AgentCommandKind::AxisInput | AgentCommandKind::PauseTime
        | AgentCommandKind::ResumeTime | AgentCommandKind::StepTime | AgentCommandKind::Screenshot
        | AgentCommandKind::LogTail | AgentCommandKind::GetPerfMetrics => true,
        _ => false,
    }
}

/// Commands that only buffer a choice in the shared session.
pub open spec fn is_session_command(kind: AgentCommandKind) -> bool {
    kind == AgentCommandKind::ChooseDialog || kind == AgentCommandKind::ChooseWorldMap
}

/// Commands that change the game mode.
pub open spec fn is_mode_control_command(kind: AgentCommandKind) -> bool {
    kind == AgentCommandKind::EnterNewGame || kind == AgentCommandKind::EnterLoadGame || kind
        == AgentCommandKind::ExitGame
}

/// Who serves a PAL4 agent command.
#[derive(Debug, Clone, Copy, PartialEq, Eq, Structural)]
pub enum Pal4CommandRoute {
    /// The agent bridge, in any mode.
    Bridge,
    /// The shared session, in any mode.
    Session,
    /// The dispatcher, which owns the mode graph.
    ModeControl,
    /// The active story director.
    Story,
    /// The menu fallback: no playthrough is running.
    Menu,
}

/// The route of a PAL4 command, given whether a story director is active:
/// bridge commands first, then session commands, then mode control; the
/// rest goes to the story director, or to the menu fallback without one.
pub fn pal4_command_route(kind: AgentCommandKind, story_active: bool) -> (r: Pal4CommandRoute)
    ensures
        is_bridge_command(kind) ==> r == Pal4CommandRoute::Bridge,
        !is_bridge_command(kind) && is_session_command(kind) ==> r == Pal4CommandRoute::Session,
        !is_bridge_command(kind) && !is_session_command(kind) && is_mode_control_command(kind) ==> r
            == Pal4CommandRoute::ModeControl,
        !is_bridge_command(kind) && !is_session_command(kind) && !is_mode_control_command(kind) ==> r == if story_active {
            Pal4CommandRoute::Story
        } else {
            Pal4CommandRoute::Menu
        },
{
    match kind {
        AgentCommandKind::KeyInput | AgentCommandKind::AxisInput | AgentCommandKind::PauseTime
        | AgentCommandKind::ResumeTime | AgentCommandKind::StepTime | AgentCommandKind::Screenshot
        | AgentCommandKind::LogTail | AgentCommandKind::GetPerfMetrics => Pal4CommandRoute::Bridge,
        AgentCommandKind::ChooseDialog | AgentCommandKind::ChooseWorldMap => Pal4CommandRoute::Session,
        AgentCommandKind::EnterNewGame | AgentCommandKind::EnterLoadGame | AgentCommandKind::ExitGame => {
            Pal4CommandRoute::ModeControl
        },
        _ => if story_active {
            Pal4CommandRoute::Story
        } else {
            Pal4CommandRoute::Menu
        },
    }
}

/// The command kinds the PAL4 session serves itself. The bridge-only
/// commands (input, time, screenshot, metrics, logs) never reach it, and
/// neither do those that no PAL4 handler backs.
pub open spec fn pal4_serves(kind: AgentCommandKind) -> bool {
    match kind {
        AgentCommandKind::GetState | AgentCommandKind::TeleportPlayer | AgentCommandKind::AdvanceDialog
        | AgentCommandKind::FastForward | AgentCommandKind::SaveSlot | AgentCommandKind::LoadSlot
        | AgentCommandKind::ScriptEval | AgentCommandKind::GetSceneTriggers | AgentCommandKind::GetSceneObjects
        | AgentCommandKind::GetScriptGlobals | AgentCommandKind::FireSceneTrigger
        | AgentCommandKind::InteractObject | AgentCommandKind::TraceStart | AgentCommandKind::TraceStop
        | AgentCommandKind::TraceDrain | AgentCommandKind::ChooseDialog | AgentCommandKind::ChooseWorldMap => true,
        _ => false,
    }
}

/// How the PAL4 session answers a command it does not serve: `None` for
/// the commands it serves, a `not_implemented` failure for every other.
pub fn pal4_session_refusal(kind: AgentCommandKind) -> (r: Option<AgentFailure>)
    ensures
        pal4_serves(kind) <==> r is None,
        r matches Some(f) ==> f.kind == AgentErrorKind::NotImplemented && f.message@
            == "command not implemented by the PAL4 session"@,
{
    match kind {
        AgentCommandKind::GetState | AgentCommandKind::TeleportPlayer | AgentCommandKind::AdvanceDialog
        | AgentCommandKind::FastForward | AgentCommandKind::SaveSlot | AgentCommandKind::LoadSlot
        | AgentCommandKind::ScriptEval | AgentCommandKind::GetSceneTriggers | AgentCommandKind::GetSceneObjects
        | AgentCommandKind::GetScriptGlobals | AgentCommandKind::FireSceneTrigger
        | AgentCommandKind::InteractObject | AgentCommandKind::TraceStart | AgentCommandKind::TraceStop
        | AgentCommandKind::TraceDrain | AgentCommandKind::ChooseDialog | AgentCommandKind::ChooseWorldMap => None,
        _ => Some(failure(AgentErrorKind::NotImplemented, "command not implemented by the PAL4 session")),
    }
}

/// The menu fallback's answer: `GetState` is answered (`None`: with a
/// snapshot of the bridge alone), every other command is refused.
pub fn menu_refusal(kind: AgentCommandKind) -> (r: Option<AgentFailure>)
    ensures
        kind == AgentCommandKind::GetState <==> r is None,
        r matches Some(f) ==> f.kind == AgentErrorKind::NotImplemented && f.message@
            == "command not available outside story mode (no active PAL4 playthrough)"@,
{
    match kind {
        AgentCommandKind::GetState => None,
        _ => Some(
            failure(
                AgentErrorKind::NotImplemented,
                "command not available outside story mode (no active PAL4 playthrough)",
            ),
        ),
    }
}

/// A mode-control command with its parameter.
#[derive(Debug, Clone, Copy, PartialEq, Eq, Structural)]
pub enum ModeControl {
    NewGame,
    LoadGame(i32),
    Exit,
}

/// What a mode-control command does.
#[derive(Debug, Clone)]
pub enum ModeControlPlan {
    /// Quit the application.
    Exit,
    /// Install the director for this intent.
    Enter(Pal4ModeIntent),
}

/// Plans a mode-control command: exiting needs nothing; entering a game
/// needs the asset path of the mounted playthrough.
pub fn plan_mode_control(command: ModeControl, asset_path: Option<String>) -> (r: Result<ModeControlPlan, AgentFailure>)
    ensures
        command is Exit ==> r matches Ok(ModeControlPlan::Exit),
        command !is Exit && asset_path is None ==> (r matches Err(f) && f.kind == AgentErrorKind::Internal && f.message@
            == "PAL4 launch asset path not set yet (no playthrough has been mounted)"@),
        command is NewGame && asset_path is Some ==> (r matches Ok(ModeControlPlan::Enter(Pal4ModeIntent::Story { asset_path: a }))
            && a@ == asset_path->0@),
        command matches ModeControl::LoadGame(slot) ==> (asset_path is Some ==> (r matches Ok(
            ModeControlPlan::Enter(Pal4ModeIntent::StoryFromSave { asset_path: a, slot: s }),
        ) && a@ == asset_path->0@ && s == slot)),
{
    match command {
        ModeControl::Exit => Ok(ModeControlPlan::Exit),
        _ => match asset_path {
            None => Err(
                failure(
                    AgentErrorKind::Internal,
                    "PAL4 launch asset path not set yet (no playthrough has been mounted)",
                ),
            ),
            Some(path) => match command {
                ModeControl::LoadGame(slot) => Ok(
                    ModeControlPlan::Enter(Pal4ModeIntent::StoryFromSave { asset_path: path, slot }),
                ),
                _ => Ok(ModeControlPlan::Enter(Pal4ModeIntent::Story { asset_path: path })),
            },
        },
    }
}

/// The agent bridge's time controls: whether the game clock is paused and
/// how many fixed-step frames are still owed.
#[derive(Debug, Clone, Copy, PartialEq, Eq, Structural)]
pub struct TimeControl {
    pub paused: bool,
    pub requested_steps: u32,
}

impl TimeControl {
    /// Pauses or resumes the clock; resuming drops the frames still owed,
    /// so the game does not tick twice.
    pub fn set_paused(&mut self, paused: bool)
        ensures
            final(self).paused == paused,
            final(self).requested_steps == if paused { old(self).requested_steps } else { 0 },
    {
        self.paused = paused;
        if !paused {
            self.requested_steps = 0;
        }
    }

    /// Asks for `frames` more fixed-step frames (saturating); refused while
    /// the clock runs.
    pub fn request_steps(&mut self, frames: u32) -> (r: Result<(), AgentFailure>)
        ensures
            !old(self).paused ==> (r matches Err(f) && f.kind == AgentErrorKind::Conflict && f.message@
                == "must pause time before requesting fixed-step frames"@ && *final(self) == *old(self)),
            old(self).paused ==> r is Ok && final(self).paused && final(self).requested_steps == (if old(
                self,
            ).requested_steps + frames <= u32::MAX {
                old(self).requested_steps + frames
            } else {
                u32::MAX as int
            }),
    {
        if !self.paused {
            return Err(failure(AgentErrorKind::Conflict, "must pause time before requesting fixed-step frames"));
        }
        if frames == 0 {
            return Ok(());
        }
        self.requested_steps = self.requested_steps.saturating_add(frames);
        Ok(())
    }
}

} // verus!
