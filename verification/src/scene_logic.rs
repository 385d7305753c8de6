//! The decisions of PAL4 scene loading: the party members, the stage
//! cursor of the incremental loader, what becomes of each GOB entry and
//! EVF event region, and the by-name lookup of the loaded objects.
use vstd::prelude::*;

use crate::text::str_eq;

verus! {

/// The four party members.
#[derive(Debug, Clone, Copy, PartialEq, Eq, Structural)]
pub enum Player {
    YunTianhe,
    HanLingsha,
    LiuMengli,
    MurongZiying,
}

pub open spec fn player_name(p: Player) -> Seq<char> {
    match p {
        Player::YunTianhe => seq!['Y', 'u', 'n', 'T', 'i', 'a', 'n', 'h', 'e'],
        Player::HanLingsha => seq!['H', 'a', 'n', 'L', 'i', 'n', 'g', 's', 'h', 'a'],
        Player::LiuMengli => seq!['L', 'i', 'u', 'M', 'e', 'n', 'g', 'l', 'i'],
        Player::MurongZiying => seq!['M', 'u', 'r', 'o', 'n', 'g', 'Z', 'i', 'y', 'i', 'n', 'g'],
    }
}

/// The actor model each party member is loaded from.
pub open spec fn player_actor_name(p: Player) -> Seq<char> {
    match p {
        Player::YunTianhe => seq!['1', '0', '1'],
        Player::HanLingsha => seq!['1', '0', '3'],
        Player::LiuMengli => seq!['1', '0', '6'],
        Player::MurongZiying => seq!['1', '0', '5'],
    }
}

/// Party slot of each member.
pub open spec fn player_slot(p: Player) -> usize {
    match p {
        Player::YunTianhe => 0,
        Player::HanLingsha => 1,
        Player::LiuMengli => 2,
        Player::MurongZiying => 3,
    }
}

impl Player {
    pub fn name(&self) -> (r: &'static str)
        ensures
            r@ == player_name(*self),
    {
        proof {
            reveal_strlit("YunTianhe");
            reveal_strlit("HanLingsha");
            reveal_strlit("LiuMengli");
            reveal_strlit("MurongZiying");
        }
        match self {
            Player::YunTianhe => "YunTianhe",
            Player::HanLingsha => "HanLingsha",
            Player::LiuMengli => "LiuMengli",
            Player::MurongZiying => "MurongZiying",
        }
    }

    pub fn actor_name(&self) -> (r: &'static str)
        ensures
            r@ == player_actor_name(*self),
    {
        proof {
            reveal_strlit("101");
            reveal_strlit("103");
            reveal_strlit("106");
            reveal_strlit("105");
        }
        match self {
            Player::YunTianhe => "101",
            Player::HanLingsha => "103",
            Player::LiuMengli => "106",
            Player::MurongZiying => "105",
        }
    }
}

/// The member in party slot `player_id`.
pub fn get_player_metadata(player_id: usize) -> (r: Player)
    requires
        player_id < 4,
    ensures
        player_slot(r) == player_id,
{
    match player_id {
        0 => Player::YunTianhe,
        1 => Player::HanLingsha,
        2 => Player::LiuMengli,
        _ => Player::MurongZiying,
    }
}

/// The stages of the incremental scene loader, in order.
#[derive(Debug, Clone, Copy, PartialEq, Eq, Structural)]
pub enum LoaderStage {
    Bsp,
    SkyClipWater,
    FloorWall,
    PlayersEventsController,
    Npcs,
    GobObjects,
    Finalize,
}

/// Number of stages; a cursor at this value is exhausted.
pub const STAGE_COUNT: u8 = 7;

pub open spec fn stage_at(i: u8) -> LoaderStage {
    if i == 0 {
        LoaderStage::Bsp
    } else if i == 1 {
        LoaderStage::SkyClipWater
    } else if i == 2 {
        LoaderStage::FloorWall
    } else if i == 3 {
        LoaderStage::PlayersEventsController
    } else if i == 4 {
        LoaderStage::Npcs
    } else if i == 5 {
        LoaderStage::GobObjects
    } else {
        LoaderStage::Finalize
    }
}

/// Cumulative load progress, in percent, once stage `i` has run.
pub open spec fn stage_percent(i: u8) -> u32 {
    if i == 0 {
        20
    } else if i == 1 {
        35
    } else if i == 2 {
        50
    } else if i == 3 {
        70
    } else if i == 4 {
        85
    } else if i == 5 {
        95
    } else {
        100
    }
}

/// Outcome of one loader step: the progress after it, and whether the
/// loader is finished (after the last stage, or after a failed stage).
#[derive(Debug, Clone, Copy, PartialEq, Eq, Structural)]
pub struct StageProgress {
    pub percent: u32,
    pub done: bool,
}

/// One loader step from cursor `next`, given whether the stage it runs
/// succeeds: the cursor after it and the progress it reports.
pub open spec fn cursor_step(next: u8, succeeded: bool) -> (u8, StageProgress) {
    if next >= STAGE_COUNT {
        (next, StageProgress { percent: 100, done: false })
    } else if next == STAGE_COUNT - 1 {
        (STAGE_COUNT, StageProgress { percent: 100, done: true })
    } else {
        (
            if succeeded { (next + 1) as u8 } else { STAGE_COUNT },
            StageProgress { percent: stage_percent(next), done: !succeeded },
        )
    }
}

/// The cursor of a fresh loader after its first `j` steps, the stage run
/// by step `i` succeeding exactly when `outcomes[i]`.
pub open spec fn cursor_after(outcomes: Seq<bool>, j: nat) -> u8
    decreases j,
{
    if j == 0 {
        0
    } else {
        cursor_step(cursor_after(outcomes, (j - 1) as nat), outcomes[j - 1]).0
    }
}

/// The progress that step `j` (counted from 0) of a fresh loader reports.
pub open spec fn progress_at(outcomes: Seq<bool>, j: nat) -> StageProgress {
    cursor_step(cursor_after(outcomes, j), outcomes[j as int]).1
}

/// The number of the step (counted from 1) that finishes a loader whose
/// stages from `i` on have the given outcomes: the first failing stage
/// before the last one, or the last stage.
pub open spec fn finishing_step(outcomes: Seq<bool>, i: int) -> int
    decreases 6 - i,
{
    if i >= 6 {
        7
    } else if i < outcomes.len() && !outcomes[i] {
        i + 1
    } else {
        finishing_step(outcomes, i + 1)
    }
}

proof fn lemma_finishing_step(outcomes: Seq<bool>, i: int)
    requires
        0 <= i <= 6,
    ensures
        i + 1 <= finishing_step(outcomes, i) <= 7,
        forall|j: int| i <= j < finishing_step(outcomes, i) - 1 && j < outcomes.len() ==> outcomes[j],
        finishing_step(outcomes, i) < 7 ==> finishing_step(outcomes, i) - 1 < outcomes.len() && !outcomes[finishing_step(
            outcomes,
            i,
        ) - 1],
    decreases 6 - i,
{
    if i < 6 && !(i < outcomes.len() && !outcomes[i]) {
        lemma_finishing_step(outcomes, i + 1);
    }
}

proof fn lemma_cursor_after(outcomes: Seq<bool>, j: nat)
    requires
        j <= outcomes.len(),
    ensures
        cursor_after(outcomes, j) == if j < finishing_step(outcomes, 0) { j as u8 } else { STAGE_COUNT },
    decreases j,
{
    lemma_finishing_step(outcomes, 0);
    if j > 0 {
        lemma_cursor_after(outcomes, (j - 1) as nat);
        let k = (j - 1) as int;
        if k < finishing_step(outcomes, 0) - 1 {
            assert(outcomes[k]);
        }
    }
}

/// A loader whose stages have the given outcomes, run from `new()` one
/// step per outcome: the step that reports done is the 7th, or the step
/// of the first failing stage before the last; every earlier step reports
/// not done; reported progress lies within 20 to 100 percent and never
/// decreases; and every step after the finishing one reports 100 percent
/// and not done.
pub proof fn law_loader_run(outcomes: Seq<bool>)
    ensures
        1 <= finishing_step(outcomes, 0) <= 7,
        forall|i: int| 0 <= i < finishing_step(outcomes, 0) - 1 && i < outcomes.len() ==> outcomes[i],
        finishing_step(outcomes, 0) < 7 ==> !outcomes[finishing_step(outcomes, 0) - 1],
        forall|j: nat|
            j < outcomes.len() ==> (#[trigger] progress_at(outcomes, j)).done == (j + 1 == finishing_step(outcomes, 0)),
        forall|j: nat| j < outcomes.len() ==> 20 <= (#[trigger] progress_at(outcomes, j)).percent <= 100,
        forall|a: nat, b: nat|
            a <= b < outcomes.len() ==> (#[trigger] progress_at(outcomes, a)).percent <= (#[trigger] progress_at(
                outcomes,
                b,
            )).percent,
        forall|j: nat|
            j < outcomes.len() && j + 1 > finishing_step(outcomes, 0) ==> #[trigger] progress_at(outcomes, j)
                == (StageProgress { percent: 100, done: false }),
{
    lemma_finishing_step(outcomes, 0);
    let f = finishing_step(outcomes, 0);
    assert forall|j: nat| j < outcomes.len() implies {
        &&& (#[trigger] progress_at(outcomes, j)).done == (j + 1 == f)
        &&& 20 <= progress_at(outcomes, j).percent <= 100
        &&& progress_at(outcomes, j).percent == if j < f && j < 6 { stage_percent(j as u8) } else { 100 }
        &&& j + 1 > f ==> progress_at(outcomes, j) == (StageProgress { percent: 100, done: false })
    } by {
        lemma_cursor_after(outcomes, j);
        if j < f - 1 {
            assert(outcomes[j as int]);
        }
    }
    assert forall|a: nat, b: nat| a <= b < outcomes.len() implies (#[trigger] progress_at(outcomes, a)).percent
        <= (#[trigger] progress_at(outcomes, b)).percent by {
        if a < f && a < 6 && b < f && b < 6 {
            assert(stage_percent(a as u8) <= stage_percent(b as u8));
        }
    }
}

/// Position of the incremental scene loader: the next stage to run.
pub struct SceneLoadCursor {
    next_stage: u8,
}

impl SceneLoadCursor {
    #[verifier::type_invariant]
    spec fn in_range(self) -> bool {
        self.next_stage <= STAGE_COUNT
    }

    pub closed spec fn next_spec(self) -> u8 {
        self.next_stage
    }

    pub fn new() -> (r: Self)
        ensures
            r.next_spec() == 0,
    {
        SceneLoadCursor { next_stage: 0 }
    }

    /// The stage the next step runs, or `None` once the loader is done.
    pub fn current(&self) -> (r: Option<LoaderStage>)
        ensures
            self.next_spec() <= STAGE_COUNT,
            self.next_spec() < STAGE_COUNT ==> r == Some(stage_at(self.next_spec())),
            self.next_spec() >= STAGE_COUNT ==> r is None,
    {
        proof {
            use_type_invariant(self);
        }
        match self.next_stage {
            0 => Some(LoaderStage::Bsp),
            1 => Some(LoaderStage::SkyClipWater),
            2 => Some(LoaderStage::FloorWall),
            3 => Some(LoaderStage::PlayersEventsController),
            4 => Some(LoaderStage::Npcs),
            5 => Some(LoaderStage::GobObjects),
            6 => Some(LoaderStage::Finalize),
            _ => None,
        }
    }

    /// Records the run of the current stage. The last stage finishes the
    /// loader whatever its result; an earlier stage that failed finishes
    /// it with that error; otherwise the cursor moves on. Stepping an
    /// exhausted loader reports full progress and nothing more.
    pub fn complete(&mut self, succeeded: bool) -> (r: StageProgress)
        ensures
            old(self).next_spec() >= STAGE_COUNT ==> r == (StageProgress { percent: 100, done: false })
                && final(self).next_spec() == old(self).next_spec(),
            old(self).next_spec() == STAGE_COUNT - 1 ==> r == (StageProgress { percent: 100, done: true })
                && final(self).next_spec() == STAGE_COUNT,
            old(self).next_spec() < STAGE_COUNT - 1 ==> r == (StageProgress {
                percent: stage_percent(old(self).next_spec()),
                done: !succeeded,
            }) && final(self).next_spec() == if succeeded {
                (old(self).next_spec() + 1) as u8
            } else {
                STAGE_COUNT
            },
            (final(self).next_spec(), r) == cursor_step(old(self).next_spec(), succeeded),
    {
        proof {
            use_type_invariant(&*self);
        }
        let stage = self.next_stage;
        if stage >= STAGE_COUNT {
            return StageProgress { percent: 100, done: false };
        }
        if stage == STAGE_COUNT - 1 {
            self.next_stage = STAGE_COUNT;
            return StageProgress { percent: 100, done: true };
        }
        let percent: u32 = match stage {
            0 => 20,
            1 => 35,
            2 => 50,
            3 => 70,
            4 => 85,
            _ => 95,
        };
        if succeeded {
            self.next_stage = stage + 1;
        } else {
            self.next_stage = STAGE_COUNT;
        }
        StageProgress { percent, done: !succeeded }
    }
}

/// The kinds of GOB object entries that scene loading tells apart.
#[derive(Debug, Clone, Copy, PartialEq, Eq, Structural)]
pub enum GobObjectKind {
    Generic,
    Marker,
    Effect,
    Sound,
    Action,
    Other,
}

/// What a GOB entry says of itself, as plain values.
#[derive(Debug, Clone, Copy, PartialEq, Eq, Structural)]
pub struct GobEntryFacts {
    pub kind: GobObjectKind,
    /// Its object name, folder and file name all decoded.
    pub names_decoded: bool,
    pub initially_hidden: bool,
    /// Cutscene-only set dressing, revealed later by the plot script.
    pub hidden_cutscene_prop: bool,
    /// An ACTION entry that plays its animation when the block loads.
    pub action_default_play: bool,
    pub action_play_times: Option<i32>,
    pub action_holding_end: bool,
}

/// How a loaded object plays its own animation.
#[derive(Debug, Clone, Copy, PartialEq, Eq, Structural)]
pub struct ObjectAnimation {
    pub looping: bool,
    pub hold_end: bool,
}

/// What scene loading makes of a GOB entry.
#[derive(Debug, Clone, Copy, PartialEq, Eq, Structural)]
pub enum GobObjectPlan {
    /// No object entity (an effect, a sound emitter, or undecodable names).
    Skip,
    /// An object entity: an empty marker, or the loaded model; with its
    /// initial visibility, whether it takes part in collision and
    /// interaction, and the animation it starts playing.
    Spawn { marker: bool, visible: bool, enabled: bool, animation: Option<ObjectAnimation> },
}

pub open spec fn gob_plan(e: GobEntryFacts) -> GobObjectPlan {
    if !e.names_decoded || e.kind == GobObjectKind::Effect || e.kind == GobObjectKind::Sound {
        GobObjectPlan::Skip
    } else {
        let play_times: i32 = match e.action_play_times {
            Some(t) => t,
            None => -1i32,
        };
        let looping = play_times < 0;
        GobObjectPlan::Spawn {
            marker: e.kind == GobObjectKind::Marker,
            visible: !(e.kind == GobObjectKind::Marker || e.initially_hidden || e.hidden_cutscene_prop),
            enabled: !e.hidden_cutscene_prop,
            animation: if e.kind == GobObjectKind::Action && e.action_default_play {
                Some(ObjectAnimation { looping, hold_end: !looping && e.action_holding_end })
            } else {
                None
            },
        }
    }
}

/// What becomes of one GOB entry. A negative play count, the default when
/// none is given, repeats forever; holding the last frame only matters
/// for a finite count.
pub fn plan_gob_object(e: GobEntryFacts) -> (r: GobObjectPlan)
    ensures
        r == gob_plan(e),
{
    if !e.names_decoded {
        return GobObjectPlan::Skip;
    }
    match e.kind {
        GobObjectKind::Effect | GobObjectKind::Sound => GobObjectPlan::Skip,
        _ => {
            let marker = e.kind == GobObjectKind::Marker;
            let initially_hidden = marker || e.initially_hidden || e.hidden_cutscene_prop;
            let animation = if e.kind == GobObjectKind::Action && e.action_default_play {
                let play_times = match e.action_play_times {
                    Some(t) => t,
                    None => -1,
                };
                let looping = play_times < 0;
                Some(ObjectAnimation { looping, hold_end: !looping && e.action_holding_end })
            } else {
                None
            };
            GobObjectPlan::Spawn { marker, visible: !initially_hidden, enabled: !e.hidden_cutscene_prop, animation }
        },
    }
}

/// An EVF event region becomes a collision trigger only when it is a quad
/// (4 vertices) or a box (8 vertices).
pub fn is_trigger_region(vertex_count: u32) -> (r: bool)
    ensures
        r == (vertex_count == 4 || vertex_count == 8),
{
    vertex_count == 4 || vertex_count == 8
}

/// An NPC starts visible, and takes part in the scene, exactly when its
/// `default_visible` flag is 1.
pub fn npc_starts_visible(default_visible: i32) -> (r: bool)
    ensures
        r == (default_visible == 1),
{
    default_visible == 1
}

/// Position of the first name equal to `name`.
pub fn object_index_by_name(names: &Vec<String>, name: &str) -> (r: Option<usize>)
    ensures
        r matches Some(i) ==> i < names.len() && names@[i as int]@ == name@ && forall|j: int|
            0 <= j < i ==> #[trigger] names@[j]@ != name@,
        r is None ==> forall|j: int| 0 <= j < names.len() ==> #[trigger] names@[j]@ != name@,
{
    let mut i: usize = 0;
    while i < names.len()
        invariant
            i <= names.len(),
            forall|j: int| 0 <= j < i ==> #[trigger] names@[j]@ != name@,
        decreases names.len() - i,
    {
        if str_eq(names[i].as_str(), name) {
            return Some(i);
        }
        i = i + 1;
    }
    None
}

/// The name at position `i` repeats an earlier one.
pub open spec fn repeats_earlier(names: Seq<String>, i: int) -> bool {
    exists|j: int| 0 <= j < i && #[trigger] names[j]@ == names[i]@
}

/// Positions of the names that repeat an earlier one, ascending: those
/// objects are shadowed, since a lookup by name finds the first.
pub fn duplicate_name_indices(names: &Vec<String>) -> (r: Vec<usize>)
    ensures
        forall|k: int| 0 <= k < r.len() ==> #[trigger] r@[k] < names.len() && repeats_earlier(names@, r@[k] as int),
        forall|i: int| 0 <= i < names.len() && #[trigger] repeats_earlier(names@, i) ==> r@.contains(i as usize),
        forall|a: int, b: int| 0 <= a < b < r.len() ==> #[trigger] r@[a] < #[trigger] r@[b],
{
    let mut out: Vec<usize> = Vec::new();
    let mut i: usize = 0;
    while i < names.len()
        invariant
            i <= names.len(),
            forall|k: int| 0 <= k < out.len() ==> #[trigger] out@[k] < i && repeats_earlier(names@, out@[k] as int),
            forall|x: int| 0 <= x < i && #[trigger] repeats_earlier(names@, x) ==> out@.contains(x as usize),
            forall|a: int, b: int| 0 <= a < b < out.len() ==> #[trigger] out@[a] < #[trigger] out@[b],
        decreases names.len() - i,
    {
        let earlier = object_index_by_name(names, names[i].as_str());
        let ghost before = out@;
        match earlier {
            Some(j) => {
                if j < i {
                    out.push(i);
                    proof {
                        assert(repeats_earlier(names@, i as int));
                        assert forall|x: int| 0 <= x < i + 1 && #[trigger] repeats_earlier(names@, x) implies out@.contains(x as usize) by {
                            if x < i {
                                let t = choose|t: int| 0 <= t < before.len() && before[t] == x as usize;
                                assert(out@[t] == x as usize);
                            } else {
                                assert(out@[out@.len() - 1] == x as usize);
                            }
                        }
                    }
                } else {
                    proof {
                        assert(!repeats_earlier(names@, i as int));
                    }
                }
            },
            None => {
                proof {
                    assert(names@[i as int]@ == names@[i as int]@);
                }
            },
        }
        i = i + 1;
    }
    out
}

/// The loaded objects that get an interaction trigger: those whose GOB
/// entry names a research (examine) function. `gob_index[i]` is the GOB
/// entry of object `i`, and `research[g]` the research function of GOB
/// entry `g`. Returns `(object, GOB entry)` pairs in object order.
pub open spec fn interactable(gob_index: Seq<usize>, research: Seq<String>, i: int) -> bool {
    gob_index[i] < research.len() && research[gob_index[i] as int]@.len() > 0
}

pub fn interactable_objects(gob_index: &Vec<usize>, research: &Vec<String>) -> (r: Vec<(usize, usize)>)
    ensures
        forall|k: int|
            0 <= k < r.len() ==> {
                let (i, g) = #[trigger] r@[k];
                &&& i < gob_index.len()
                &&& g == gob_index@[i as int]
                &&& interactable(gob_index@, research@, i as int)
            },
        forall|i: int| 0 <= i < gob_index.len() && #[trigger] interactable(gob_index@, research@, i) ==> exists|k: int|
            0 <= k < r.len() && r@[k].0 == i,
        forall|a: int, b: int| 0 <= a < b < r.len() ==> #[trigger] r@[a].0 < #[trigger] r@[b].0,
{
    let mut out: Vec<(usize, usize)> = Vec::new();
    let mut i: usize = 0;
    while i < gob_index.len()
        invariant
            i <= gob_index.len(),
            forall|k: int|
                0 <= k < out.len() ==> {
                    let (x, g) = #[trigger] out@[k];
                    &&& x < i
                    &&& g == gob_index@[x as int]
                    &&& interactable(gob_index@, research@, x as int)
                },
            forall|x: int| 0 <= x < i && #[trigger] interactable(gob_index@, research@, x) ==> exists|k: int|
                0 <= k < out.len() && out@[k].0 == x,
            forall|a: int, b: int| 0 <= a < b < out.len() ==> #[trigger] out@[a].0 < #[trigger] out@[b].0,
        decreases gob_index.len() - i,
    {
        let g = gob_index[i];
        if g < research.len() && !research[g].as_str().is_empty() {
            let ghost before = out@;
            out.push((i, g));
            proof {
                assert(interactable(gob_index@, research@, i as int));
                assert forall|x: int| 0 <= x < i + 1 && #[trigger] interactable(gob_index@, research@, x) implies exists|k: int|
                    0 <= k < out.len() && out@[k].0 == x by {
                    if x < i {
                        let k = choose|k: int| 0 <= k < before.len() && before[k].0 == x;
                        assert(out@[k].0 == x);
                    } else {
                        assert(out@[out@.len() - 1].0 == x);
                    }
                }
            }
        } else {
            proof {
                assert(!interactable(gob_index@, research@, i as int));
            }
        }
        i = i + 1;
    }
    out
}

/// A GOB object as agents see it.
pub struct ObjectListing<P> {
    pub name: String,
    pub kind: String,
    pub position: P,
    pub visible: bool,
    pub research_function: String,
}

/// What a GOB entry says of itself for a listing: its logical name, the
/// name of its object kind (when known), its research function and its
/// load-time position.
pub struct GobListingFacts<P> {
    pub name: String,
    pub kind: Option<String>,
    pub research_function: String,
    pub position: P,
}

/// The listing of a GOB entry: the live position and visibility of the
/// first loaded object with its name, or its load-time position, hidden,
/// when no object with that name was loaded; an unknown kind reads
/// `unknown`.
pub fn object_listing<P: Copy>(entry: &GobListingFacts<P>, names: &Vec<String>, live: &Vec<(P, bool)>) -> (r: ObjectListing<P>)
    requires
        names.len() == live.len(),
    ensures
        r.name@ == entry.name@,
        r.research_function@ == entry.research_function@,
        entry.kind matches Some(k) ==> r.kind@ == k@,
        entry.kind is None ==> r.kind@ == "unknown"@,
        (exists|i: int| 0 <= i < names.len() && #[trigger] names@[i]@ == entry.name@) ==> ({
            let i = choose|i: int|
                0 <= i < names.len() && #[trigger] names@[i]@ == entry.name@ && forall|j: int|
                    0 <= j < i ==> names@[j]@ != entry.name@;
            r.position == live@[i].0 && r.visible == live@[i].1
        }),
        !(exists|i: int| 0 <= i < names.len() && #[trigger] names@[i]@ == entry.name@) ==> r.position == entry.position
            && !r.visible,
{
    let (position, visible) = match object_index_by_name(names, entry.name.as_str()) {
        Some(i) => {
            proof {
                let c = choose|c: int|
                    0 <= c < names.len() && #[trigger] names@[c]@ == entry.name@ && forall|j: int|
                        0 <= j < c ==> names@[j]@ != entry.name@;
                if c < i {
                    assert(names@[c]@ != entry.name@);
                } else if c > i {
                    assert(names@[i as int]@ != entry.name@);
                }
            }
            live[i]
        },
        None => (entry.position, false),
    };
    let kind = match &entry.kind {
        Some(k) => k.clone(),
        None => crate::text::string_from("unknown"),
    };
    ObjectListing {
        name: entry.name.clone(),
        kind,
        position,
        visible,
        research_function: entry.research_function.clone(),
    }
}

/// The script function an event trigger runs: the function of the event
/// whose region fired (`fired`, an index into the block's events), or
/// `None` when nothing fired, the index names no event or its function
/// name could not be decoded (`functions[i]` is `None`). The engine then
/// tries an interaction instead.
pub fn fired_event_function(fired: Option<usize>, functions: &Vec<Option<String>>) -> (r: Option<String>)
    ensures
        match fired {
            Some(i) if i < functions.len() => match functions@[i as int] {
                Some(f) => r matches Some(g) && g@ == f@,
                None => r is None,
            },
            _ => r is None,
        },
{
    match fired {
        Some(i) => {
            if i < functions.len() {
                match &functions[i] {
                    Some(f) => Some(f.clone()),
                    None => None,
                }
            } else {
                None
            }
        },
        None => None,
    }
}

/// A hidden cutscene prop starts neither visible nor enabled, a marker
/// never starts visible, and an object that repeats forever never holds
/// its last frame.
pub proof fn law_gob_plan_visibility(e: GobEntryFacts)
    ensures
        gob_plan(e) matches GobObjectPlan::Spawn { visible, enabled, marker, animation } ==> {
            &&& (e.hidden_cutscene_prop ==> !visible && !enabled)
            &&& (marker ==> !visible)
            &&& (animation matches Some(a) ==> !(a.looping && a.hold_end))
        },
        (e.kind == GobObjectKind::Effect || e.kind == GobObjectKind::Sound) ==> gob_plan(e) is Skip,
{
}

/// Which GOB entries become objects, and how: an entry is skipped
/// exactly when its names do not decode or it is an effect or a sound;
/// every other entry spawns. It is an empty marker exactly when it is a
/// marker; it starts visible exactly when it is neither a marker, nor
/// initially hidden, nor a cutscene prop; it starts enabled exactly when
/// it is not a cutscene prop; and it plays an animation exactly when it
/// is an action that plays by default, looping when no play count or a
/// negative one is given, and holding its last frame only for a finite
/// count that asks to hold.
pub proof fn law_gob_plan_spawns(e: GobEntryFacts)
    ensures
        (gob_plan(e) is Skip) <==> (!e.names_decoded || e.kind == GobObjectKind::Effect || e.kind == GobObjectKind::Sound),
        gob_plan(e) matches GobObjectPlan::Spawn { marker, visible, enabled, animation } ==> {
            &&& marker == (e.kind == GobObjectKind::Marker)
            &&& visible == (e.kind != GobObjectKind::Marker && !e.initially_hidden && !e.hidden_cutscene_prop)
            &&& enabled == !e.hidden_cutscene_prop
            &&& (animation is Some) == (e.kind == GobObjectKind::Action && e.action_default_play)
            &&& animation matches Some(a) ==> {
                &&& a.looping == (e.action_play_times is None || e.action_play_times->0 < 0)
                &&& a.hold_end == (e.action_play_times matches Some(t) && t >= 0 && e.action_holding_end)
            }
        },
{
}

/// A loader whose stages all succeed reports increasing progress and
/// finishes, at 100 percent, exactly on its seventh step.
pub proof fn law_loader_progress_increases(i: u8)
    requires
        i + 1 < STAGE_COUNT,
    ensures
        stage_percent(i) < stage_percent((i + 1) as u8),
        stage_percent((STAGE_COUNT - 1) as u8) == 100,
{
}

} // verus!
