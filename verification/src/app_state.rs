//! The plain state that the PAL4 story context keeps beside the engine:
//! what observers are shown of the dialog, party and inventory, the
//! prompts that wait for a choice, the live one-shot sounds, and the
//! party-leader index handed to the scripted actor controller.
use vstd::prelude::*;

use std::collections::HashMap;
use vstd::set_lib::{lemma_int_range, lemma_len_subset, lemma_map_size_bound, set_int_range};
use vstd::std_specs::hash::spec_keys_iter;
use vstd::std_specs::iter::IteratorSpec;

use crate::assoc::{assoc_map, has_key, key_index, lemma_lookup, lemma_sorted_i32_unique, lower_bound_i32, sorted_i32};
use crate::persistent_state::{Pal4PersistentState, PlayerStateView, PLAYER_COUNT, player_or_default};

verus! {

broadcast use vstd::std_specs::hash::group_hash_axioms;

/// Which side the dialog avatar portrait is anchored to.
#[derive(Debug, Clone, Copy, PartialEq, Eq, Structural)]
pub enum DialogAvatarSide {
    Left,
    Right,
}

/// What an observer is shown of the dialog box: whether it is open, its
/// visible text (markup stripped) and the side of the portrait.
#[derive(Debug, Clone)]
pub struct DialogStateSnapshot {
    pub open: bool,
    pub text: String,
    pub avatar: DialogAvatarSide,
}

/// One party slot as shown to observers.
#[derive(Debug, Clone, Copy, Default, PartialEq, Eq, Structural)]
pub struct PartySnapshot {
    pub slot: usize,
    pub level: i32,
    pub hp: i32,
    pub max_hp: i32,
    pub mp: i32,
    pub max_mp: i32,
    pub in_team: bool,
}

pub open spec fn party_row(slot: usize, p: PlayerStateView) -> PartySnapshot {
    PartySnapshot {
        slot,
        level: p.level,
        hp: p.hp,
        max_hp: p.max_hp,
        mp: p.mp,
        max_mp: p.max_mp,
        in_team: p.in_team,
    }
}

/// One row per party slot, in slot order; a slot without a record shows
/// the default record.
pub fn party_snapshot<P, D, C>(state: &Pal4PersistentState<P, D, C>) -> (r: Vec<PartySnapshot>)
    ensures
        r.len() == PLAYER_COUNT,
        forall|i: int|
            0 <= i < PLAYER_COUNT ==> #[trigger] r@[i] == party_row(i as usize, player_or_default(state@.players, i as usize)),
{
    let mut out: Vec<PartySnapshot> = Vec::new();
    let mut slot: usize = 0;
    while slot < PLAYER_COUNT
        invariant
            slot <= PLAYER_COUNT,
            out.len() == slot,
            forall|i: int|
                0 <= i < slot ==> #[trigger] out@[i] == party_row(i as usize, player_or_default(state@.players, i as usize)),
        decreases PLAYER_COUNT - slot,
    {
        let row = match state.player(slot) {
            Some(p) => PartySnapshot {
                slot,
                level: p.level,
                hp: p.hp,
                max_hp: p.max_hp,
                mp: p.mp,
                max_mp: p.max_mp,
                in_team: p.in_team,
            },
            None => PartySnapshot {
                slot,
                level: 1,
                hp: 0,
                max_hp: 0,
                mp: 0,
                max_mp: 0,
                in_team: false,
            },
        };
        out.push(row);
        slot = slot + 1;
    }
    out
}

/// The inventory as `(item id, count)` pairs in ascending id order.
pub fn inventory_snapshot<P, D, C>(state: &Pal4PersistentState<P, D, C>) -> (r: Vec<(i32, i32)>)
    ensures
        sorted_i32(r@),
        assoc_map(r@) == state@.inventory,
{
    let items = state.inventory_iter();
    let ghost m = items@;
    let mut ids: Vec<i32> = Vec::new();
    for k in it: items.keys()
        invariant
            ids.len() == it.index(),
            forall|i: int| 0 <= i < ids.len() ==> ids@[i] == *it.seq()[i],
    {
        ids.push(*k);
    }
    let ghost ks = spec_keys_iter(items).remaining();
    proof {
        assert(ids@ =~= ks.unref());
        assert(ids@.no_duplicates()) by {
            assert forall|a: int, b: int| 0 <= a < b < ids@.len() implies ids@[a] != ids@[b] by {
                assert(ks[a] != ks[b]);
            }
        }
    }
    let mut out: Vec<(i32, i32)> = Vec::new();
    let mut i: usize = 0;
    while i < ids.len()
        invariant
            i <= ids.len(),
            ids@.no_duplicates(),
            ids@.to_set() == m.dom(),
            m == items@,
            sorted_i32(out@),
            forall|k: i32| has_key(out@, k) <==> #[trigger] ids@.take(i as int).contains(k),
            forall|a: int| 0 <= a < out.len() ==> m.contains_key(#[trigger] out@[a].0) && m[out@[a].0] == out@[a].1,
        decreases ids.len() - i,
    {
        let k = ids[i];
        proof {
            assert(ids@.to_set().contains(k));
        }
        let c = match items.get(&k) {
            Some(c) => *c,
            None => 0,
        };
        let p = lower_bound_i32(&out, k);
        let ghost s0 = out@;
        proof {
            assert(!has_key(s0, k)) by {
                if has_key(s0, k) {
                    assert(ids@.take(i as int).contains(k));
                    let a = choose|a: int| 0 <= a < ids@.take(i as int).len() && #[trigger] ids@.take(i as int)[a] == k;
                    assert(ids@[a] == k);
                    assert(ids@[i as int] == k);
                }
            }
            lemma_sorted_i32_unique(s0);
        }
        out.insert(p, (k, c));
        proof {
            assert(ids@.take(i + 1) =~= ids@.take(i as int).push(k));
            assert forall|a: int| 0 <= a < out@.len() implies #[trigger] out@[a] == (if a < p {
                s0[a]
            } else if a == p {
                (k, c)
            } else {
                s0[a - 1]
            }) by {}
            assert forall|a: int, b: int| 0 <= a < b < out@.len() implies #[trigger] out@[a].0 < #[trigger] out@[b].0 by {
                if a < p && b > p {
                    assert(s0[a].0 < k);
                    assert(s0[b - 1].0 >= k && s0[b - 1].0 != k);
                } else if a == p && b > p {
                    assert(s0[b - 1].0 >= k && s0[b - 1].0 != k);
                } else if a < p && b == p {
                } else if a > p {
                    assert(s0[a - 1].0 < s0[b - 1].0);
                } else {
                    assert(s0[a].0 < s0[b].0);
                }
            }
            assert forall|x: i32| has_key(out@, x) <==> #[trigger] ids@.take(i + 1).contains(x) by {
                if has_key(out@, x) {
                    let a = choose|a: int| 0 <= a < out@.len() && #[trigger] out@[a].0 == x;
                    if a == p {
                        assert(ids@.take(i + 1)[i as int] == x);
                    } else {
                        if a < p {
                            assert(s0[a].0 == x);
                        } else {
                            assert(s0[a - 1].0 == x);
                        }
                        assert(has_key(s0, x));
                        assert(ids@.take(i as int).contains(x));
                        let j = choose|j: int| 0 <= j < ids@.take(i as int).len() && #[trigger] ids@.take(i as int)[j] == x;
                        assert(ids@.take(i + 1)[j] == x);
                    }
                }
                if ids@.take(i + 1).contains(x) {
                    let j = choose|j: int| 0 <= j < i + 1 && #[trigger] ids@.take(i + 1)[j] == x;
                    if j < i {
                        assert(ids@.take(i as int)[j] == x);
                        assert(ids@.take(i as int).contains(x));
                        assert(has_key(s0, x));
                        let a = choose|a: int| 0 <= a < s0.len() && #[trigger] s0[a].0 == x;
                        if a < p {
                            assert(out@[a].0 == x);
                        } else {
                            assert(out@[a + 1].0 == x);
                        }
                    } else {
                        assert(out@[p as int].0 == x);
                    }
                }
            }
        }
        i = i + 1;
    }
    proof {
        assert(ids@.take(ids.len() as int) =~= ids@);
        lemma_sorted_i32_unique(out@);
        assert(assoc_map(out@) =~= m) by {
            assert forall|k: i32| #[trigger] assoc_map(out@).contains_key(k) <==> m.contains_key(k) by {
                assert(ids@.to_set().contains(k) <==> ids@.contains(k));
            }
            assert forall|k: i32| #[trigger] assoc_map(out@).contains_key(k) implies assoc_map(out@)[k] == m[k] by {
                lemma_lookup(out@, key_index(out@, k));
            }
        }
    }
    out
}

/// The choice a select-dialog gets when none was buffered.
pub const DEFAULT_DIALOG_CHOICE: i32 = 1;

/// Prompts that wait for an outside pick: the items of the next
/// select-dialog with the buffered choice, and the world map with the
/// buffered destination.
pub struct Pal4Prompts {
    pending_dialog_choices: Vec<String>,
    next_dialog_choice: Option<i32>,
    world_map_open: bool,
    world_map_choice: Option<(String, String)>,
}

/// Value of the prompts.
pub struct PromptsView {
    pub dialog_choices: Seq<String>,
    pub next_dialog_choice: Option<i32>,
    pub world_map_open: bool,
    pub world_map_choice: Option<(String, String)>,
}

impl View for Pal4Prompts {
    type V = PromptsView;

    closed spec fn view(&self) -> PromptsView {
        PromptsView {
            dialog_choices: self.pending_dialog_choices@,
            next_dialog_choice: self.next_dialog_choice,
            world_map_open: self.world_map_open,
            world_map_choice: self.world_map_choice,
        }
    }
}

/// The pick a select-dialog read returns.
pub open spec fn dialog_pick(p: PromptsView) -> i32 {
    match p.next_dialog_choice {
        Some(c) => c,
        None => DEFAULT_DIALOG_CHOICE,
    }
}

/// The prompts after a select-dialog read: the pick is used up and the
/// items are cleared.
pub open spec fn after_dialog_read(p: PromptsView) -> PromptsView {
    PromptsView { dialog_choices: Seq::empty(), next_dialog_choice: None, ..p }
}

/// The prompts after a world-map tick: a buffered destination is taken,
/// which closes the map.
pub open spec fn after_world_map_take(p: PromptsView) -> PromptsView {
    PromptsView {
        world_map_choice: None,
        world_map_open: p.world_map_open && p.world_map_choice is None,
        ..p
    }
}

impl Pal4Prompts {
    pub fn new() -> (r: Self)
        ensures
            r@.dialog_choices.len() == 0,
            r@.next_dialog_choice is None,
            !r@.world_map_open,
            r@.world_map_choice is None,
    {
        Pal4Prompts {
            pending_dialog_choices: Vec::new(),
            next_dialog_choice: None,
            world_map_open: false,
            world_map_choice: None,
        }
    }

    pub fn dialog_choices(&self) -> (r: &[String])
        ensures
            r@ == self@.dialog_choices,
    {
        self.pending_dialog_choices.as_slice()
    }

    /// Appends one item to the next select-dialog.
    pub fn push_dialog_choice(&mut self, item: String)
        ensures
            final(self)@ == (PromptsView { dialog_choices: old(self)@.dialog_choices.push(item), ..old(self)@ }),
    {
        self.pending_dialog_choices.push(item);
    }

    /// Buffers the pick for the next select-dialog read.
    pub fn buffer_dialog_choice(&mut self, index: i32)
        ensures
            final(self)@ == (PromptsView { next_dialog_choice: Some(index), ..old(self)@ }),
    {
        self.next_dialog_choice = Some(index);
    }

    /// Takes the buffered pick (the default when none was buffered) and
    /// clears the items: each pick lasts for exactly one dialog.
    pub fn take_dialog_choice(&mut self) -> (choice: i32)
        ensures
            choice == dialog_pick(old(self)@),
            final(self)@ == after_dialog_read(old(self)@),
    {
        let choice = match self.next_dialog_choice {
            Some(c) => c,
            None => DEFAULT_DIALOG_CHOICE,
        };
        self.next_dialog_choice = None;
        self.pending_dialog_choices.clear();
        proof {
            assert(self@.dialog_choices =~= Seq::<String>::empty());
        }
        choice
    }

    pub fn world_map_open(&self) -> (r: bool)
        ensures
            r == self@.world_map_open,
    {
        self.world_map_open
    }

    /// The world map waits for a destination.
    pub fn open_world_map(&mut self)
        ensures
            final(self)@ == (PromptsView { world_map_open: true, ..old(self)@ }),
    {
        self.world_map_open = true;
    }

    /// Buffers a destination for the next world-map tick.
    pub fn buffer_world_map_choice(&mut self, scene: String, block: String)
        ensures
            final(self)@ == (PromptsView { world_map_choice: Some((scene, block)), ..old(self)@ }),
    {
        self.world_map_choice = Some((scene, block));
    }

    /// Takes the buffered destination, if any; taking one closes the map.
    /// `None` means the prompt keeps waiting.
    pub fn take_world_map_choice(&mut self) -> (r: Option<(String, String)>)
        ensures
            r == old(self)@.world_map_choice,
            final(self)@ == after_world_map_take(old(self)@),
    {
        let choice = self.world_map_choice.take();
        if choice.is_some() {
            self.world_map_open = false;
        }
        choice
    }
}

/// A pick buffered for a select-dialog is what the next read returns, and
/// it lasts one dialog: the read after that, with no new pick, returns
/// the default.
pub proof fn law_dialog_pick_lasts_one_dialog(p: PromptsView, index: i32)
    ensures
        dialog_pick(PromptsView { next_dialog_choice: Some(index), ..p }) == index,
        dialog_pick(after_dialog_read(PromptsView { next_dialog_choice: Some(index), ..p })) == DEFAULT_DIALOG_CHOICE,
{
}

/// A destination buffered while the world map is open is what the next
/// tick takes, and taking it closes the map; with nothing buffered the map
/// stays open and the tick takes nothing.
pub proof fn law_world_map_choice_closes_map(p: PromptsView, scene: String, block: String)
    requires
        p.world_map_open,
    ensures
        ({
            let q = PromptsView { world_map_choice: Some((scene, block)), ..p };
            &&& q.world_map_choice == Some((scene, block))
            &&& !after_world_map_take(q).world_map_open
            &&& after_world_map_take(q).world_map_choice is None
        }),
        p.world_map_choice is None ==> after_world_map_take(p).world_map_open,
{
}

/// Script player index `-1` stands for the current party leader; any other
/// index is taken as a slot.
pub fn map_player(player: i32, leader: usize) -> (r: usize)
    ensures
        r == if player == -1 { leader } else { player as usize },
{
    if player == -1 {
        leader
    } else {
        player as usize
    }
}

/// The party-leader index and the scene's event triggers, as handed to the
/// scripted actor controller.
pub struct Pal4GameContext<T> {
    current_leader: usize,
    event_triggers: Vec<T>,
}

impl<T> Pal4GameContext<T> {
    pub closed spec fn leader_spec(&self) -> usize {
        self.current_leader
    }

    pub closed spec fn triggers_spec(&self) -> Seq<T> {
        self.event_triggers@
    }

    pub fn create(event_triggers: Vec<T>) -> (r: Self)
        ensures
            r.leader_spec() == 0,
            r.triggers_spec() == event_triggers@,
    {
        Pal4GameContext { current_leader: 0, event_triggers }
    }

    /// Engine-side setter for the active party leader.
    pub fn set_current_leader(&mut self, leader: usize)
        ensures
            final(self).leader_spec() == leader,
            final(self).triggers_spec() == old(self).triggers_spec(),
    {
        self.current_leader = leader;
    }

    /// The leader as the script reads it (a C `int`).
    pub fn current_leader(&self) -> (r: i32)
        ensures
            r == self.leader_spec() as i32,
    {
        self.current_leader as i32
    }

    pub fn event_triggers(&self) -> (r: &[T])
        ensures
            r@ == self.triggers_spec(),
    {
        self.event_triggers.as_slice()
    }
}

/// What starting a scripted camera run does, given the named camera
/// entry's keyframe count, whether it is marked instant and whether its
/// duration is positive (`None` when no camera data is prepared or it has
/// no entry of that name).
#[derive(Debug, Clone, Copy, PartialEq, Eq, Structural)]
pub enum CameraRunPlan {
    /// No entry: nothing changes, and a run in flight goes on.
    Keep,
    /// The entry has no keyframes: a run in flight stops, the camera stays.
    Stop,
    /// Snap the camera to the last keyframe; no run in flight.
    Snap,
    /// Animate along the keyframes.
    Animate,
}

/// An instant entry, one without a positive duration, or one with fewer
/// than two keyframes snaps the camera; a longer one animates.
pub fn camera_run_plan(entry: Option<(usize, bool, bool)>) -> (r: CameraRunPlan)
    ensures
        match entry {
            None => r == CameraRunPlan::Keep,
            Some((count, instant, positive)) => if count == 0 {
                r == CameraRunPlan::Stop
            } else if instant || !positive || count < 2 {
                r == CameraRunPlan::Snap
            } else {
                r == CameraRunPlan::Animate
            },
        },
{
    match entry {
        None => CameraRunPlan::Keep,
        Some((count, instant, positive)) => {
            if count == 0 {
                CameraRunPlan::Stop
            } else if instant || !positive || count < 2 {
                CameraRunPlan::Snap
            } else {
                CameraRunPlan::Animate
            }
        },
    }
}

/// Whether starting a camera run with `plan` leaves an animation in flight
/// that it started: the answer a run request gets.
pub fn camera_run_started(plan: CameraRunPlan) -> (r: bool)
    ensures
        r == (plan is Animate),
{
    match plan {
        CameraRunPlan::Animate => true,
        _ => false,
    }
}

/// Whether a camera run is in flight after starting one with `plan`, given
/// whether one was before: a missing entry leaves it as it was.
pub fn camera_running_after(plan: CameraRunPlan, was_running: bool) -> (r: bool)
    ensures
        r == match plan {
            CameraRunPlan::Keep => was_running,
            CameraRunPlan::Animate => true,
            _ => false,
        },
{
    match plan {
        CameraRunPlan::Keep => was_running,
        CameraRunPlan::Animate => true,
        _ => false,
    }
}

/// The scripted actor controller of a scene, as the host drives it.
pub trait IPal4ActorControllerImpl {
    /// Whether the controller holds player control locked.
    spec fn control_locked(&self) -> bool;

    /// Locks or unlocks player control.
    fn lock_control(&mut self, lock: bool)
        ensures
            final(self).control_locked() == lock,
    ;
}

/// Locks or unlocks player control: the flag is recorded and, when the
/// scene has an actor controller, the lock is handed to it.
pub fn lock_player<C: IPal4ActorControllerImpl>(player_locked: &mut bool, controller: &mut Option<C>, lock: bool)
    ensures
        *final(player_locked) == lock,
        (*final(controller)) is Some <==> (*old(controller)) is Some,
        (*final(controller)) matches Some(c) ==> c.control_locked() == lock,
{
    *player_locked = lock;
    match controller {
        Some(c) => c.lock_control(lock),
        None => {},
    }
}

/// Sound ids run from zero up to this bound, then wrap around.
pub const SOUND_ID_LIMIT: i32 = 10000;

/// Steps from `from` forward to `to` on the wrapping id ring.
pub open spec fn ring_distance(from: int, to: int) -> int {
    if from <= to { to - from } else { to - from + SOUND_ID_LIMIT }
}

/// The id `j` steps after `start` on the wrapping id ring.
pub open spec fn ring_step(start: int, j: int) -> int {
    if start + j < SOUND_ID_LIMIT { start + j } else { start + j - SOUND_ID_LIMIT }
}

/// The live sounds of a scene by id, and where the next id search starts.
pub struct SoundTable<S> {
    sources: HashMap<i32, S>,
    sound_id: i32,
}

/// Value of a sound table: the live sounds by id, and the id the next
/// search starts from.
pub struct SoundTableView<S> {
    pub entries: Map<i32, S>,
    pub next: i32,
}

impl<S> View for SoundTable<S> {
    type V = SoundTableView<S>;

    closed spec fn view(&self) -> SoundTableView<S> {
        SoundTableView { entries: self.sources@, next: self.sound_id }
    }
}

/// A table with fewer live sounds than ids has a free id.
proof fn lemma_free_id_exists<S>(m: Map<i32, S>)
    requires
        m.dom().finite(),
        m.len() < SOUND_ID_LIMIT,
    ensures
        exists|k: i32| 0 <= k < SOUND_ID_LIMIT && !m.contains_key(k),
{
    if forall|k: i32| 0 <= k < SOUND_ID_LIMIT ==> m.contains_key(k) {
        let f = |k: i32| k as int;
        let ints = m.dom().map(f);
        lemma_map_size_bound(m.dom(), ints, f);
        lemma_int_range(0, SOUND_ID_LIMIT as int);
        assert(set_int_range(0, SOUND_ID_LIMIT as int).subset_of(ints)) by {
            assert forall|i: int| #[trigger] set_int_range(0, SOUND_ID_LIMIT as int).contains(i) implies ints.contains(i) by {
                let k = i as i32;
                assert(m.contains_key(k));
                assert(f(k) == i);
            }
        }
        lemma_len_subset(set_int_range(0, SOUND_ID_LIMIT as int), ints);
    }
}

impl<S> SoundTable<S> {
    #[verifier::type_invariant]
    spec fn well_formed(self) -> bool {
        &&& forall|k: i32| #[trigger] self.sources@.contains_key(k) ==> 0 <= k < SOUND_ID_LIMIT
        &&& 0 <= self.sound_id < SOUND_ID_LIMIT
    }

    pub fn new() -> (r: Self)
        ensures
            r@.entries == Map::<i32, S>::empty(),
            r@.next == 0,
    {
        SoundTable { sources: HashMap::new(), sound_id: 0 }
    }

    pub fn len(&self) -> (r: usize)
        ensures
            r == self@.entries.len(),
    {
        self.sources.len()
    }

    pub fn contains(&self, id: i32) -> (r: bool)
        ensures
            r == self@.entries.contains_key(id),
    {
        self.sources.contains_key(&id)
    }

    /// Advances the search position to the first free id at or after it,
    /// wrapping past the last id, and returns that id. A free id exists as
    /// long as fewer sounds than ids are live.
    pub fn find_next_sound_id(&mut self) -> (id: i32)
        requires
            old(self)@.entries.len() < SOUND_ID_LIMIT,
        ensures
            0 <= id < SOUND_ID_LIMIT,
            !old(self)@.entries.contains_key(id),
            forall|j: int|
                0 <= j < ring_distance(old(self)@.next as int, id as int) ==> old(self)@.entries.contains_key(
                    ring_step(old(self)@.next as int, j) as i32,
                ),
            final(self)@.entries == old(self)@.entries,
            final(self)@.next == id,
    {
        proof {
            use_type_invariant(&*self);
            lemma_free_id_exists(self.sources@);
        }
        let ghost start = self.sound_id as int;
        let ghost m = self.sources@;
        let ghost free = choose|k: i32| 0 <= k < SOUND_ID_LIMIT && !m.contains_key(k);
        let mut id = self.sound_id;
        while self.sources.contains_key(&id)
            invariant
                m == self.sources@,
                0 <= id < SOUND_ID_LIMIT,
                0 <= start < SOUND_ID_LIMIT,
                0 <= free < SOUND_ID_LIMIT,
                !m.contains_key(free),
                forall|j: int| 0 <= j < ring_distance(start, id as int) ==> m.contains_key(ring_step(start, j) as i32),
                ring_distance(start, id as int) + ring_distance(id as int, free as int) == ring_distance(start, free as int)
                    || id == free,
            decreases ring_distance(id as int, free as int),
        {
            proof {
                assert(ring_step(start, ring_distance(start, id as int)) == id);
            }
            id = id + 1;
            if id == SOUND_ID_LIMIT {
                id = 0;
            }
        }
        self.sound_id = id;
        id
    }

    /// Makes `source` the live sound under `id`, replacing one already
    /// there.
    pub fn insert(&mut self, id: i32, source: S)
        requires
            0 <= id < SOUND_ID_LIMIT,
        ensures
            final(self)@.entries == old(self)@.entries.insert(id, source),
            final(self)@.next == old(self)@.next,
    {
        proof {
            use_type_invariant(&*self);
        }
        let mut sources: HashMap<i32, S> = HashMap::new();
        std::mem::swap(&mut sources, &mut self.sources);
        sources.insert(id, source);
        self.sources = sources;
    }

    /// Takes the live sound under `id` out of the table, if there is one.
    pub fn remove(&mut self, id: i32) -> (r: Option<S>)
        ensures
            final(self)@.entries == old(self)@.entries.remove(id),
            old(self)@.entries.contains_key(id) ==> r == Some(old(self)@.entries[id]),
            !old(self)@.entries.contains_key(id) ==> r is None,
            final(self)@.next == old(self)@.next,
    {
        proof {
            use_type_invariant(&*self);
        }
        let mut sources: HashMap<i32, S> = HashMap::new();
        std::mem::swap(&mut sources, &mut self.sources);
        let r = sources.remove(&id);
        self.sources = sources;
        r
    }

    /// Takes every live sound out of the table, each with its id, in no
    /// particular order.
    pub fn drain(&mut self) -> (r: Vec<(i32, S)>)
        ensures
            r.len() == old(self)@.entries.len(),
            r@.map_values(|e: (i32, S)| e.0).no_duplicates(),
            forall|i: int|
                0 <= i < r.len() ==> old(self)@.entries.contains_key(#[trigger] r@[i].0) && old(self)@.entries[r@[i].0]
                    == r@[i].1,
            final(self)@.entries == Map::<i32, S>::empty(),
            final(self)@.next == old(self)@.next,
    {
        proof {
            use_type_invariant(&*self);
        }
        let mut sources: HashMap<i32, S> = HashMap::new();
        std::mem::swap(&mut sources, &mut self.sources);
        let ghost m0 = sources@;
        let mut ids: Vec<i32> = Vec::new();
        for k in it: sources.keys()
            invariant
                ids.len() == it.index(),
                forall|i: int| 0 <= i < ids.len() ==> ids@[i] == *it.seq()[i],
        {
            ids.push(*k);
        }
        let ghost ks = spec_keys_iter(&sources).remaining();
        proof {
            assert(ids@ =~= ks.unref());
            assert(ids@.to_set() == m0.dom());
            assert(ids@.no_duplicates()) by {
                assert forall|a: int, b: int| 0 <= a < b < ids@.len() implies ids@[a] != ids@[b] by {
                    assert(ks[a] != ks[b]);
                }
            }
        }
        let mut out: Vec<(i32, S)> = Vec::new();
        let mut i: usize = 0;
        while i < ids.len()
            invariant
                i <= ids.len(),
                ids@.no_duplicates(),
                ids@.to_set() == m0.dom(),
                out.len() == i,
                forall|a: int| 0 <= a < i ==> #[trigger] out@[a].0 == ids@[a],
                forall|a: int| 0 <= a < i ==> m0.contains_key(#[trigger] out@[a].0) && m0[out@[a].0] == out@[a].1,
                forall|k: i32| #[trigger] sources@.contains_key(k) <==> m0.contains_key(k) && !ids@.take(i as int).contains(k),
                forall|k: i32| sources@.contains_key(k) ==> #[trigger] sources@[k] == m0[k],
            decreases ids.len() - i,
        {
            let k = ids[i];
            proof {
                assert(ids@.to_set().contains(k));
                assert(!ids@.take(i as int).contains(k)) by {
                    if ids@.take(i as int).contains(k) {
                        let a = choose|a: int| 0 <= a < i && #[trigger] ids@.take(i as int)[a] == k;
                        assert(ids@[a] == ids@[i as int]);
                    }
                }
            }
            let ghost before = sources@;
            let v = sources.remove(&k);
            match v {
                Some(v) => {
                    out.push((k, v));
                },
                None => {
                    assert(false);
                },
            }
            proof {
                assert(sources@ == before.remove(k));
                assert(ids@.take(i + 1) =~= ids@.take(i as int).push(k));
                assert forall|x: i32| #[trigger] sources@.contains_key(x) <==> m0.contains_key(x) && !ids@.take(i + 1).contains(x) by {
                    if x != k {
                        assert(ids@.take(i + 1).contains(x) == ids@.take(i as int).contains(x)) by {
                            if ids@.take(i + 1).contains(x) {
                                let a = choose|a: int| 0 <= a < i + 1 && #[trigger] ids@.take(i + 1)[a] == x;
                                assert(ids@.take(i as int)[a] == x);
                            }
                        }
                        assert(before.contains_key(x) == sources@.contains_key(x));
                    } else {
                        assert(ids@.take(i + 1)[i as int] == k);
                    }
                }
            }
            i = i + 1;
        }
        proof {
            assert(ids@.take(ids.len() as int) =~= ids@);
            assert(sources@ =~= Map::<i32, S>::empty()) by {
                assert forall|x: i32| !sources@.contains_key(x) by {
                    if m0.contains_key(x) {
                        assert(ids@.to_set().contains(x));
                    }
                }
            }
            assert(out@.map_values(|e: (i32, S)| e.0) =~= ids@);
            assert(m0.len() == m0.dom().len());
            ids@.unique_seq_to_set();
        }
        self.sources = sources;
        out
    }
}

} // verus!
