//! PAL4 game progress: money, quest completion, the party's per-player
//! records, the inventory, the saved location and the script's story flags.
//! Saved to and loaded from numbered slots by the engine.
use vstd::prelude::*;

use std::collections::HashMap;

use crate::text::{push_str, push_signed_decimal, signed_decimal};

verus! {

broadcast use vstd::std_specs::hash::group_hash_axioms;

/// Number of fixed party slots.
pub const PLAYER_COUNT: usize = 4;

/// Number of save slots the load screen offers.
pub const SLOT_COUNT: i32 = 4;

/// Per-player progression record.
#[derive(Clone, Debug)]
pub struct PlayerState {
    pub level: i32,
    pub hp: i32,
    pub max_hp: i32,
    pub mp: i32,
    pub max_mp: i32,
    pub in_team: bool,
    pub skills: Vec<i32>,
    pub equipment: Vec<i32>,
}

/// Value of a player record.
pub struct PlayerStateView {
    pub level: i32,
    pub hp: i32,
    pub max_hp: i32,
    pub mp: i32,
    pub max_mp: i32,
    pub in_team: bool,
    pub skills: Seq<i32>,
    pub equipment: Seq<i32>,
}

impl View for PlayerState {
    type V = PlayerStateView;

    open spec fn view(&self) -> PlayerStateView {
        PlayerStateView {
            level: self.level,
            hp: self.hp,
            max_hp: self.max_hp,
            mp: self.mp,
            max_mp: self.max_mp,
            in_team: self.in_team,
            skills: self.skills@,
            equipment: self.equipment@,
        }
    }
}

/// The record a player starts with: level 1, nothing else.
pub open spec fn default_player() -> PlayerStateView {
    PlayerStateView {
        level: 1,
        hp: 0,
        max_hp: 0,
        mp: 0,
        max_mp: 0,
        in_team: false,
        skills: Seq::empty(),
        equipment: Seq::empty(),
    }
}

impl Default for PlayerState {
    fn default() -> (r: Self)
        ensures
            r@ == default_player(),
    {
        PlayerState {
            level: 1,
            hp: 0,
            max_hp: 0,
            mp: 0,
            max_mp: 0,
            in_team: false,
            skills: Vec::new(),
            equipment: Vec::new(),
        }
    }
}

/// The player records of a map of records, by value.
pub open spec fn players_map(m: Map<usize, PlayerState>) -> Map<usize, PlayerStateView> {
    m.map_values(|p: PlayerState| p@)
}

/// A player's record, or the default record for an empty slot.
pub open spec fn player_or_default(m: Map<usize, PlayerStateView>, slot: usize) -> PlayerStateView {
    if m.contains_key(slot) {
        m[slot]
    } else {
        default_player()
    }
}

/// The count the inventory holds for an item (0 when absent).
pub open spec fn count_of(m: Map<i32, i32>, id: i32) -> int {
    if m.contains_key(id) {
        m[id] as int
    } else {
        0
    }
}

/// The inventory after changing an item's count by `delta`: the count is
/// clamped at zero and an item whose count reaches zero leaves.
pub open spec fn inventory_after_add(m: Map<i32, i32>, id: i32, delta: int) -> Map<i32, i32> {
    let c = count_of(m, id) + delta;
    if c <= 0 {
        m.remove(id)
    } else {
        m.insert(id, c as i32)
    }
}

/// Value of the persistent game state.
pub struct PersistentStateView<P, D, C> {
    pub app_name: Seq<char>,
    pub money: i32,
    pub quest_percentage: i32,
    pub leader: usize,
    pub scene_name: Seq<char>,
    pub block_name: Seq<char>,
    pub position: Option<P>,
    pub direction: Option<D>,
    pub player_locked: bool,
    pub camera: Option<C>,
    pub players: Map<usize, PlayerStateView>,
    pub inventory: Map<i32, i32>,
    pub script_globals: Seq<u32>,
}

/// Serializable snapshot of PAL4 game progress. `P`, `D` and `C` are the
/// engine's types for the saved leader position, facing and camera
/// transform, which this state only stores and hands back.
pub struct Pal4PersistentState<P, D, C> {
    app_name: String,
    money: i32,
    quest_percentage: i32,
    leader: usize,
    scene_name: String,
    block_name: String,
    position: Option<P>,
    direction: Option<D>,
    player_locked: bool,
    camera: Option<C>,
    players: HashMap<usize, PlayerState>,
    inventory: HashMap<i32, i32>,
    script_globals: Vec<u32>,
}

impl<P, D, C> View for Pal4PersistentState<P, D, C> {
    type V = PersistentStateView<P, D, C>;

    closed spec fn view(&self) -> PersistentStateView<P, D, C> {
        PersistentStateView {
            app_name: self.app_name@,
            money: self.money,
            quest_percentage: self.quest_percentage,
            leader: self.leader,
            scene_name: self.scene_name@,
            block_name: self.block_name@,
            position: self.position,
            direction: self.direction,
            player_locked: self.player_locked,
            camera: self.camera,
            players: players_map(self.players@),
            inventory: self.inventory@,
            script_globals: self.script_globals@,
        }
    }
}

} // verus!

verus! {

/// `"Quest "`
pub open spec fn quest_label() -> Seq<char> {
    seq!['Q', 'u', 'e', 's', 't', ' ']
}

/// The load screen's one-line description of a save: location (scene,
/// and block when known) and quest completion.
pub open spec fn summary_text(scene: Seq<char>, block: Seq<char>, quest: i32) -> Seq<char> {
    let tail = quest_label() + signed_decimal(quest as int) + seq!['%'];
    if scene.len() == 0 {
        tail
    } else if block.len() == 0 {
        scene + seq![' ', '-', ' '] + tail
    } else {
        scene + seq!['/'] + block + seq![' ', '-', ' '] + tail
    }
}

/// `a + b` saturated to the `i32` range.
pub open spec fn saturating_add_i32(a: i32, b: i32) -> i32 {
    if a + b > i32::MAX {
        i32::MAX
    } else if a + b < i32::MIN {
        i32::MIN
    } else {
        (a + b) as i32
    }
}

/// `v` clamped to `0..=100`.
pub open spec fn clamp_percentage(v: int) -> i32 {
    if v < 0 {
        0
    } else if v > 100 {
        100
    } else {
        v as i32
    }
}

/// The state of a fresh playthrough saved under `app_name`: no money, no
/// progress, no scene, every party slot holding the default record and
/// an empty inventory.
pub open spec fn fresh_state<P, D, C>(v: PersistentStateView<P, D, C>, app_name: Seq<char>) -> bool {
    &&& v.app_name == app_name
    &&& v.money == 0
    &&& v.quest_percentage == 0
    &&& v.leader == 0
    &&& v.scene_name.len() == 0
    &&& v.block_name.len() == 0
    &&& v.position is None
    &&& v.direction is None
    &&& !v.player_locked
    &&& v.camera is None
    &&& v.players.dom() == Set::new(|s: usize| s < PLAYER_COUNT)
    &&& forall|s: usize| s < PLAYER_COUNT ==> #[trigger] v.players[s] == default_player()
    &&& v.inventory.len() == 0
    &&& v.script_globals.len() == 0
}

impl<P, D, C> Pal4PersistentState<P, D, C> {
    /// A fresh playthrough: every party slot holds the default record.
    pub fn new(app_name: String) -> (r: Self)
        ensures
            fresh_state(r@, app_name@),
    {
        let mut players: HashMap<usize, PlayerState> = HashMap::new();
        let mut slot: usize = 0;
        while slot < PLAYER_COUNT
            invariant
                slot <= PLAYER_COUNT,
                players@.dom() == Set::new(|s: usize| s < slot),
                forall|s: usize| s < slot ==> #[trigger] players@[s]@ == default_player(),
            decreases PLAYER_COUNT - slot,
        {
            players.insert(slot, PlayerState::default());
            proof {
                assert(players@.dom() =~= Set::new(|s: usize| s < slot + 1));
            }
            slot = slot + 1;
        }
        let r = Pal4PersistentState {
            app_name,
            money: 0,
            quest_percentage: 0,
            leader: 0,
            scene_name: String::new(),
            block_name: String::new(),
            position: None,
            direction: None,
            player_locked: false,
            camera: None,
            players,
            inventory: HashMap::new(),
            script_globals: Vec::new(),
        };
        proof {
            assert(r@.players.dom() =~= Set::new(|s: usize| s < PLAYER_COUNT));
        }
        r
    }

    pub fn app_name(&self) -> (r: &str)
        ensures
            r@ == self@.app_name,
    {
        self.app_name.as_str()
    }

    /// The load screen's one-line description of this save.
    pub fn summary(&self) -> (r: String)
        ensures
            r@ == summary_text(self@.scene_name, self@.block_name, self@.quest_percentage),
    {
        let mut s = String::new();
        let scene_empty = self.scene_name.as_str().is_empty();
        let block_empty = self.block_name.as_str().is_empty();
        if !scene_empty {
            push_str(&mut s, self.scene_name.as_str());
            if !block_empty {
                push_str(&mut s, "/");
                push_str(&mut s, self.block_name.as_str());
            }
            push_str(&mut s, " - ");
        }
        push_str(&mut s, "Quest ");
        push_signed_decimal(&mut s, self.quest_percentage as i64);
        push_str(&mut s, "%");
        proof {
            reveal_strlit("/");
            reveal_strlit(" - ");
            reveal_strlit("Quest ");
            reveal_strlit("%");
            let q = quest_label() + signed_decimal(self.quest_percentage as int) + seq!['%'];
            if scene_empty {
                assert(s@ =~= q);
            } else if block_empty {
                assert(s@ =~= self.scene_name@ + seq![' ', '-', ' '] + q);
            } else {
                assert(s@ =~= self.scene_name@ + seq!['/'] + self.block_name@ + seq![' ', '-', ' '] + q);
            }
        }
        s
    }

    pub fn money(&self) -> (r: i32)
        ensures
            r == self@.money,
    {
        self.money
    }

    /// Add (or, for a negative amount, subtract) money, saturating at the
    /// `i32` bounds.
    pub fn add_money(&mut self, amount: i32)
        ensures
            final(self)@ == (PersistentStateView { money: saturating_add_i32(old(self)@.money, amount), ..old(self)@ }),
    {
        let m = self.money;
        let r: i32 = if amount > 0 && m > i32::MAX - amount {
            i32::MAX
        } else if amount < 0 && m < i32::MIN - amount {
            i32::MIN
        } else {
            m + amount
        };
        self.money = r;
    }

    /// Deduct `amount`, clamping at zero. Returns whether the money
    /// covered the full cost.
    pub fn pay_money(&mut self, amount: i32) -> (paid: bool)
        requires
            old(self)@.money < amount || old(self)@.money - amount <= i32::MAX,
        ensures
            paid == (old(self)@.money >= amount),
            final(self)@ == (PersistentStateView {
                money: if paid { (old(self)@.money - amount) as i32 } else { 0i32 },
                ..old(self)@
            }),
    {
        if self.money >= amount {
            self.money = self.money - amount;
            true
        } else {
            self.money = 0;
            false
        }
    }

    pub fn quest_percentage(&self) -> (r: i32)
        ensures
            r == self@.quest_percentage,
    {
        self.quest_percentage
    }

    /// Change quest completion by `delta`, clamped to `0..=100`.
    pub fn add_quest_percentage(&mut self, delta: i32)
        requires
            i32::MIN <= old(self)@.quest_percentage + delta <= i32::MAX,
        ensures
            final(self)@ == (PersistentStateView {
                quest_percentage: clamp_percentage(old(self)@.quest_percentage + delta),
                ..old(self)@
            }),
    {
        let v = self.quest_percentage + delta;
        self.quest_percentage = if v < 0 {
            0
        } else if v > 100 {
            100
        } else {
            v
        };
    }

    pub fn leader(&self) -> (r: usize)
        ensures
            r == self@.leader,
    {
        self.leader
    }

    pub fn set_leader(&mut self, leader: usize)
        ensures
            final(self)@ == (PersistentStateView { leader, ..old(self)@ }),
    {
        self.leader = leader;
    }

    pub fn scene_name(&self) -> (r: &str)
        ensures
            r@ == self@.scene_name,
    {
        self.scene_name.as_str()
    }

    pub fn block_name(&self) -> (r: &str)
        ensures
            r@ == self@.block_name,
    {
        self.block_name.as_str()
    }

    pub fn set_scene(&mut self, scene_name: String, block_name: String)
        ensures
            final(self)@ == (PersistentStateView { scene_name: scene_name@, block_name: block_name@, ..old(self)@ }),
    {
        self.scene_name = scene_name;
        self.block_name = block_name;
    }

    pub fn set_position(&mut self, position: Option<P>)
        ensures
            final(self)@ == (PersistentStateView { position, ..old(self)@ }),
    {
        self.position = position;
    }

    pub fn set_direction(&mut self, direction: Option<D>)
        ensures
            final(self)@ == (PersistentStateView { direction, ..old(self)@ }),
    {
        self.direction = direction;
    }

    pub fn player_locked(&self) -> (r: bool)
        ensures
            r == self@.player_locked,
    {
        self.player_locked
    }

    pub fn set_player_locked(&mut self, locked: bool)
        ensures
            final(self)@ == (PersistentStateView { player_locked: locked, ..old(self)@ }),
    {
        self.player_locked = locked;
    }

    pub fn camera(&self) -> (r: Option<&C>)
        ensures
            r matches Some(c) ==> self@.camera == Some(*c),
            r is None <==> self@.camera is None,
    {
        self.camera.as_ref()
    }

    pub fn set_camera(&mut self, camera: Option<C>)
        ensures
            final(self)@ == (PersistentStateView { camera, ..old(self)@ }),
    {
        self.camera = camera;
    }

    pub fn script_globals(&self) -> (r: &[u32])
        ensures
            r@ == self@.script_globals,
    {
        self.script_globals.as_slice()
    }

    pub fn set_script_globals(&mut self, globals: Vec<u32>)
        ensures
            final(self)@ == (PersistentStateView { script_globals: globals@, ..old(self)@ }),
    {
        self.script_globals = globals;
    }
}

} // verus!

verus! {

impl<P, D, C> Pal4PersistentState<P, D, C> {
    /// Takes the record for `slot` out of the party (the default record
    /// for an empty slot); `restore_player` puts the changed one back.
    fn detach_player(&mut self, slot: usize) -> (r: PlayerState)
        ensures
            final(self)@ == (PersistentStateView { players: old(self)@.players.remove(slot), ..old(self)@ }),
            r@ == player_or_default(old(self)@.players, slot),
            !final(self).players@.contains_key(slot),
    {
        let mut ps: HashMap<usize, PlayerState> = HashMap::new();
        std::mem::swap(&mut ps, &mut self.players);
        let ghost before = ps@;
        let r = match ps.remove(&slot) {
            Some(rec) => rec,
            None => PlayerState::default(),
        };
        proof {
            assert(players_map(ps@) =~= players_map(before).remove(slot));
        }
        self.players = ps;
        r
    }

    /// Sets the record of a slot.
    fn restore_player(&mut self, slot: usize, rec: PlayerState)
        ensures
            final(self)@ == (PersistentStateView { players: old(self)@.players.insert(slot, rec@), ..old(self)@ }),
    {
        let mut ps: HashMap<usize, PlayerState> = HashMap::new();
        std::mem::swap(&mut ps, &mut self.players);
        let ghost before = ps@;
        ps.insert(slot, rec);
        proof {
            assert(players_map(ps@) =~= players_map(before).insert(slot, rec@));
        }
        self.players = ps;
    }

    /// The record of a party slot, if it has one.
    pub fn player(&self, slot: usize) -> (r: Option<&PlayerState>)
        ensures
            r matches Some(p) ==> self@.players.contains_key(slot) && self@.players[slot] == p@,
            r is None ==> !self@.players.contains_key(slot),
    {
        self.players.get(&slot)
    }

    pub fn set_player_level(&mut self, slot: usize, level: i32)
        ensures
            final(self)@ == (PersistentStateView {
                players: old(self)@.players.insert(slot, PlayerStateView { level, ..player_or_default(old(self)@.players, slot) }),
                ..old(self)@
            }),
    {
        let mut p = self.detach_player(slot);
        p.level = level;
        self.restore_player(slot, p);
        proof {
            assert(self@.players =~= old(self)@.players.insert(slot, PlayerStateView { level, ..player_or_default(old(self)@.players, slot) }));
        }
    }

    /// A slot's level; 1 for an empty slot.
    pub fn player_level(&self, slot: usize) -> (r: i32)
        ensures
            r == player_or_default(self@.players, slot).level,
    {
        match self.player(slot) {
            Some(p) => p.level,
            None => 1,
        }
    }

    pub fn set_in_team(&mut self, slot: usize, in_team: bool)
        ensures
            final(self)@ == (PersistentStateView {
                players: old(self)@.players.insert(slot, PlayerStateView { in_team, ..player_or_default(old(self)@.players, slot) }),
                ..old(self)@
            }),
    {
        let mut p = self.detach_player(slot);
        p.in_team = in_team;
        self.restore_player(slot, p);
        proof {
            assert(self@.players =~= old(self)@.players.insert(slot, PlayerStateView { in_team, ..player_or_default(old(self)@.players, slot) }));
        }
    }

    /// Teach a skill, unless the player already knows it.
    pub fn add_skill(&mut self, slot: usize, skill_id: i32)
        ensures
            ({
                let p = player_or_default(old(self)@.players, slot);
                final(self)@ == (PersistentStateView {
                    players: old(self)@.players.insert(slot, PlayerStateView {
                        skills: if p.skills.contains(skill_id) { p.skills } else { p.skills.push(skill_id) },
                        ..p
                    }),
                    ..old(self)@
                })
            }),
    {
        let mut p = self.detach_player(slot);
        if !vec_contains_i32(&p.skills, skill_id) {
            p.skills.push(skill_id);
        }
        self.restore_player(slot, p);
        proof {
            let q = player_or_default(old(self)@.players, slot);
            assert(self@.players =~= old(self)@.players.insert(slot, PlayerStateView {
                skills: if q.skills.contains(skill_id) { q.skills } else { q.skills.push(skill_id) },
                ..q
            }));
        }
    }

    /// Attach an equipment id to a player, unless already attached.
    pub fn add_player_equip(&mut self, slot: usize, equip_id: i32)
        ensures
            ({
                let p = player_or_default(old(self)@.players, slot);
                final(self)@ == (PersistentStateView {
                    players: old(self)@.players.insert(slot, PlayerStateView {
                        equipment: if p.equipment.contains(equip_id) { p.equipment } else { p.equipment.push(equip_id) },
                        ..p
                    }),
                    ..old(self)@
                })
            }),
    {
        let mut p = self.detach_player(slot);
        if !vec_contains_i32(&p.equipment, equip_id) {
            p.equipment.push(equip_id);
        }
        self.restore_player(slot, p);
        proof {
            let q = player_or_default(old(self)@.players, slot);
            assert(self@.players =~= old(self)@.players.insert(slot, PlayerStateView {
                equipment: if q.equipment.contains(equip_id) { q.equipment } else { q.equipment.push(equip_id) },
                ..q
            }));
        }
    }

    /// Refill a player's HP.
    pub fn set_full_hp(&mut self, slot: usize)
        ensures
            ({
                let p = player_or_default(old(self)@.players, slot);
                final(self)@ == (PersistentStateView {
                    players: old(self)@.players.insert(slot, PlayerStateView { hp: p.max_hp, ..p }),
                    ..old(self)@
                })
            }),
    {
        let mut p = self.detach_player(slot);
        p.hp = p.max_hp;
        self.restore_player(slot, p);
        proof {
            let q = player_or_default(old(self)@.players, slot);
            assert(self@.players =~= old(self)@.players.insert(slot, PlayerStateView { hp: q.max_hp, ..q }));
        }
    }

    /// Refill a player's MP.
    pub fn set_full_mp(&mut self, slot: usize)
        ensures
            ({
                let p = player_or_default(old(self)@.players, slot);
                final(self)@ == (PersistentStateView {
                    players: old(self)@.players.insert(slot, PlayerStateView { mp: p.max_mp, ..p }),
                    ..old(self)@
                })
            }),
    {
        let mut p = self.detach_player(slot);
        p.mp = p.max_mp;
        self.restore_player(slot, p);
        proof {
            let q = player_or_default(old(self)@.players, slot);
            assert(self@.players =~= old(self)@.players.insert(slot, PlayerStateView { mp: q.max_mp, ..q }));
        }
    }
}

/// Whether `v` holds `x`.
pub fn vec_contains_i32(v: &Vec<i32>, x: i32) -> (r: bool)
    ensures
        r == v@.contains(x),
{
    let mut i: usize = 0;
    while i < v.len()
        invariant
            i <= v.len(),
            forall|j: int| 0 <= j < i ==> v@[j] != x,
        decreases v.len() - i,
    {
        if v[i] == x {
            assert(v@[i as int] == x);
            return true;
        }
        i = i + 1;
    }
    false
}

} // verus!

verus! {

/// The map a list of `(key, value)` pairs builds when each pair is
/// inserted in order, later pairs replacing earlier ones.
pub open spec fn last_wins<K, V>(s: Seq<(K, V)>) -> Map<K, V>
    decreases s.len(),
{
    if s.len() == 0 {
        Map::empty()
    } else {
        last_wins(s.drop_last()).insert(s.last().0, s.last().1)
    }
}

impl<P, D, C> Pal4PersistentState<P, D, C> {
    /// The inventory: the count of each item held.
    pub fn inventory_iter(&self) -> (r: &HashMap<i32, i32>)
        ensures
            r@ == self@.inventory,
    {
        &self.inventory
    }

    /// The party records by slot.
    pub fn player_entries(&self) -> (r: &HashMap<usize, PlayerState>)
        ensures
            players_map(r@) == self@.players,
    {
        &self.players
    }

    /// Change an item's count by `count` (negative removes), clamping at
    /// zero; an item whose count reaches zero leaves the inventory.
    pub fn add_equipment(&mut self, equip_id: i32, count: i32)
        requires
            i32::MIN <= count_of(old(self)@.inventory, equip_id) + count <= i32::MAX,
        ensures
            final(self)@ == (PersistentStateView {
                inventory: inventory_after_add(old(self)@.inventory, equip_id, count as int),
                ..old(self)@
            }),
    {
        let current = self.equipment_count(equip_id);
        let c = current + count;
        let mut inv: HashMap<i32, i32> = HashMap::new();
        std::mem::swap(&mut inv, &mut self.inventory);
        if c <= 0 {
            inv.remove(&equip_id);
        } else {
            inv.insert(equip_id, c);
        }
        self.inventory = inv;
    }

    /// Take `count` of an item out of the inventory.
    pub fn remove_equipment(&mut self, equip_id: i32, count: i32)
        requires
            count != i32::MIN,
            i32::MIN <= count_of(old(self)@.inventory, equip_id) - count <= i32::MAX,
        ensures
            final(self)@ == (PersistentStateView {
                inventory: inventory_after_add(old(self)@.inventory, equip_id, -count),
                ..old(self)@
            }),
    {
        self.add_equipment(equip_id, -count);
    }

    pub fn has_equipment(&self, equip_id: i32) -> (r: bool)
        ensures
            r == (count_of(self@.inventory, equip_id) > 0),
    {
        self.equipment_count(equip_id) > 0
    }

    pub fn equipment_count(&self, equip_id: i32) -> (r: i32)
        ensures
            r == count_of(self@.inventory, equip_id),
    {
        match self.inventory.get(&equip_id) {
            Some(c) => *c,
            None => 0,
        }
    }

    pub fn position(&self) -> (r: Option<P>)
        where P: Copy
        ensures
            r == self@.position,
    {
        self.position
    }

    pub fn direction(&self) -> (r: Option<D>)
        where D: Copy
        ensures
            r == self@.direction,
    {
        self.direction
    }

    /// A state with the given fields. Player records and inventory entries
    /// are taken in order, a later entry for a key replacing an earlier one.
    pub fn from_parts(
        app_name: String,
        money: i32,
        quest_percentage: i32,
        leader: usize,
        scene_name: String,
        block_name: String,
        position: Option<P>,
        direction: Option<D>,
        player_locked: bool,
        camera: Option<C>,
        players: Vec<(usize, PlayerState)>,
        inventory: Vec<(i32, i32)>,
        script_globals: Vec<u32>,
    ) -> (r: Self)
        ensures
            r@ == (PersistentStateView {
                app_name: app_name@,
                money,
                quest_percentage,
                leader,
                scene_name: scene_name@,
                block_name: block_name@,
                position,
                direction,
                player_locked,
                camera,
                players: last_wins(players@).map_values(|p: PlayerState| p@),
                inventory: last_wins(inventory@),
                script_globals: script_globals@,
            }),
    {
        let mut ps: HashMap<usize, PlayerState> = HashMap::new();
        proof {
            assert(players_map(ps@) =~= Map::empty());
            assert(last_wins(players@.take(0)).map_values(|p: PlayerState| p@) =~= Map::empty());
        }
        let ghost input = players@;
        for e in it: players
            invariant
                it.seq() == input,
                players_map(ps@) == last_wins(input.take(it.index() as int)).map_values(|p: PlayerState| p@),
        {
            let (slot, rec) = e;
            let ghost i = it.index();
            let ghost before = ps@;
            ps.insert(slot, rec);
            proof {
                assert(input.take(i + 1).drop_last() =~= input.take(i as int));
                assert(input.take(i + 1).last() == input[i as int]);
                assert(players_map(ps@) =~= players_map(before).insert(slot, rec@));
                assert(players_map(ps@) =~= last_wins(input.take(i + 1)).map_values(|p: PlayerState| p@));
            }
        }
        proof {
            assert(input.take(input.len() as int) =~= input);
        }
        let mut inv: HashMap<i32, i32> = HashMap::new();
        proof {
            assert(last_wins(inventory@.take(0)) =~= Map::empty());
        }
        let mut i: usize = 0;
        while i < inventory.len()
            invariant
                i <= inventory.len(),
                inv@ == last_wins(inventory@.take(i as int)),
            decreases inventory.len() - i,
        {
            let (id, count) = inventory[i];
            inv.insert(id, count);
            proof {
                assert(inventory@.take(i + 1).drop_last() =~= inventory@.take(i as int));
            }
            i = i + 1;
        }
        proof {
            assert(inventory@.take(inventory.len() as int) =~= inventory@);
        }
        Pal4PersistentState {
            app_name,
            money,
            quest_percentage,
            leader,
            scene_name,
            block_name,
            position,
            direction,
            player_locked,
            camera,
            players: ps,
            inventory: inv,
            script_globals,
        }
    }
}

} // verus!

verus! {

/// Adding a positive count of an item and then removing the same count
/// leaves the inventory as it was, provided the item, if held, was held
/// with a positive count.
pub proof fn law_add_then_remove_equipment(m: Map<i32, i32>, id: i32, count: int)
    requires
        count > 0,
        count_of(m, id) + count <= i32::MAX,
        m.contains_key(id) ==> m[id] > 0,
    ensures
        inventory_after_add(inventory_after_add(m, id, count), id, -count) == m,
{
    let m1 = inventory_after_add(m, id, count);
    assert(count_of(m1, id) == count_of(m, id) + count);
    if m.contains_key(id) {
        assert(m1.insert(id, m[id]) =~= m);
        assert(inventory_after_add(m1, id, -count) =~= m);
    } else {
        assert(m1.remove(id) =~= m);
    }
}

/// An item's count after adding `count` to it: the old count plus
/// `count`, down to zero.
pub proof fn law_equipment_count_after_add(m: Map<i32, i32>, id: i32, other: i32, count: int)
    requires
        i32::MIN <= count_of(m, id) + count <= i32::MAX,
    ensures
        count_of(inventory_after_add(m, id, count), id) == if count_of(m, id) + count > 0 {
            count_of(m, id) + count
        } else {
            0
        },
        other != id ==> count_of(inventory_after_add(m, id, count), other) == count_of(m, other),
{
}

/// Adding money changes it by exactly the amount, positive or negative,
/// unless the sum leaves the `i32` range, where it stops at the nearest
/// bound; so adding an amount and then its negation gives the money back
/// whenever neither sum leaves the range.
pub proof fn law_add_money_adds(money: i32, amount: i32)
    ensures
        i32::MIN <= money + amount <= i32::MAX ==> saturating_add_i32(money, amount) == money + amount,
        money + amount > i32::MAX ==> saturating_add_i32(money, amount) == i32::MAX,
        money + amount < i32::MIN ==> saturating_add_i32(money, amount) == i32::MIN,
        i32::MIN <= money + amount <= i32::MAX && amount != i32::MIN ==> saturating_add_i32(
            saturating_add_i32(money, amount),
            (-amount) as i32,
        ) == money,
{
}

/// Money added and then paid back, without saturating: the payment
/// succeeds and the money is as it was.
pub proof fn law_add_then_pay_money(money: i32, amount: i32)
    requires
        0 <= amount,
        0 <= money,
        money + amount <= i32::MAX,
    ensures
        saturating_add_i32(money, amount) >= amount,
        saturating_add_i32(money, amount) - amount == money,
{
}

/// The quest percentage always stays within `0..=100`.
pub proof fn law_quest_percentage_in_range(v: int)
    ensures
        0 <= clamp_percentage(v) <= 100,
{
}

} // verus!
