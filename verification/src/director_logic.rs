//! Decisions of the PAL4 story director that do not touch the engine:
//! the settling of deferred trigger fires, the save/load hotkeys, the
//! script-globals window, and the validation of agent requests that fire
//! a trigger or examine an object.
use vstd::prelude::*;

use crate::app_state::DialogAvatarSide;
use crate::assoc::{assoc_map, has_key, key_index, keys_unique, lemma_lookup, lemma_sorted_i32_unique, sorted_i32};
use crate::persistent_state::Pal4PersistentState;
use crate::app_state::inventory_snapshot;
use crate::text::push_str;

verus! {

/// Consecutive idle frames after which a deferred fire counts as settled.
pub const IDLE_SETTLE_FRAMES: u32 = 2;

/// Timeout of a deferred fire when the request gives none, in ms.
pub const DEFAULT_FIRE_TIMEOUT_MS: u64 = 5000;

/// Longest timeout a deferred fire may ask for, in ms.
pub const MAX_FIRE_TIMEOUT_MS: u64 = 180000;

/// The timeout of a request, capped, converted to frames at 60 per
/// second and rounded up.
pub open spec fn timeout_frames(timeout_ms: Option<u64>) -> int {
    let t: int = match timeout_ms {
        Some(ms) => if ms <= MAX_FIRE_TIMEOUT_MS { ms as int } else { MAX_FIRE_TIMEOUT_MS as int },
        None => DEFAULT_FIRE_TIMEOUT_MS as int,
    };
    (t * 60 + 999) / 1000
}

pub fn fire_timeout_frames(timeout_ms: Option<u64>) -> (r: u32)
    ensures
        r == timeout_frames(timeout_ms),
{
    let timeout: u64 = match timeout_ms {
        Some(ms) => if ms <= MAX_FIRE_TIMEOUT_MS { ms } else { MAX_FIRE_TIMEOUT_MS },
        None => DEFAULT_FIRE_TIMEOUT_MS,
    };
    let frames = (timeout * 60 + 999) / 1000;
    frames as u32
}

/// A `fire_trigger` request that waits until the script settles. `E` is
/// the engine's handle for replying to the request.
pub struct PendingFire<E> {
    pub env: E,
    pub name: String,
    pub collect_trace: bool,
    pub start_seq: u64,
    pub waited_frames: u32,
    pub idle_streak: u32,
    pub max_frames: u32,
}

/// The reply to a deferred fire, but for the name of the function the
/// script is in, which the engine adds.
pub struct FireReply {
    pub name: String,
    pub settled: bool,
    pub trace_seq_start: Option<u64>,
    pub trace_seq_end: Option<u64>,
    pub waited_frames: u32,
}

pub open spec fn sat_inc(x: u32) -> u32 {
    if x < u32::MAX { (x + 1) as u32 } else { u32::MAX }
}

/// Frame counters of a pending fire after one frame.
pub open spec fn after_frame(waited: u32, streak: u32, script_idle: bool) -> (u32, u32) {
    (sat_inc(waited), if script_idle { sat_inc(streak) } else { 0 })
}

/// Whether a fire with these counters (after the frame) gets its reply.
pub open spec fn fire_done(waited: u32, streak: u32, max_frames: u32) -> bool {
    streak >= IDLE_SETTLE_FRAMES || waited >= max_frames
}

/// Starts waiting on a fire that was dispatched, with the trace position
/// at dispatch.
pub fn begin_pending_fire<E>(env: E, name: String, collect_trace: bool, start_seq: u64, timeout_ms: Option<u64>) -> (r:
    PendingFire<E>)
    ensures
        r.env == env,
        r.name == name,
        r.collect_trace == collect_trace,
        r.start_seq == start_seq,
        r.waited_frames == 0,
        r.idle_streak == 0,
        r.max_frames == timeout_frames(timeout_ms),
{
    PendingFire {
        env,
        name,
        collect_trace,
        start_seq,
        waited_frames: 0,
        idle_streak: 0,
        max_frames: fire_timeout_frames(timeout_ms),
    }
}

/// Queues a `fire_trigger` that waits for the script to settle, given how
/// its dispatch went (`dispatched`, the answer firing the trigger gave): a
/// fire whose dispatch failed is answered at once with that failure and
/// never queued; a dispatched one joins the end of the queue, fresh, and is
/// answered by a later poll.
pub fn queue_pending_fire<E, R>(
    pending: &mut Vec<PendingFire<E>>,
    env: E,
    name: String,
    collect_trace: bool,
    start_seq: u64,
    timeout_ms: Option<u64>,
    dispatched: Result<(), R>,
) -> (r: Option<(E, R)>)
    ensures
        dispatched matches Err(e) ==> r == Some((env, e)) && final(pending)@ == old(pending)@,
        dispatched is Ok ==> r is None && final(pending)@ == old(pending)@.push(
            PendingFire {
                env,
                name,
                collect_trace,
                start_seq,
                waited_frames: 0,
                idle_streak: 0,
                max_frames: timeout_frames(timeout_ms) as u32,
            },
        ),
{
    match dispatched {
        Err(e) => Some((env, e)),
        Ok(()) => {
            let fire = begin_pending_fire(env, name, collect_trace, start_seq, timeout_ms);
            pending.push(fire);
            None
        },
    }
}

/// The reply a pending fire gets this frame, if it is answered: once it
/// has been idle long enough (settled), or has waited its whole timeout.
pub open spec fn fire_reply<E>(f: PendingFire<E>, script_idle: bool, now_seq: u64) -> Option<(E, FireReply)> {
    let (w, s) = after_frame(f.waited_frames, f.idle_streak, script_idle);
    if fire_done(w, s, f.max_frames) {
        Some((f.env, FireReply {
            name: f.name,
            settled: s >= IDLE_SETTLE_FRAMES,
            trace_seq_start: if f.collect_trace { Some(f.start_seq) } else { None },
            trace_seq_end: if f.collect_trace { Some(now_seq) } else { None },
            waited_frames: w,
        }))
    } else {
        None
    }
}

/// The pending fire as it keeps waiting after this frame, if it does.
pub open spec fn fire_kept<E>(f: PendingFire<E>, script_idle: bool) -> Option<PendingFire<E>> {
    let (w, s) = after_frame(f.waited_frames, f.idle_streak, script_idle);
    if fire_done(w, s, f.max_frames) {
        None
    } else {
        Some(PendingFire { waited_frames: w, idle_streak: s, ..f })
    }
}

/// `fire_reply` as a function of the fire.
pub open spec fn replies_of<E>(script_idle: bool, now_seq: u64) -> spec_fn(PendingFire<E>) -> Option<(E, FireReply)> {
    |f: PendingFire<E>| fire_reply(f, script_idle, now_seq)
}

/// `fire_kept` as a function of the fire.
pub open spec fn kept_of<E>(script_idle: bool) -> spec_fn(PendingFire<E>) -> Option<PendingFire<E>> {
    |f: PendingFire<E>| fire_kept(f, script_idle)
}

/// One frame for every pending fire, after the script has run: each
/// counts the frame, and its idle streak grows while no script runs and
/// restarts otherwise. The fires that are answered give their replies, the
/// others keep waiting, both in their order. The trace window of a reply
/// runs from the fire's dispatch to `now_seq`, when it asked for a trace.
pub fn poll_pending_fires<E>(fires: Vec<PendingFire<E>>, script_idle: bool, now_seq: u64) -> (r: (
    Vec<(E, FireReply)>,
    Vec<PendingFire<E>>,
))
    ensures
        r.0@ == fires@.filter_map(replies_of::<E>(script_idle, now_seq)),
        r.1@ == fires@.filter_map(kept_of::<E>(script_idle)),
{
    let mut replies: Vec<(E, FireReply)> = Vec::new();
    let mut keep: Vec<PendingFire<E>> = Vec::new();
    let ghost input = fires@;
    proof {
        assert(input.take(0) =~= Seq::<PendingFire<E>>::empty());
    }
    for pf in it: fires
        invariant
            it.seq() == input,
            replies@ == input.take(it.index() as int).filter_map(replies_of::<E>(script_idle, now_seq)),
            keep@ == input.take(it.index() as int).filter_map(kept_of::<E>(script_idle)),
    {
        let ghost i = it.index() as int;
        proof {
            assert(input.take(i + 1).drop_last() =~= input.take(i));
            assert(input.take(i + 1).last() == input[i]);
        }
        let PendingFire { env, name, collect_trace, start_seq, waited_frames, idle_streak, max_frames } = pf;
        let waited = waited_frames.saturating_add(1);
        let streak = if script_idle {
            idle_streak.saturating_add(1)
        } else {
            0
        };
        let timed_out = waited >= max_frames;
        let settled = streak >= IDLE_SETTLE_FRAMES;
        if settled || timed_out {
            let reply = FireReply {
                name,
                settled,
                trace_seq_start: if collect_trace { Some(start_seq) } else { None },
                trace_seq_end: if collect_trace { Some(now_seq) } else { None },
                waited_frames: waited,
            };
            let ghost before = replies@;
            replies.push((env, reply));
            proof {
                assert(replies@ =~= before + seq![replies@.last()]);
            }
        } else {
            let ghost before = keep@;
            keep.push(
                PendingFire { env, name, collect_trace, start_seq, waited_frames: waited, idle_streak: streak, max_frames },
            );
            proof {
                assert(keep@ =~= before + seq![keep@.last()]);
            }
        }
    }
    proof {
        assert(input.take(input.len() as int) =~= input);
    }
    (replies, keep)
}

/// Every entry of `s.filter_map(f)` is `f` of an entry of `s`.
proof fn lemma_filter_map_from<A, B>(s: Seq<A>, f: spec_fn(A) -> Option<B>, k: int)
    requires
        0 <= k < s.filter_map(f).len(),
    ensures
        exists|i: int| 0 <= i < s.len() && f(s[i]) == Some(s.filter_map(f)[k]),
    decreases s.len(),
{
    let rest = s.drop_last();
    match f(s.last()) {
        Some(b) => {
            if k < rest.filter_map(f).len() {
                lemma_filter_map_from(rest, f, k);
                let i = choose|i: int| 0 <= i < rest.len() && f(rest[i]) == Some(rest.filter_map(f)[k]);
                assert(s[i] == rest[i]);
            } else {
                assert(f(s[s.len() - 1]) == Some(s.filter_map(f)[k]));
            }
        },
        None => {
            lemma_filter_map_from(rest, f, k);
            let i = choose|i: int| 0 <= i < rest.len() && f(rest[i]) == Some(rest.filter_map(f)[k]);
            assert(s[i] == rest[i]);
        },
    }
}

/// The reply given to a fire whose director is torn down: a conflict.
pub open spec fn torn_down_reply<E>(reply: (E, AgentFailure), env: E) -> bool {
    &&& reply.0 == env
    &&& reply.1.kind == AgentErrorKind::Conflict
    &&& reply.1.message@ == "mode changed before trigger settled"@
}

/// The replies to the fires still waiting when their director is torn
/// down: every one, in order, is refused as a conflict, since its script
/// will never settle.
pub fn fail_pending_fires<E>(fires: Vec<PendingFire<E>>) -> (r: Vec<(E, AgentFailure)>)
    ensures
        r.len() == fires.len(),
        forall|k: int| 0 <= k < r.len() ==> torn_down_reply(#[trigger] r@[k], fires@[k].env),
{
    let mut out: Vec<(E, AgentFailure)> = Vec::new();
    let ghost input = fires@;
    for pf in it: fires
        invariant
            it.seq() == input,
            out.len() == it.index(),
            forall|k: int| 0 <= k < out.len() ==> torn_down_reply(#[trigger] out@[k], input[k].env),
    {
        let PendingFire { env, .. } = pf;
        out.push((env, failure(AgentErrorKind::Conflict, "mode changed before trigger settled")));
    }
    out
}

/// No deferred fire outlives its timeout: each fire still waiting after a
/// poll has waited fewer frames than its timeout, and each reply that
/// says "settled" saw the script idle for the settle window.
pub proof fn law_pending_fire_bounded<E>(fires: Seq<PendingFire<E>>, script_idle: bool, now_seq: u64)
    ensures
        forall|k: int|
            0 <= k < fires.filter_map(kept_of::<E>(script_idle)).len() ==> {
                let p = #[trigger] fires.filter_map(kept_of::<E>(script_idle))[k];
                p.waited_frames < p.max_frames && p.idle_streak < IDLE_SETTLE_FRAMES
            },
        forall|k: int|
            0 <= k < fires.filter_map(replies_of::<E>(script_idle, now_seq)).len() && (
            #[trigger] fires.filter_map(replies_of::<E>(script_idle, now_seq))[k]).1.settled ==> script_idle,
{
    let kept = kept_of::<E>(script_idle);
    let replied = replies_of::<E>(script_idle, now_seq);
    assert forall|k: int| 0 <= k < fires.filter_map(kept).len() implies {
        let p = #[trigger] fires.filter_map(kept)[k];
        p.waited_frames < p.max_frames && p.idle_streak < IDLE_SETTLE_FRAMES
    } by {
        lemma_filter_map_from(fires, kept, k);
    }
    assert forall|k: int| 0 <= k < fires.filter_map(replied).len() && (#[trigger] fires.filter_map(replied)[k]).1.settled
        implies script_idle by {
        lemma_filter_map_from(fires, replied, k);
    }
}

/// A pending fire as it stands after one poll per entry of `idles` (each
/// saying whether the script was idle that frame), or `None` once one of
/// those polls answered it.
pub open spec fn fire_after_polls<E>(f: PendingFire<E>, idles: Seq<bool>) -> Option<PendingFire<E>>
    decreases idles.len(),
{
    if idles.len() == 0 {
        Some(f)
    } else {
        match fire_after_polls(f, idles.drop_last()) {
            Some(g) => fire_kept(g, idles.last()),
            None => None,
        }
    }
}

/// The number of idle polls at the end of `idles`.
pub open spec fn trailing_idle(idles: Seq<bool>) -> nat
    decreases idles.len(),
{
    if idles.len() == 0 || !idles.last() {
        0
    } else {
        trailing_idle(idles.drop_last()) + 1
    }
}

/// A fresh fire that is still waiting has been polled once per frame, its
/// idle streak is the trailing idle run, and it is still short of both its
/// timeout and the settle window.
proof fn lemma_fire_after_polls<E>(f: PendingFire<E>, idles: Seq<bool>)
    requires
        f.waited_frames == 0,
        f.idle_streak == 0,
    ensures
        fire_after_polls(f, idles) matches Some(g) ==> {
            &&& g == (PendingFire { waited_frames: idles.len() as u32, idle_streak: trailing_idle(idles) as u32, ..f })
            &&& idles.len() >= 1 ==> idles.len() < f.max_frames
            &&& trailing_idle(idles) < IDLE_SETTLE_FRAMES
        },
    decreases idles.len(),
{
    if idles.len() > 0 {
        let rest = idles.drop_last();
        lemma_fire_after_polls(f, rest);
    }
}

/// A deferred fire is answered exactly once and in time: a fresh fire has
/// been answered by its `max(m, 1)`-th poll (`m` its timeout in frames) and
/// by its second consecutive idle poll at the latest; while it waits it has
/// been polled once per frame; and the poll that answers it reports the
/// number of polls so far, and "settled" exactly when that poll ends the
/// second consecutive idle frame.
pub proof fn law_fire_answered_in_time<E>(f: PendingFire<E>, idles: Seq<bool>, idle: bool, now_seq: u64)
    requires
        f.waited_frames == 0,
        f.idle_streak == 0,
    ensures
        idles.len() >= 1 && idles.len() >= f.max_frames ==> fire_after_polls(f, idles) is None,
        idles.len() >= 2 && idles[idles.len() - 1] && idles[idles.len() - 2] ==> fire_after_polls(f, idles) is None,
        fire_after_polls(f, idles) is None ==> fire_after_polls(f, idles.push(idle)) is None,
        fire_after_polls(f, idles) matches Some(g) ==> g.waited_frames == idles.len() && g.idle_streak
            == trailing_idle(idles),
        fire_after_polls(f, idles) matches Some(g) ==> match fire_reply(g, idle, now_seq) {
            Some((e, rep)) => {
                &&& e == f.env
                &&& rep.waited_frames == idles.len() + 1
                &&& rep.settled == (idle && trailing_idle(idles) + 1 >= IDLE_SETTLE_FRAMES)
                &&& fire_after_polls(f, idles.push(idle)) is None
            },
            None => fire_after_polls(f, idles.push(idle)) is Some,
        },
{
    lemma_fire_after_polls(f, idles);
    let pushed = idles.push(idle);
    assert(pushed.drop_last() =~= idles);
    if idles.len() >= 2 && idles[idles.len() - 1] && idles[idles.len() - 2] {
        let r1 = idles.drop_last();
        assert(r1.last() == idles[idles.len() - 2]);
        assert(trailing_idle(idles) == trailing_idle(r1) + 1);
        assert(trailing_idle(r1) >= 1);
    }
}

/// One poll answers a pending fire or keeps it, never both and never
/// neither.
proof fn lemma_answered_or_kept<E>(f: PendingFire<E>, script_idle: bool, now_seq: u64)
    ensures
        fire_reply(f, script_idle, now_seq) is Some <==> fire_kept(f, script_idle) is None,
{
}

/// A poll over a whole queue loses no fire and answers none twice: every
/// queued fire is either answered (its reply among the replies) or kept,
/// so the replies and the kept fires together number the queue; the
/// kept fires stay in their order, each with one more frame counted.
pub proof fn law_poll_partitions_queue<E>(fires: Seq<PendingFire<E>>, script_idle: bool, now_seq: u64)
    ensures
        fires.filter_map(replies_of::<E>(script_idle, now_seq)).len() + fires.filter_map(kept_of::<E>(script_idle)).len()
            == fires.len(),
        forall|i: int|
            0 <= i < fires.len() ==> (fire_reply(#[trigger] fires[i], script_idle, now_seq) is Some <==> fire_kept(
                fires[i],
                script_idle,
            ) is None),
    decreases fires.len(),
{
    assert forall|i: int| 0 <= i < fires.len() implies (fire_reply(#[trigger] fires[i], script_idle, now_seq) is Some
        <==> fire_kept(fires[i], script_idle) is None) by {
        lemma_answered_or_kept(fires[i], script_idle, now_seq);
    }
    if fires.len() > 0 {
        let rest = fires.drop_last();
        law_poll_partitions_queue(rest, script_idle, now_seq);
        lemma_answered_or_kept(fires.last(), script_idle, now_seq);
        let r = replies_of::<E>(script_idle, now_seq);
        let k = kept_of::<E>(script_idle);
        assert(fires.filter_map(r) == rest.filter_map(r) + (match r(fires.last()) {
            Some(b) => seq![b],
            None => Seq::empty(),
        }));
        assert(fires.filter_map(k) == rest.filter_map(k) + (match k(fires.last()) {
            Some(b) => seq![b],
            None => Seq::empty(),
        }));
    }
}

/// What the number-key hotkeys ask for this frame.
#[derive(Debug, Clone, Copy, PartialEq, Eq, Structural)]
pub enum HotkeyAction {
    Nothing,
    Save(i32),
    Load(i32),
}

/// The first pressed key among four, counted from 1, or `None`.
pub open spec fn first_pressed(a: bool, b: bool, c: bool, d: bool) -> Option<i32> {
    if a {
        Some(1i32)
    } else if b {
        Some(2i32)
    } else if c {
        Some(3i32)
    } else if d {
        Some(4i32)
    } else {
        None
    }
}

/// What the number keys ask for (`num[k]` is Num(k+1)).
pub open spec fn hotkey_action(num: [bool; 8]) -> HotkeyAction {
    match first_pressed(num[4], num[5], num[6], num[7]) {
        Some(s) => HotkeyAction::Save(s),
        None => match first_pressed(num[0], num[1], num[2], num[3]) {
            Some(l) => HotkeyAction::Load(l),
            None => HotkeyAction::Nothing,
        },
    }
}

/// The number-key hotkeys: when any of Num5 to Num8 is pressed, the game
/// saves to slot `s`, where Num(4+s) is the lowest of them pressed; else,
/// when any of Num1 to Num4 is pressed, it loads slot `l`, where Num(l)
/// is the lowest of them pressed; else nothing happens. Each key pressed
/// alone thus selects its own slot.
pub proof fn law_hotkey_slots(num: [bool; 8])
    ensures
        (exists|k: int| 4 <= k < 8 && #[trigger] num[k]) ==> (hotkey_action(num) matches HotkeyAction::Save(s) && 1 <= s
            <= 4 && num[3 + s] && forall|j: int| 4 <= j < 3 + s ==> !#[trigger] num[j]),
        !(exists|k: int| 4 <= k < 8 && #[trigger] num[k]) && (exists|k: int| 0 <= k < 4 && #[trigger] num[k]) ==> (
        hotkey_action(num) matches HotkeyAction::Load(l) && 1 <= l <= 4 && num[l - 1] && forall|j: int|
            0 <= j < l - 1 ==> !#[trigger] num[j]),
        !(exists|k: int| 0 <= k < 8 && #[trigger] num[k]) ==> hotkey_action(num) == HotkeyAction::Nothing,
{
    if exists|k: int| 4 <= k < 8 && #[trigger] num[k] {
        let k = choose|k: int| 4 <= k < 8 && #[trigger] num[k];
        assert(num[4] || num[5] || num[6] || num[7]);
    } else if exists|k: int| 0 <= k < 4 && #[trigger] num[k] {
        let k = choose|k: int| 0 <= k < 4 && #[trigger] num[k];
        assert(!num[4] && !num[5] && !num[6] && !num[7]) by {
            assert(!num[4]);
            assert(!num[5]);
            assert(!num[6]);
            assert(!num[7]);
        }
        assert(num[0] || num[1] || num[2] || num[3]);
    } else {
        assert(!num[0] && !num[1] && !num[2] && !num[3] && !num[4] && !num[5] && !num[6] && !num[7]) by {
            assert(!num[0]);
            assert(!num[1]);
            assert(!num[2]);
            assert(!num[3]);
            assert(!num[4]);
            assert(!num[5]);
            assert(!num[6]);
            assert(!num[7]);
        }
    }
}

/// Num5 to Num8 save to slots 1 to 4, Num1 to Num4 load slots 1 to 4
/// (`num[k]` says whether Num(k+1) was pressed this frame). A save wins
/// over a load, and a lower key over a higher one.
pub fn save_load_hotkey(num: [bool; 8]) -> (r: HotkeyAction)
    ensures
        r == hotkey_action(num),
        r == match first_pressed(num[4], num[5], num[6], num[7]) {
            Some(s) => HotkeyAction::Save(s),
            None => match first_pressed(num[0], num[1], num[2], num[3]) {
                Some(l) => HotkeyAction::Load(l),
                None => HotkeyAction::Nothing,
            },
        },
{
    let save_slot: i32 = if num[4] {
        1
    } else if num[5] {
        2
    } else if num[6] {
        3
    } else if num[7] {
        4
    } else {
        -1
    };
    let load_slot: i32 = if num[0] {
        1
    } else if num[1] {
        2
    } else if num[2] {
        3
    } else if num[3] {
        4
    } else {
        -1
    };
    if save_slot >= 0 {
        HotkeyAction::Save(save_slot)
    } else if load_slot >= 0 {
        HotkeyAction::Load(load_slot)
    } else {
        HotkeyAction::Nothing
    }
}

/// A key that acts once per press: it reports a press only on the frame
/// the key goes down.
pub struct EdgeTrigger {
    pub prev: bool,
}

impl EdgeTrigger {
    pub fn poll(&mut self, pressed: bool) -> (fired: bool)
        ensures
            fired == (pressed && !old(self).prev),
            final(self).prev == pressed,
    {
        let prev = self.prev;
        self.prev = pressed;
        pressed && !prev
    }
}

/// The slice `[start, end)` of the script globals that a request asks
/// for: from `start` (at most the length) for `limit` values, or to the
/// end.
pub fn globals_window(len: usize, start: usize, limit: Option<usize>) -> (r: (usize, usize))
    ensures
        r.0 == if start <= len { start } else { len },
        r.1 == match limit {
            Some(l) => if r.0 + l <= len { (r.0 + l) as usize } else { len },
            None => len,
        },
        r.0 <= r.1 <= len,
{
    let s = if start <= len {
        start
    } else {
        len
    };
    let e = match limit {
        Some(l) => {
            let end = s.saturating_add(l);
            if end <= len {
                end
            } else {
                len
            }
        },
        None => len,
    };
    (s, e)
}

/// Kinds of agent request failure.
#[derive(Debug, Clone, Copy, PartialEq, Eq, Structural)]
pub enum AgentErrorKind {
    BadRequest,
    Conflict,
    NotImplemented,
    Internal,
}

/// A refused agent request: its kind and the message returned.
#[derive(Debug)]
pub struct AgentFailure {
    pub kind: AgentErrorKind,
    pub message: String,
}

/// A named thing of the scene that runs a script function: an EVF trigger
/// or a GOB object. Its name is `None` where it could not be decoded (no
/// request can then name it); the function is empty where none is bound.
pub struct ScriptBinding {
    pub name: Option<String>,
    pub function: String,
}

pub open spec fn binding_named(b: ScriptBinding, name: Seq<char>) -> bool {
    b.name matches Some(n) && n@ == name
}

/// Index of the first binding with the given name, if any.
pub open spec fn first_binding(bs: Seq<ScriptBinding>, name: Seq<char>) -> Option<int> {
    if exists|i: int| 0 <= i < bs.len() && binding_named(#[trigger] bs[i], name) {
        Some(choose|i: int| 0 <= i < bs.len() && binding_named(#[trigger] bs[i], name) && forall|j: int| 0 <= j < i ==> !binding_named(#[trigger] bs[j], name))
    } else {
        None
    }
}

fn find_binding(bs: &Vec<ScriptBinding>, name: &str) -> (r: Option<usize>)
    ensures
        r matches Some(i) ==> i < bs.len() && binding_named(bs@[i as int], name@) && forall|j: int|
            0 <= j < i ==> !binding_named(#[trigger] bs@[j], name@),
        r is None ==> forall|j: int| 0 <= j < bs.len() ==> !binding_named(#[trigger] bs@[j], name@),
{
    let mut i: usize = 0;
    while i < bs.len()
        invariant
            i <= bs.len(),
            forall|j: int| 0 <= j < i ==> !binding_named(#[trigger] bs@[j], name@),
        decreases bs.len() - i,
    {
        match &bs[i].name {
            Some(n) => {
                if crate::text::str_eq(n.as_str(), name) {
                    return Some(i);
                }
            },
            None => {},
        }
        i = i + 1;
    }
    None
}

pub open spec fn text_running_trigger() -> Seq<char> {
    "a script is currently running; wait for it to finish before firing a trigger"@
}

pub open spec fn text_no_scene_trigger() -> Seq<char> {
    "no scene is loaded; load a block before firing triggers"@
}

pub open spec fn text_running_interact() -> Seq<char> {
    "a script is currently running; wait for it to finish before interacting"@
}

pub open spec fn text_no_scene_interact() -> Seq<char> {
    "no scene is loaded; load a block before interacting with objects"@
}

pub open spec fn text_no_gob() -> Seq<char> {
    "no GOB loaded for the current block"@
}

/// Outcome of resolving the script function that a request fires.
pub open spec fn resolve_spec(
    running: bool,
    running_text: Seq<char>,
    scene_loaded: bool,
    no_scene_text: Seq<char>,
    bs: Seq<ScriptBinding>,
    name: Seq<char>,
    unknown_text: Seq<char>,
    unbound_text: Seq<char>,
) -> Result<Seq<char>, (AgentErrorKind, Seq<char>)> {
    if running {
        Err((AgentErrorKind::Conflict, running_text))
    } else if !scene_loaded {
        Err((AgentErrorKind::Conflict, no_scene_text))
    } else {
        match first_binding(bs, name) {
            None => Err((AgentErrorKind::BadRequest, unknown_text)),
            Some(i) => if bs[i].function@.len() == 0 {
                Err((AgentErrorKind::BadRequest, unbound_text))
            } else {
                Ok(bs[i].function@)
            },
        }
    }
}

pub open spec fn failure_view(r: Result<String, AgentFailure>) -> Result<Seq<char>, (AgentErrorKind, Seq<char>)> {
    match r {
        Ok(f) => Ok(f@),
        Err(e) => Err((e.kind, e.message@)),
    }
}

pub(crate) fn failure(kind: AgentErrorKind, message: &str) -> (r: AgentFailure)
    ensures
        r.kind == kind,
        r.message@ == message@,
{
    AgentFailure { kind, message: crate::text::string_from(message) }
}

/// `prefix + name + suffix` as a new string.
fn framed(prefix: &str, name: &str, suffix: &str) -> (r: String)
    ensures
        r@ == prefix@ + name@ + suffix@,
{
    let mut s = String::new();
    push_str(&mut s, prefix);
    push_str(&mut s, name);
    push_str(&mut s, suffix);
    s
}

fn resolve_binding(
    running: bool,
    running_text: &str,
    scene_loaded: bool,
    no_scene_text: &str,
    bs: &Vec<ScriptBinding>,
    name: &str,
    unknown: (&str, &str),
    unbound: (&str, &str),
) -> (r: Result<String, AgentFailure>)
    ensures
        failure_view(r) == resolve_spec(
            running,
            running_text@,
            scene_loaded,
            no_scene_text@,
            bs@,
            name@,
            unknown.0@ + name@ + unknown.1@,
            unbound.0@ + name@ + unbound.1@,
        ),
{
    if running {
        return Err(failure(AgentErrorKind::Conflict, running_text));
    }
    if !scene_loaded {
        return Err(failure(AgentErrorKind::Conflict, no_scene_text));
    }
    match find_binding(bs, name) {
        None => {
            proof {
                assert(!(exists|i: int| 0 <= i < bs@.len() && binding_named(#[trigger] bs@[i], name@)));
            }
            Err(AgentFailure { kind: AgentErrorKind::BadRequest, message: framed(unknown.0, name, unknown.1) })
        },
        Some(i) => {
            proof {
                let c = choose|c: int| 0 <= c < bs@.len() && binding_named(#[trigger] bs@[c], name@) && forall|j: int| 0 <= j < c ==> !binding_named(#[trigger] bs@[j], name@);
                if c < i {
                    assert(!binding_named(bs@[c], name@));
                } else if c > i {
                    assert(!binding_named(bs@[i as int], name@));
                }
                assert(first_binding(bs@, name@) == Some(i as int));
            }
            if bs[i].function.as_str().is_empty() {
                Err(AgentFailure { kind: AgentErrorKind::BadRequest, message: framed(unbound.0, name, unbound.1) })
            } else {
                Ok(bs[i].function.clone())
            }
        },
    }
}

/// The script function that firing the EVF trigger `name` runs. Refused
/// while a script runs or no scene is loaded, for an unknown trigger, and
/// for a trigger bound to no function.
pub fn resolve_scene_trigger(script_running: bool, scene_loaded: bool, triggers: &Vec<ScriptBinding>, name: &str) -> (r:
    Result<String, AgentFailure>)
    ensures
        failure_view(r) == resolve_spec(
            script_running,
            text_running_trigger(),
            scene_loaded,
            text_no_scene_trigger(),
            triggers@,
            name@,
            "unknown trigger name: "@ + name@,
            "trigger "@ + name@ + " has no script function bound"@,
        ),
{
    let r = resolve_binding(
        script_running,
        "a script is currently running; wait for it to finish before firing a trigger",
        scene_loaded,
        "no scene is loaded; load a block before firing triggers",
        triggers,
        name,
        ("unknown trigger name: ", ""),
        ("trigger ", " has no script function bound"),
    );
    proof {
        reveal_strlit("");
        assert("unknown trigger name: "@ + name@ + ""@ =~= "unknown trigger name: "@ + name@);
    }
    r
}

/// The examine handler that interacting with the GOB object `name` runs.
/// Refused while a script runs, with no scene or no GOB loaded, for an
/// unknown object, and for an object without a handler.
pub fn resolve_object_interaction(
    script_running: bool,
    scene_loaded: bool,
    objects: Option<&Vec<ScriptBinding>>,
    name: &str,
) -> (r: Result<String, AgentFailure>)
    ensures
        failure_view(r) == (if !script_running && scene_loaded && objects is None {
            Err((AgentErrorKind::Conflict, text_no_gob()))
        } else {
            resolve_spec(
                script_running,
                text_running_interact(),
                scene_loaded,
                text_no_scene_interact(),
                match objects {
                    Some(o) => o@,
                    None => Seq::empty(),
                },
                name@,
                "unknown object name: "@ + name@,
                "object "@ + name@ + " has no examine handler (research_function is empty)"@,
            )
        }),
{
    if !script_running && scene_loaded && objects.is_none() {
        return Err(failure(AgentErrorKind::Conflict, "no GOB loaded for the current block"));
    }
    let empty: Vec<ScriptBinding> = Vec::new();
    let bs = match objects {
        Some(o) => o,
        None => &empty,
    };
    let r = resolve_binding(
        script_running,
        "a script is currently running; wait for it to finish before interacting",
        scene_loaded,
        "no scene is loaded; load a block before interacting with objects",
        bs,
        name,
        ("unknown object name: ", ""),
        ("object ", " has no examine handler (research_function is empty)"),
    );
    proof {
        reveal_strlit("");
        assert("unknown object name: "@ + name@ + ""@ =~= "unknown object name: "@ + name@);
    }
    r
}

/// How a trigger region is described to agents.
pub fn trigger_shape(vertex_count: u32) -> (r: &'static str)
    ensures
        vertex_count == 4 ==> r@ == "plane"@,
        vertex_count == 8 ==> r@ == "box"@,
        vertex_count != 4 && vertex_count != 8 ==> r@ == "other"@,
{
    if vertex_count == 4 {
        "plane"
    } else if vertex_count == 8 {
        "box"
    } else {
        "other"
    }
}

/// How the portrait side is described to agents.
pub fn avatar_label(side: DialogAvatarSide) -> (r: &'static str)
    ensures
        side == DialogAvatarSide::Left ==> r@ == "left"@,
        side == DialogAvatarSide::Right ==> r@ == "right"@,
{
    match side {
        DialogAvatarSide::Left => "left",
        DialogAvatarSide::Right => "right",
    }
}

/// `x` occurs among the first `i` items of `s`.
pub open spec fn in_prefix<A>(s: Seq<A>, i: int, x: A) -> bool {
    exists|j: int| 0 <= j < i && #[trigger] s[j] == x
}

/// The inventory as agents see it: the items with a positive count, in
/// ascending id order.
pub fn state_inventory<P, D, C>(state: &Pal4PersistentState<P, D, C>) -> (r: Vec<(i32, i32)>)
    ensures
        sorted_i32(r@),
        forall|k: int|
            0 <= k < r.len() ==> #[trigger] r@[k].1 > 0 && state@.inventory.contains_key(r@[k].0)
                && state@.inventory[r@[k].0] == r@[k].1,
        forall|id: i32|
            #[trigger] state@.inventory.contains_key(id) && state@.inventory[id] > 0 ==> has_key(r@, id),
{
    let all = inventory_snapshot(state);
    proof {
        lemma_sorted_i32_unique(all@);
    }
    let mut out: Vec<(i32, i32)> = Vec::new();
    let mut i: usize = 0;
    while i < all.len()
        invariant
            i <= all.len(),
            sorted_i32(all@),
            keys_unique(all@),
            assoc_map(all@) == state@.inventory,
            sorted_i32(out@),
            forall|k: int| 0 <= k < out.len() ==> #[trigger] in_prefix(all@, i as int, out@[k]),
            forall|k: int| 0 <= k < out.len() ==> #[trigger] out@[k].1 > 0,
            forall|j: int| 0 <= j < i && #[trigger] all@[j].1 > 0 ==> has_key(out@, all@[j].0),
        decreases all.len() - i,
    {
        if all[i].1 > 0 {
            let ghost before = out@;
            out.push(all[i]);
            proof {
                assert forall|a: int, b: int| 0 <= a < b < out@.len() implies #[trigger] out@[a].0 < #[trigger] out@[b].0 by {
                    if b == out@.len() - 1 {
                        assert(in_prefix(all@, i as int, before[a]));
                        let j = choose|j: int| 0 <= j < i && #[trigger] all@[j] == out@[a];
                        assert(all@[j].0 < all@[i as int].0);
                    }
                }
                assert forall|k: int| 0 <= k < out.len() implies #[trigger] in_prefix(all@, i + 1, out@[k]) by {
                    if k < before.len() {
                        assert(in_prefix(all@, i as int, before[k]));
                        let j = choose|j: int| 0 <= j < i && #[trigger] all@[j] == before[k];
                        assert(all@[j] == out@[k]);
                    } else {
                        assert(all@[i as int] == out@[k]);
                    }
                }
                assert forall|j: int| 0 <= j < i + 1 && #[trigger] all@[j].1 > 0 implies has_key(out@, all@[j].0) by {
                    if j < i {
                        let k = choose|k: int| 0 <= k < before.len() && #[trigger] before[k].0 == all@[j].0;
                        assert(out@[k].0 == all@[j].0);
                    } else {
                        assert(out@[out@.len() - 1].0 == all@[j].0);
                    }
                }
            }
        } else {
            proof {
                assert forall|k: int| 0 <= k < out.len() implies #[trigger] in_prefix(all@, i + 1, out@[k]) by {
                    assert(in_prefix(all@, i as int, out@[k]));
                    let j = choose|j: int| 0 <= j < i && #[trigger] all@[j] == out@[k];
                    assert(all@[j] == out@[k]);
                }
            }
        }
        i = i + 1;
    }
    proof {
        assert forall|k: int| 0 <= k < out.len() implies #[trigger] out@[k].1 > 0 && state@.inventory.contains_key(out@[k].0)
            && state@.inventory[out@[k].0] == out@[k].1 by {
            assert(in_prefix(all@, all@.len() as int, out@[k]));
            let j = choose|j: int| 0 <= j < all@.len() && #[trigger] all@[j] == out@[k];
            lemma_lookup(all@, j);
        }
        assert forall|id: i32| #[trigger] state@.inventory.contains_key(id) && state@.inventory[id] > 0 implies has_key(out@, id) by {
            let j = key_index(all@, id);
            lemma_lookup(all@, j);
            assert(all@[j].1 > 0);
        }
    }
    out
}

} // verus!
