//! PAL4 actor animation state: the animation ids the script VM exchanges
//! as integers, and the animation controller's own state machine.
use vstd::prelude::*;

verus! {

/// Named animations an actor controller can play.
#[derive(Clone, Copy, Debug, PartialEq, Eq, Structural)]
pub enum Pal4ActorAnimation {
    Idle,
    Walk,
    Run,
    Unknown,
}

/// How an animation clip plays out.
#[derive(Clone, Copy, Debug, PartialEq, Eq, Structural)]
pub enum Pal4ActorAnimationConfig {
    OneTime,
    Looping,
    PauseOnHold,
}

/// Integer id of an animation, as exchanged with scripts.
pub open spec fn animation_id(a: Pal4ActorAnimation) -> i32 {
    match a {
        Pal4ActorAnimation::Idle => 0,
        Pal4ActorAnimation::Walk => 1,
        Pal4ActorAnimation::Run => 2,
        Pal4ActorAnimation::Unknown => 3,
    }
}

/// Animation named by an integer id; every unknown id is `Unknown`.
pub open spec fn animation_of_id(v: i32) -> Pal4ActorAnimation {
    if v == 0 {
        Pal4ActorAnimation::Idle
    } else if v == 1 {
        Pal4ActorAnimation::Walk
    } else if v == 2 {
        Pal4ActorAnimation::Run
    } else {
        Pal4ActorAnimation::Unknown
    }
}

pub fn animation_to_i32(a: Pal4ActorAnimation) -> (r: i32)
    ensures
        r == animation_id(a),
{
    match a {
        Pal4ActorAnimation::Idle => 0,
        Pal4ActorAnimation::Walk => 1,
        Pal4ActorAnimation::Run => 2,
        Pal4ActorAnimation::Unknown => 3,
    }
}

pub fn animation_from_i32(v: i32) -> (r: Pal4ActorAnimation)
    ensures
        r == animation_of_id(v),
{
    match v {
        0 => Pal4ActorAnimation::Idle,
        1 => Pal4ActorAnimation::Walk,
        2 => Pal4ActorAnimation::Run,
        _ => Pal4ActorAnimation::Unknown,
    }
}

/// Converting an animation to its id and back gives the animation again.
pub proof fn lemma_animation_id_round_trip(a: Pal4ActorAnimation)
    ensures
        animation_of_id(animation_id(a)) == a,
{
}

} // verus!

verus! {

/// Play configuration named by an integer id; unknown ids play once.
pub open spec fn config_of_id(v: i32) -> Pal4ActorAnimationConfig {
    if v == 1 {
        Pal4ActorAnimationConfig::Looping
    } else if v == 2 {
        Pal4ActorAnimationConfig::PauseOnHold
    } else {
        Pal4ActorAnimationConfig::OneTime
    }
}

pub fn animation_config_from_i32(v: i32) -> (r: Pal4ActorAnimationConfig)
    ensures
        r == config_of_id(v),
{
    match v {
        0 => Pal4ActorAnimationConfig::OneTime,
        1 => Pal4ActorAnimationConfig::Looping,
        2 => Pal4ActorAnimationConfig::PauseOnHold,
        _ => Pal4ActorAnimationConfig::OneTime,
    }
}

/// Play configuration for a scripted player action flag: `-1` holds at the
/// `hold` event, `0` loops, anything else plays once.
pub open spec fn config_of_action_flag(flag: i32) -> Pal4ActorAnimationConfig {
    if flag == -1 {
        Pal4ActorAnimationConfig::PauseOnHold
    } else if flag == 0 {
        Pal4ActorAnimationConfig::Looping
    } else {
        Pal4ActorAnimationConfig::OneTime
    }
}

pub fn action_flag_config(flag: i32) -> (r: Pal4ActorAnimationConfig)
    ensures
        r == config_of_action_flag(flag),
{
    match flag {
        -1 => Pal4ActorAnimationConfig::PauseOnHold,
        0 => Pal4ActorAnimationConfig::Looping,
        _ => Pal4ActorAnimationConfig::OneTime,
    }
}

/// Whether the armature loops a clip played with `config`.
pub open spec fn loops(config: Pal4ActorAnimationConfig) -> bool {
    config == Pal4ActorAnimationConfig::Looping
}

/// The clip a `play` request has to load before it can start.
#[derive(Clone, Copy, Debug, PartialEq, Eq, Structural)]
pub enum PlayRequest {
    /// Play the actor's default (idle) clip; nothing to load.
    Default,
    /// Load the walk clip (`C02`).
    Walk,
    /// Load the run clip (`C03`, falling back to `C02`).
    Run,
}

/// The load a `play(animation, ..)` needs: walk and run clips are
/// loaded by name, every other animation plays the default clip.
pub open spec fn request_of(animation: Pal4ActorAnimation) -> PlayRequest {
    match animation {
        Pal4ActorAnimation::Walk => PlayRequest::Walk,
        Pal4ActorAnimation::Run => PlayRequest::Run,
        _ => PlayRequest::Default,
    }
}

/// An actor's animation controller: which clip configuration is active and
/// which named animation it is showing. The armature itself is driven by
/// the engine; each method here returns the looping flag the armature must
/// be given, or the load the engine must perform.
pub struct Pal4ActorAnimationController {
    pub actor_name: String,
    pub config: Pal4ActorAnimationConfig,
    pub current: Pal4ActorAnimation,
}

impl Pal4ActorAnimationController {
    /// A fresh controller: one-shot configuration, no named animation.
    pub fn create(actor_name: String) -> (r: Self)
        ensures
            r.actor_name == actor_name,
            r.config == Pal4ActorAnimationConfig::OneTime,
            r.current == Pal4ActorAnimation::Unknown,
    {
        Pal4ActorAnimationController {
            actor_name,
            config: Pal4ActorAnimationConfig::OneTime,
            current: Pal4ActorAnimation::Unknown,
        }
    }

    /// Install a new clip with `config`. Returns whether the armature loops.
    pub fn play_animation(&mut self, config: Pal4ActorAnimationConfig) -> (looping: bool)
        ensures
            final(self).actor_name == old(self).actor_name,
            final(self).config == config,
            final(self).current == Pal4ActorAnimation::Unknown,
            looping == loops(config),
    {
        self.config = config;
        self.current = Pal4ActorAnimation::Unknown;
        match config {
            Pal4ActorAnimationConfig::Looping => true,
            _ => false,
        }
    }

    /// Play the default clip, looping, and report `Idle`.
    pub fn play_default(&mut self) -> (looping: bool)
        ensures
            final(self).actor_name == old(self).actor_name,
            final(self).config == Pal4ActorAnimationConfig::Looping,
            final(self).current == Pal4ActorAnimation::Idle,
            looping,
    {
        let looping = self.play_animation(Pal4ActorAnimationConfig::Looping);
        self.current = Pal4ActorAnimation::Idle;
        looping
    }

    /// What `play(animation, ..)` has to load first.
    pub fn play_request(animation: Pal4ActorAnimation) -> (r: PlayRequest)
        ensures
            r == request_of(animation),
    {
        match animation {
            Pal4ActorAnimation::Walk => PlayRequest::Walk,
            Pal4ActorAnimation::Run => PlayRequest::Run,
            _ => PlayRequest::Default,
        }
    }

    /// Complete `play(animation, config)` once the requested clip was loaded
    /// (`loaded`) or not: a loaded walk / run clip plays with `config` and
    /// becomes the current animation; anything else falls back to the
    /// default clip.
    pub fn play(&mut self, animation: Pal4ActorAnimation, config: Pal4ActorAnimationConfig, loaded: bool) -> (looping: bool)
        ensures
            final(self).actor_name == old(self).actor_name,
            (request_of(animation) != PlayRequest::Default && loaded) ==> {
                &&& final(self).config == config
                &&& final(self).current == animation
                &&& looping == loops(config)
            },
            !(request_of(animation) != PlayRequest::Default && loaded) ==> {
                &&& final(self).config == Pal4ActorAnimationConfig::Looping
                &&& final(self).current == Pal4ActorAnimation::Idle
                &&& looping
            },
    {
        let request = Self::play_request(animation);
        match request {
            PlayRequest::Default => self.play_default(),
            _ => {
                if loaded {
                    let looping = self.play_animation(config);
                    self.current = animation;
                    looping
                } else {
                    self.play_default()
                }
            }
        }
    }

    /// Complete `play_action(act, config)`: a loaded action plays with
    /// `config` (no named animation); a failed load plays the default clip.
    pub fn play_action(&mut self, config: Pal4ActorAnimationConfig, loaded: bool) -> (looping: bool)
        ensures
            final(self).actor_name == old(self).actor_name,
            loaded ==> final(self).config == config && final(self).current == Pal4ActorAnimation::Unknown
                && looping == loops(config),
            !loaded ==> final(self).config == Pal4ActorAnimationConfig::Looping
                && final(self).current == Pal4ActorAnimation::Idle && looping,
    {
        if loaded {
            self.play_animation(config)
        } else {
            self.play_default()
        }
    }

    /// `play_by_id`: the script-facing form of `play`.
    pub fn play_by_id(&mut self, anim: i32, config: i32, loaded: bool) -> (looping: bool)
        ensures
            final(self).actor_name == old(self).actor_name,
            (request_of(animation_of_id(anim)) != PlayRequest::Default && loaded) ==> {
                &&& final(self).config == config_of_id(config)
                &&& final(self).current == animation_of_id(anim)
                &&& looping == loops(config_of_id(config))
            },
            !(request_of(animation_of_id(anim)) != PlayRequest::Default && loaded) ==> {
                &&& final(self).config == Pal4ActorAnimationConfig::Looping
                &&& final(self).current == Pal4ActorAnimation::Idle
                &&& looping
            },
    {
        let a = animation_from_i32(anim);
        let c = animation_config_from_i32(config);
        self.play(a, c, loaded)
    }

    /// Release a held action: it plays out once and stops.
    pub fn unhold(&mut self) -> (looping: bool)
        ensures
            final(self).actor_name == old(self).actor_name,
            final(self).config == Pal4ActorAnimationConfig::OneTime,
            final(self).current == old(self).current,
            !looping,
    {
        self.config = Pal4ActorAnimationConfig::OneTime;
        false
    }

    pub fn current(&self) -> (r: Pal4ActorAnimation)
        ensures
            r == self.current,
    {
        self.current
    }

    pub fn current_id(&self) -> (r: i32)
        ensures
            r == animation_id(self.current),
    {
        animation_to_i32(self.current)
    }

    /// Whether an animation event pauses the armature: only a `hold` event
    /// (in any letter case) while the clip holds on it.
    pub fn pauses_on_event(&self, event_name: &str) -> (r: bool)
        ensures
            r == (self.config == Pal4ActorAnimationConfig::PauseOnHold
                && crate::text::spec_lowercase(event_name@) == seq!['h', 'o', 'l', 'd']),
    {
        if self.config != Pal4ActorAnimationConfig::PauseOnHold {
            return false;
        }
        let lower = crate::text::to_lowercase(event_name);
        let cs = crate::text::chars_of(lower.as_str());
        let hold: Vec<char> = vec!['h', 'o', 'l', 'd'];
        let r = crate::text::chars_eq(&cs, &hold);
        assert(hold@ =~= seq!['h', 'o', 'l', 'd']);
        r
    }
}

/// Whether an action counts as completed: a looping armature never ends
/// on its own, so it counts as done, as does one that has stopped or has
/// no clip.
pub open spec fn action_completed(looping: bool, stopped_or_empty: bool) -> bool {
    looping || stopped_or_empty
}

pub fn animation_completed(looping: bool, stopped_or_empty: bool) -> (r: bool)
    ensures
        r == action_completed(looping, stopped_or_empty),
{
    looping || stopped_or_empty
}

/// Converting a play configuration id and back is the identity on the
/// three configurations' ids.
pub proof fn lemma_config_id_round_trip(c: Pal4ActorAnimationConfig)
    ensures
        config_of_id(match c {
            Pal4ActorAnimationConfig::OneTime => 0i32,
            Pal4ActorAnimationConfig::Looping => 1i32,
            Pal4ActorAnimationConfig::PauseOnHold => 2i32,
        }) == c,
{
}

} // verus!
