use yaobow_shared::actor::{
    action_flag_config, animation_completed, animation_config_from_i32, animation_from_i32,
    animation_to_i32, Pal4ActorAnimation, Pal4ActorAnimationConfig,
    Pal4ActorAnimationController, PlayRequest,
};

#[test]
fn animation_ids_round_trip() {
    for a in [
        Pal4ActorAnimation::Idle,
        Pal4ActorAnimation::Walk,
        Pal4ActorAnimation::Run,
        Pal4ActorAnimation::Unknown,
    ] {
        assert_eq!(animation_from_i32(animation_to_i32(a)), a);
    }
    assert_eq!(animation_to_i32(Pal4ActorAnimation::Run), 2);
    assert_eq!(animation_from_i32(42), Pal4ActorAnimation::Unknown);
    assert_eq!(animation_from_i32(-1), Pal4ActorAnimation::Unknown);
}

#[test]
fn config_ids_and_action_flags() {
    assert_eq!(animation_config_from_i32(0), Pal4ActorAnimationConfig::OneTime);
    assert_eq!(animation_config_from_i32(1), Pal4ActorAnimationConfig::Looping);
    assert_eq!(animation_config_from_i32(2), Pal4ActorAnimationConfig::PauseOnHold);
    assert_eq!(animation_config_from_i32(9), Pal4ActorAnimationConfig::OneTime);
    assert_eq!(action_flag_config(-1), Pal4ActorAnimationConfig::PauseOnHold);
    assert_eq!(action_flag_config(0), Pal4ActorAnimationConfig::Looping);
    assert_eq!(action_flag_config(3), Pal4ActorAnimationConfig::OneTime);
}

#[test]
fn controller_plays_walk_when_loaded_and_falls_back_otherwise() {
    let mut c = Pal4ActorAnimationController::create("101".to_string());
    assert_eq!(c.current(), Pal4ActorAnimation::Unknown);
    assert_eq!(
        Pal4ActorAnimationController::play_request(Pal4ActorAnimation::Walk),
        PlayRequest::Walk
    );
    assert!(c.play(Pal4ActorAnimation::Walk, Pal4ActorAnimationConfig::Looping, true));
    assert_eq!(c.current(), Pal4ActorAnimation::Walk);
    assert_eq!(c.current_id(), 1);
    // A failed load plays the default clip.
    assert!(c.play(Pal4ActorAnimation::Run, Pal4ActorAnimationConfig::OneTime, false));
    assert_eq!(c.current(), Pal4ActorAnimation::Idle);
    assert_eq!(c.config, Pal4ActorAnimationConfig::Looping);
}

#[test]
fn held_action_pauses_on_hold_event_until_released() {
    let mut c = Pal4ActorAnimationController::create("103".to_string());
    assert!(!c.play_action(Pal4ActorAnimationConfig::PauseOnHold, true));
    assert!(c.pauses_on_event("HOLD"));
    assert!(c.pauses_on_event("hold"));
    assert!(!c.pauses_on_event("holding"));
    assert!(!c.unhold());
    assert!(!c.pauses_on_event("hold"));
    assert_eq!(c.config, Pal4ActorAnimationConfig::OneTime);
}

#[test]
fn play_by_id_uses_script_ids() {
    let mut c = Pal4ActorAnimationController::create("106".to_string());
    assert!(!c.play_by_id(2, 0, true));
    assert_eq!(c.current(), Pal4ActorAnimation::Run);
    assert!(c.play_by_id(0, 0, true));
    assert_eq!(c.current(), Pal4ActorAnimation::Idle);
}

#[test]
fn completion_rule() {
    assert!(animation_completed(true, false));
    assert!(animation_completed(false, true));
    assert!(!animation_completed(false, false));
}
