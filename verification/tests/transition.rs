use yaobow_shared::modes::{plan_story_entry, Pal4ModeIntent, StoryEntry};
use yaobow_shared::session::RuntimeSnapshot;
use yaobow_shared::transition::{
    load_plan, overlay_request, LoadPlan, Pal4TransitionAction, Pal4TransitionMachine,
    TransitionPhase, TransitionStep,
};

type Action = Pal4TransitionAction<[f32; 3], f32, [f32; 16]>;
type Snapshot = RuntimeSnapshot<[f32; 3], f32, [f32; 16]>;

fn snapshot(scene: &str, block: &str) -> Snapshot {
    let mut s = Snapshot::default();
    s.scene_name = scene.to_string();
    s.block_name = block.to_string();
    s.script_globals = vec![3, 4];
    s
}

#[test]
fn overlay_transition_paints_loads_holds_and_hands_off() {
    let mut m = Pal4TransitionMachine::new();
    m.activate();
    // Not painted yet, deadline not reached: keep painting.
    assert_eq!(m.update(false, false), TransitionStep::Wait);
    assert_eq!(m.phase, TransitionPhase::Painting);
    assert!(m.render_frame());
    assert_eq!(m.update(false, false), TransitionStep::Wait);
    assert_eq!(m.phase, TransitionPhase::Loading);
    assert_eq!(m.update(false, false), TransitionStep::Load { notify: true });
    assert_eq!(m.phase, TransitionPhase::Holding);
    assert_eq!(m.update(false, false), TransitionStep::Wait);
    assert_eq!(m.update(false, true), TransitionStep::Wait);
    assert_eq!(m.phase, TransitionPhase::Done);
    assert!(!m.render_frame());
    assert_eq!(m.update(false, false), TransitionStep::HandOff { dismiss: true });
}

#[test]
fn paint_deadline_starts_the_load_without_a_painted_frame() {
    let mut m = Pal4TransitionMachine::new();
    assert_eq!(m.update(true, false), TransitionStep::Wait);
    assert_eq!(m.phase, TransitionPhase::Loading);
}

#[test]
fn silent_transition_loads_and_hands_off_on_second_tick() {
    let mut m = Pal4TransitionMachine::new();
    m.set_silent(true);
    assert_eq!(m.update(false, false), TransitionStep::Wait);
    assert_eq!(m.update(false, false), TransitionStep::LoadAndHandOff);
    assert_eq!(m.phase, TransitionPhase::Done);
}

#[test]
fn painted_frames_saturate() {
    let mut m = Pal4TransitionMachine::new();
    for _ in 0..1500 {
        assert!(m.render_frame());
    }
    assert_eq!(m.frames_painted, 1000);
}

#[test]
fn overlay_announces_the_destination() {
    let new_game: Action = Pal4TransitionAction::EnterStoryNew;
    assert_eq!(overlay_request(&new_game), (String::new(), String::new()));
    let change: Action = Pal4TransitionAction::ChangeScene {
        scene: "m01".to_string(),
        block: "2".to_string(),
    };
    assert_eq!(overlay_request(&change), ("m01".to_string(), "2".to_string()));
    let load: Action = Pal4TransitionAction::EnterStoryFromSave {
        snapshot: snapshot("q01", "Q01"),
        slot: 3,
    };
    assert_eq!(overlay_request(&load), ("q01".to_string(), "Q01".to_string()));
}

#[test]
fn load_plan_restores_globals_and_skips_an_empty_scene() {
    let load: Action = Pal4TransitionAction::EnterStoryFromSave {
        snapshot: snapshot("", ""),
        slot: 2,
    };
    match load_plan(load) {
        LoadPlan::RestoreSave { globals, target, slot } => {
            assert_eq!(globals, vec![3, 4]);
            assert!(target.is_none());
            assert_eq!(slot, 2);
        }
        _ => panic!("expected a save restore"),
    }
    let load: Action = Pal4TransitionAction::EnterStoryFromSave {
        snapshot: snapshot("m02", "1"),
        slot: 1,
    };
    match load_plan(load) {
        LoadPlan::RestoreSave { target, .. } => {
            assert_eq!(target, Some(("m02".to_string(), "1".to_string())));
        }
        _ => panic!("expected a save restore"),
    }
    assert!(matches!(load_plan(Action::EnterStoryNew), LoadPlan::Nothing));
}

#[test]
fn story_entry_needs_overlay_and_snapshot() {
    let story = Pal4ModeIntent::Story { asset_path: "x".into() };
    assert!(matches!(
        plan_story_entry::<[f32; 3], f32, [f32; 16]>(story.clone(), true, None),
        StoryEntry::Transition(Pal4TransitionAction::EnterStoryNew)
    ));
    assert!(matches!(
        plan_story_entry::<[f32; 3], f32, [f32; 16]>(story, false, None),
        StoryEntry::Direct
    ));
    let from_save = Pal4ModeIntent::StoryFromSave { asset_path: "x".into(), slot: 4 };
    match plan_story_entry(from_save.clone(), true, Some(snapshot("m03", "1"))) {
        StoryEntry::Transition(Pal4TransitionAction::EnterStoryFromSave { snapshot, slot }) => {
            assert_eq!(slot, 4);
            assert_eq!(snapshot.scene_name, "m03");
        }
        _ => panic!("expected a load transition"),
    }
    assert!(matches!(
        plan_story_entry::<[f32; 3], f32, [f32; 16]>(from_save.clone(), true, None),
        StoryEntry::Direct
    ));
    assert!(matches!(
        plan_story_entry(from_save, false, Some(snapshot("m03", "1"))),
        StoryEntry::Direct
    ));
}
