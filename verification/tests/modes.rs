use yaobow_shared::modes::{Pal4ModeIntent, Pal4ModeKind, Pal4ModeRegistry};

type Factory = Box<dyn Fn(&String, Pal4ModeIntent) -> String>;

#[test]
fn intent_kind_maps_both_story_variants_to_story() {
    assert_eq!(
        Pal4ModeIntent::StartMenu {
            asset_path: "x".into()
        }
        .kind(),
        Pal4ModeKind::StartMenu
    );
    assert_eq!(
        Pal4ModeIntent::Story {
            asset_path: "x".into()
        }
        .kind(),
        Pal4ModeKind::Story
    );
    assert_eq!(
        Pal4ModeIntent::StoryFromSave {
            asset_path: "x".into(),
            slot: 2
        }
        .kind(),
        Pal4ModeKind::Story
    );
}

#[test]
fn registry_dispatches_on_kind_and_replaces_by_key() {
    let mut registry: Pal4ModeRegistry<Factory> = Pal4ModeRegistry::new();
    let service = "svc".to_string();
    let menu = Pal4ModeIntent::StartMenu { asset_path: "m".into() };
    let load = Pal4ModeIntent::StoryFromSave { asset_path: "s".into(), slot: 2 };
    assert_eq!(registry.build(&service, menu.clone()), None);

    registry.register(Pal4ModeKind::Story, Box::new(|svc, intent| format!("{svc}:story:{intent:?}")));
    assert_eq!(registry.build(&service, menu.clone()), None);
    assert_eq!(
        registry.build(&service, load.clone()),
        Some(format!("svc:story:{load:?}"))
    );

    registry.register(Pal4ModeKind::Story, Box::new(|_svc, _intent| "replaced".to_string()));
    registry.register(Pal4ModeKind::StartMenu, Box::new(|_svc, _intent| "menu".to_string()));
    assert_eq!(registry.build(&service, load), Some("replaced".to_string()));
    assert_eq!(registry.build(&service, menu), Some("menu".to_string()));
}
