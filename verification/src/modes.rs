//! The PAL4 mode graph: the ways to enter a game mode, the coarse kind
//! each dispatches on, and how a story mode is entered.
use vstd::prelude::*;

use crate::session::RuntimeSnapshot;
use crate::transition::Pal4TransitionAction;

verus! {

/// Typed PAL4 mode graph. Each variant is one way to enter a game mode.
#[derive(Debug, Clone)]
pub enum Pal4ModeIntent {
    /// The scripted start menu.
    StartMenu { asset_path: String },
    /// A fresh story playthrough (New Game).
    Story { asset_path: String },
    /// A story playthrough that boots into save `slot` (Load Game).
    StoryFromSave { asset_path: String, slot: i32 },
}

/// Coarse mode discriminant: the key factories are registered under.
#[derive(Debug, Clone, Copy, PartialEq, Eq, Hash, Structural)]
pub enum Pal4ModeKind {
    StartMenu,
    Story,
}

pub open spec fn intent_kind(intent: Pal4ModeIntent) -> Pal4ModeKind {
    match intent {
        Pal4ModeIntent::StartMenu { .. } => Pal4ModeKind::StartMenu,
        Pal4ModeIntent::Story { .. } => Pal4ModeKind::Story,
        Pal4ModeIntent::StoryFromSave { .. } => Pal4ModeKind::Story,
    }
}

impl Pal4ModeIntent {
    /// The registry key this intent dispatches on.
    pub fn kind(&self) -> (r: Pal4ModeKind)
        ensures
            r == intent_kind(*self),
    {
        match self {
            Pal4ModeIntent::StartMenu { .. } => Pal4ModeKind::StartMenu,
            Pal4ModeIntent::Story { .. } | Pal4ModeIntent::StoryFromSave { .. } => Pal4ModeKind::Story,
        }
    }
}

/// How a story director is installed.
pub enum StoryEntry<P, D, C> {
    /// Install the story director itself.
    Direct,
    /// Install a transition that runs `action` and then hands over to the
    /// story director.
    Transition(Pal4TransitionAction<P, D, C>),
}

/// How the story factory installs the director for `intent`. `has_overlay`
/// says whether a loading overlay could be built; `loaded` is the snapshot
/// of the save slot of a Load Game intent, or `None` when it could not be
/// read. A transition needs an overlay, and a Load Game also needs the
/// snapshot; otherwise the story director is installed directly (after a
/// failed load it finds an empty scene and starts a new game).
pub fn plan_story_entry<P, D, C>(
    intent: Pal4ModeIntent,
    has_overlay: bool,
    loaded: Option<RuntimeSnapshot<P, D, C>>,
) -> (r: StoryEntry<P, D, C>)
    requires
        intent_kind(intent) == Pal4ModeKind::Story,
    ensures
        intent is Story ==> (if has_overlay {
            r matches StoryEntry::Transition(a) && a is EnterStoryNew
        } else {
            r is Direct
        }),
        intent matches Pal4ModeIntent::StoryFromSave { slot, .. } ==> (if has_overlay && loaded is Some {
            r matches StoryEntry::Transition(a) && a matches Pal4TransitionAction::EnterStoryFromSave {
                snapshot,
                slot: s,
            } && s == slot && Some(snapshot) == loaded
        } else {
            r is Direct
        }),
{
    match intent {
        Pal4ModeIntent::Story { .. } => {
            if has_overlay {
                StoryEntry::Transition(Pal4TransitionAction::EnterStoryNew)
            } else {
                StoryEntry::Direct
            }
        },
        Pal4ModeIntent::StoryFromSave { slot, .. } => {
            match loaded {
                Some(snapshot) => {
                    if has_overlay {
                        StoryEntry::Transition(Pal4TransitionAction::EnterStoryFromSave { snapshot, slot })
                    } else {
                        StoryEntry::Direct
                    }
                },
                None => StoryEntry::Direct,
            }
        },
        Pal4ModeIntent::StartMenu { .. } => StoryEntry::Direct,
    }
}

/// Registry of mode factories keyed by [`Pal4ModeKind`]: the single
/// extension point of the mode graph. Each kind holds at most one factory;
/// registering again replaces it.
pub struct Pal4ModeRegistry<F> {
    start_menu: Option<F>,
    story: Option<F>,
}

impl<F> Pal4ModeRegistry<F> {
    /// The factory registered for `kind`, if any.
    pub closed spec fn factory_for(&self, kind: Pal4ModeKind) -> Option<F> {
        match kind {
            Pal4ModeKind::StartMenu => self.start_menu,
            Pal4ModeKind::Story => self.story,
        }
    }

    /// A registry with no factory registered.
    pub fn new() -> (r: Self)
        ensures
            forall|k: Pal4ModeKind| r.factory_for(k) is None,
    {
        Pal4ModeRegistry { start_menu: None, story: None }
    }

    /// Register (or replace) the factory for `kind`; the other kinds keep
    /// theirs.
    pub fn register(&mut self, kind: Pal4ModeKind, factory: F)
        ensures
            final(self).factory_for(kind) == Some(factory),
            forall|k: Pal4ModeKind| k != kind ==> final(self).factory_for(k) == old(self).factory_for(k),
            registered(*old(self), *final(self), kind, factory),
    {
        match kind {
            Pal4ModeKind::StartMenu => self.start_menu = Some(factory),
            Pal4ModeKind::Story => self.story = Some(factory),
        }
    }

    /// Build the director for `intent` with the factory registered for its
    /// kind, or `None` when no factory is registered for that kind.
    pub fn build<S, D>(&self, service: &S, intent: Pal4ModeIntent) -> (r: Option<D>) where
        F: Fn(&S, Pal4ModeIntent) -> D,
        requires
            self.factory_for(intent_kind(intent)) matches Some(f) ==> f.requires((service, intent)),
        ensures
            match self.factory_for(intent_kind(intent)) {
                None => r is None,
                Some(f) => r matches Some(d) && f.ensures((service, intent), d),
            },
    {
        let slot = match intent.kind() {
            Pal4ModeKind::StartMenu => &self.start_menu,
            Pal4ModeKind::Story => &self.story,
        };
        match slot {
            Some(factory) => Some(factory(service, intent)),
            None => None,
        }
    }
}

/// What `register` does: `after` holds `factory` for `kind` and keeps
/// every other kind's factory of `before`.
pub open spec fn registered<F>(before: Pal4ModeRegistry<F>, after: Pal4ModeRegistry<F>, kind: Pal4ModeKind, factory: F) -> bool {
    &&& after.factory_for(kind) == Some(factory)
    &&& forall|k: Pal4ModeKind| k != kind ==> after.factory_for(k) == before.factory_for(k)
}

/// The factory last registered for `kind` in a sequence of registrations,
/// if any.
pub open spec fn latest_factory<F>(regs: Seq<(Pal4ModeKind, F)>, kind: Pal4ModeKind) -> Option<F>
    decreases regs.len(),
{
    if regs.len() == 0 {
        None
    } else if regs.last().0 == kind {
        Some(regs.last().1)
    } else {
        latest_factory(regs.drop_last(), kind)
    }
}

/// Registering replaces by key: after any sequence of registrations on a
/// fresh registry (`states[i + 1]` is `states[i]` after the `i`-th
/// registration), each kind holds the factory last registered for it, or
/// none; `build` then dispatches on the intent's kind to that factory.
pub proof fn law_registry_keeps_latest<F>(states: Seq<Pal4ModeRegistry<F>>, regs: Seq<(Pal4ModeKind, F)>)
    requires
        states.len() == regs.len() + 1,
        forall|k: Pal4ModeKind| states[0].factory_for(k) is None,
        forall|i: int| 0 <= i < regs.len() ==> registered(states[i], #[trigger] states[i + 1], regs[i].0, regs[i].1),
    ensures
        forall|k: Pal4ModeKind| #[trigger] states.last().factory_for(k) == latest_factory(regs, k),
    decreases regs.len(),
{
    if regs.len() > 0 {
        let n = regs.len() - 1;
        let ps = states.drop_last();
        let pr = regs.drop_last();
        assert forall|i: int| 0 <= i < pr.len() implies registered(ps[i], #[trigger] ps[i + 1], pr[i].0, pr[i].1) by {
            assert(registered(states[i], states[i + 1], regs[i].0, regs[i].1));
        }
        law_registry_keeps_latest(ps, pr);
        assert(registered(states[n], states[n + 1], regs[n].0, regs[n].1));
        assert forall|k: Pal4ModeKind| #[trigger] states.last().factory_for(k) == latest_factory(regs, k) by {
            assert(ps.last() == states[n]);
            assert(states.last() == states[n + 1]);
            assert(regs.last() == regs[n]);
        }
    }
}

} // verus!
