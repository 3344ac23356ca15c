use wg10_terrain::world_build::{WorldBuild, WorldBuildAction, WorldBuildError, WorldBuildEvent};

fn built(context: u64, compose_source: bool) -> WorldBuildEvent {
    WorldBuildEvent::ContextBuilt { context, compose_source }
}

#[test]
fn world_build_installs_every_context() {
    let mut b = WorldBuild::new();
    assert_eq!(b.step(built(1, false)), WorldBuildAction::Continue);
    assert_eq!(b.step(built(2, true)), WorldBuildAction::Continue);
    assert_eq!(b.step(built(3, false)), WorldBuildAction::Continue);
    assert_eq!(b.step(WorldBuildEvent::BiomesDone), WorldBuildAction::Continue);
    assert_eq!(
        b.step(WorldBuildEvent::ComposeBuilt(9)),
        WorldBuildAction::Install { contexts: vec![1, 2, 3], compose: 9 }
    );
}

#[test]
fn world_build_failure_frees_everything_built() {
    let mut b = WorldBuild::new();
    b.step(built(1, false));
    b.step(built(2, false));
    assert_eq!(
        b.step(WorldBuildEvent::ContextFailed),
        WorldBuildAction::Abort { free: vec![1, 2], error: WorldBuildError::Context }
    );
    // Nothing is left to free twice.
    assert_eq!(
        b.step(WorldBuildEvent::FragmentUnreadable),
        WorldBuildAction::Abort { free: vec![], error: WorldBuildError::Fragment }
    );
}

#[test]
fn world_build_without_compose_fragment_is_given_up() {
    let mut b = WorldBuild::new();
    b.step(built(4, false));
    assert_eq!(
        b.step(WorldBuildEvent::BiomesDone),
        WorldBuildAction::Abort { free: vec![4], error: WorldBuildError::MissingComposeFragment }
    );
    let mut c = WorldBuild::new();
    c.step(built(5, true));
    c.step(WorldBuildEvent::BiomesDone);
    assert_eq!(
        c.step(WorldBuildEvent::ComposeFailed),
        WorldBuildAction::Abort { free: vec![5], error: WorldBuildError::Compose }
    );
}
