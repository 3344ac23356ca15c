//! The context build of a WORLD configuration as a state machine: one GPU
//! context per runtime biome, then the compose context built from the
//! mountain biome's fragment. Every context built so far is released when any
//! step fails, and all of them are handed to the pool when the compose context
//! is built. The engine reads the fragments and builds the contexts; this
//! module decides what becomes of the handles.

use vstd::prelude::*;

verus! {

/// What the engine reports of one build step.
#[derive(Clone, Copy, Debug, PartialEq, Eq, Structural)]
pub enum WorldBuildEvent {
    /// A biome's shader fragment could not be read.
    FragmentUnreadable,
    /// A biome's context was built; `compose_source` tells whether the biome's
    /// fragment is the one the compose context is built from.
    ContextBuilt { context: u64, compose_source: bool },
    /// A biome's context could not be built.
    ContextFailed,
    /// Every runtime biome has been built.
    BiomesDone,
    /// The compose context was built.
    ComposeBuilt(u64),
    /// The compose context could not be built.
    ComposeFailed,
}

/// Why a WORLD configuration was given up.
#[derive(Clone, Copy, Debug, PartialEq, Eq, Structural)]
pub enum WorldBuildError {
    Fragment,
    Context,
    MissingComposeFragment,
    Compose,
}

/// What the engine does after a step.
#[derive(Debug, PartialEq, Eq)]
pub enum WorldBuildAction {
    /// Go on with the next step.
    Continue,
    /// Free these contexts and report the error; the configuration is given up.
    Abort { free: Vec<u64>, error: WorldBuildError },
    /// Install these biome contexts (in build order) and this compose context.
    Install { contexts: Vec<u64>, compose: u64 },
}

/// The contexts built so far, in build order, and whether the compose
/// fragment has been seen.
pub struct WorldBuild {
    contexts: Vec<u64>,
    compose_fragment: bool,
}

/// The ledger after an event.
pub open spec fn next_contexts(contexts: Seq<u64>, e: WorldBuildEvent, compose_fragment: bool) -> Seq<u64> {
    match e {
        WorldBuildEvent::ContextBuilt { context, .. } => contexts.push(context),
        WorldBuildEvent::BiomesDone => if compose_fragment {
            contexts
        } else {
            Seq::empty()
        },
        _ => Seq::empty(),
    }
}

/// Whether the compose fragment has been seen after an event.
pub open spec fn next_compose_fragment(e: WorldBuildEvent, compose_fragment: bool) -> bool {
    match e {
        WorldBuildEvent::ContextBuilt { compose_source, .. } => compose_fragment || compose_source,
        WorldBuildEvent::BiomesDone => compose_fragment,
        _ => false,
    }
}

/// The handles an event hands out of the ledger (to free or to install).
pub open spec fn released(contexts: Seq<u64>, e: WorldBuildEvent, compose_fragment: bool) -> Seq<u64> {
    match e {
        WorldBuildEvent::ContextBuilt { .. } => Seq::empty(),
        WorldBuildEvent::BiomesDone => if compose_fragment {
            Seq::empty()
        } else {
            contexts
        },
        _ => contexts,
    }
}

/// The contexts an event adds to the ledger.
pub open spec fn built_by(e: WorldBuildEvent) -> Seq<u64> {
    match e {
        WorldBuildEvent::ContextBuilt { context, .. } => seq![context],
        _ => Seq::empty(),
    }
}

/// Whether the event ends the build with an abort.
pub open spec fn aborts(e: WorldBuildEvent, compose_fragment: bool) -> Option<WorldBuildError> {
    match e {
        WorldBuildEvent::FragmentUnreadable => Some(WorldBuildError::Fragment),
        WorldBuildEvent::ContextFailed => Some(WorldBuildError::Context),
        WorldBuildEvent::BiomesDone => if compose_fragment {
            None
        } else {
            Some(WorldBuildError::MissingComposeFragment)
        },
        WorldBuildEvent::ComposeFailed => Some(WorldBuildError::Compose),
        _ => None,
    }
}

impl WorldBuild {
    /// The contexts built and not yet handed out, in build order.
    pub closed spec fn pending(&self) -> Seq<u64> {
        self.contexts@
    }

    /// Whether the compose fragment has been seen.
    pub closed spec fn has_compose_fragment(&self) -> bool {
        self.compose_fragment
    }

    /// Nothing built yet.
    pub fn new() -> (b: Self)
        ensures
            b.pending() == Seq::<u64>::empty(),
            !b.has_compose_fragment(),
    {
        WorldBuild { contexts: Vec::new(), compose_fragment: false }
    }

    fn take_pending(&mut self) -> (taken: Vec<u64>)
        ensures
            taken@ == old(self).contexts@,
            final(self).contexts@ == Seq::<u64>::empty(),
            final(self).compose_fragment == old(self).compose_fragment,
    {
        let mut taken: Vec<u64> = Vec::new();
        std::mem::swap(&mut taken, &mut self.contexts);
        taken
    }

    /// Take the engine's report of one step and decide what to do with the
    /// contexts built so far.
    pub fn step(&mut self, e: WorldBuildEvent) -> (a: WorldBuildAction)
        ensures
            final(self).pending() == next_contexts(old(self).pending(), e, old(self).has_compose_fragment()),
            final(self).has_compose_fragment() == next_compose_fragment(e, old(self).has_compose_fragment()),
            match a {
                WorldBuildAction::Continue => released(old(self).pending(), e, old(self).has_compose_fragment())
                    == Seq::<u64>::empty() && aborts(e, old(self).has_compose_fragment()) is None
                    && !(e is ComposeBuilt),
                WorldBuildAction::Abort { free, error } => aborts(e, old(self).has_compose_fragment())
                    == Some(error) && free@ == released(
                    old(self).pending(),
                    e,
                    old(self).has_compose_fragment(),
                ),
                WorldBuildAction::Install { contexts, compose } => e == WorldBuildEvent::ComposeBuilt(
                    compose,
                ) && contexts@ == released(old(self).pending(), e, old(self).has_compose_fragment()),
            },
    {
        match e {
            WorldBuildEvent::ContextBuilt { context, compose_source } => {
                self.contexts.push(context);
                self.compose_fragment = self.compose_fragment || compose_source;
                WorldBuildAction::Continue
            },
            WorldBuildEvent::BiomesDone => {
                if self.compose_fragment {
                    WorldBuildAction::Continue
                } else {
                    let free = self.take_pending();
                    WorldBuildAction::Abort { free, error: WorldBuildError::MissingComposeFragment }
                }
            },
            WorldBuildEvent::ComposeBuilt(compose) => {
                let contexts = self.take_pending();
                self.compose_fragment = false;
                WorldBuildAction::Install { contexts, compose }
            },
            WorldBuildEvent::FragmentUnreadable => {
                let free = self.take_pending();
                self.compose_fragment = false;
                WorldBuildAction::Abort { free, error: WorldBuildError::Fragment }
            },
            WorldBuildEvent::ContextFailed => {
                let free = self.take_pending();
                self.compose_fragment = false;
                WorldBuildAction::Abort { free, error: WorldBuildError::Context }
            },
            WorldBuildEvent::ComposeFailed => {
                let free = self.take_pending();
                self.compose_fragment = false;
                WorldBuildAction::Abort { free, error: WorldBuildError::Compose }
            },
        }
    }
}

/// The contexts built by a run of events, in build order.
pub open spec fn run_built(events: Seq<WorldBuildEvent>) -> Seq<u64>
    decreases events.len(),
{
    if events.len() == 0 {
        Seq::empty()
    } else {
        built_by(events[0]) + run_built(events.drop_first())
    }
}

/// The contexts a run of events hands out (freed or installed), in order.
pub open spec fn run_released(pending: Seq<u64>, compose: bool, events: Seq<WorldBuildEvent>) -> Seq<u64>
    decreases events.len(),
{
    if events.len() == 0 {
        Seq::empty()
    } else {
        released(pending, events[0], compose) + run_released(
            next_contexts(pending, events[0], compose),
            next_compose_fragment(events[0], compose),
            events.drop_first(),
        )
    }
}

/// The ledger after a run of events.
pub open spec fn run_pending(pending: Seq<u64>, compose: bool, events: Seq<WorldBuildEvent>) -> Seq<u64>
    decreases events.len(),
{
    if events.len() == 0 {
        pending
    } else {
        run_pending(
            next_contexts(pending, events[0], compose),
            next_compose_fragment(events[0], compose),
            events.drop_first(),
        )
    }
}

/// No context is lost or handed out twice: over any run of steps, the
/// contexts handed out (to be freed or installed) followed by those still
/// pending are exactly the contexts pending at the start followed by those
/// built, in build order.
pub proof fn lemma_every_context_handed_out_once(
    pending: Seq<u64>,
    compose: bool,
    events: Seq<WorldBuildEvent>,
)
    ensures
        run_released(pending, compose, events) + run_pending(pending, compose, events) == pending
            + run_built(events),
    decreases events.len(),
{
    if events.len() == 0 {
        assert(pending + Seq::<u64>::empty() =~= pending);
        assert(Seq::<u64>::empty() + pending =~= pending);
    } else {
        let e = events[0];
        let rest = events.drop_first();
        let p1 = next_contexts(pending, e, compose);
        let c1 = next_compose_fragment(e, compose);
        lemma_every_context_handed_out_once(p1, c1, rest);
        assert(released(pending, e, compose) + p1 =~= pending + built_by(e));
        let r1 = released(pending, e, compose);
        let rr = run_released(p1, c1, rest);
        let rp = run_pending(p1, c1, rest);
        assert(r1 + rr + rp =~= r1 + (rr + rp));
        assert(r1 + (p1 + run_built(rest)) =~= (r1 + p1) + run_built(rest));
        assert(pending + built_by(e) + run_built(rest) =~= pending + (built_by(e) + run_built(rest)));
    }
}

/// After a failure nothing is left pending: a run that ends with an abort has
/// handed every context it built to be freed.
pub proof fn lemma_abort_leaves_nothing(pending: Seq<u64>, compose: bool, e: WorldBuildEvent)
    requires
        aborts(e, compose) is Some,
    ensures
        next_contexts(pending, e, compose) == Seq::<u64>::empty(),
        released(pending, e, compose) == pending,
{
}

} // verus!
