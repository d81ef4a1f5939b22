//! A display server and its environment as plain mathematics, and what a
//! client does when it is run against them.

use crate::machine::{
    awaits, lemma_reply_taken, lemma_request_open, recorded, replies, step, ClientState,
};
use crate::protocol::{
    default_display, focus_proxy, ActionView, EventView, OutcomeView, NO_WINDOW,
};
use vstd::prelude::*;

verus! {

/// What a client can get to know of the outside.
pub struct World {
    /// The display that the environment names, if it names one.
    pub display: Option<Seq<char>>,
    /// The displays to which a connection can be opened.
    pub accepting: Set<Seq<char>>,
    /// The window that has the focus, the sentinel if none has.
    pub focus: u64,
    /// The class name in the class hint of each window that has one.
    pub classes: Map<u64, Seq<char>>,
    /// The parent of each window of which the server can tell it; the
    /// parent of the root window is the sentinel.
    pub parents: Map<u64, u64>,
}

impl World {
    /// The display that a client goes to.
    pub open spec fn endpoint(self) -> Seq<char> {
        match self.display {
            Some(endpoint) => endpoint,
            None => default_display(),
        }
    }

    /// Whether a connection can be opened to the display that a client goes
    /// to.
    pub open spec fn reachable(self) -> bool {
        self.accepting.contains(self.endpoint())
    }

    /// The class name in the window's class hint.
    pub open spec fn class_of(self, window: u64) -> Option<Seq<char>> {
        if self.classes.dom().contains(window) {
            Some(self.classes[window])
        } else {
            None
        }
    }

    /// What the tree query says of the window's parent.
    pub open spec fn parent_of(self, window: u64) -> Option<u64> {
        if self.parents.dom().contains(window) {
            Some(self.parents[window])
        } else {
            None
        }
    }

    /// The world with the display written into the environment.
    pub open spec fn with_display(self, endpoint: Seq<char>) -> World {
        World { display: Some(endpoint), ..self }
    }

    /// The world after the action, and what came of the action.
    pub open spec fn answer(self, action: ActionView) -> (World, EventView) {
        match action {
            ActionView::ReadDisplay => (self, EventView::Display(self.display)),
            ActionView::Notify(_) => (self, EventView::Acknowledged),
            ActionView::SetDisplay(endpoint) => (
                self.with_display(endpoint),
                EventView::Acknowledged,
            ),
            ActionView::OpenDisplay(endpoint) => (
                self,
                EventView::Opened(self.accepting.contains(endpoint)),
            ),
            ActionView::QueryFocus => (self, EventView::Focus(self.focus)),
            ActionView::QueryClassHint(window) => (
                self,
                EventView::ClassHint(self.class_of(window)),
            ),
            ActionView::QueryParent(window) => (self, EventView::Parent(self.parent_of(window))),
            ActionView::Done(_) => (self, EventView::Acknowledged),
        }
    }
}

/// One operation from a request to its end.
pub struct Run {
    /// The client at the end.
    pub client: ClientState,
    /// The world at the end.
    pub world: World,
    /// The requests that were carried out, in order.
    pub asked: Seq<ActionView>,
    /// What the operation found; nothing if it did not come to its end.
    pub outcome: Option<OutcomeView>,
}

/// What happens when `action` and all that the client asks for after it is
/// carried out in `world`, for at most `budget` requests.
pub open spec fn drive(client: ClientState, action: ActionView, world: World, budget: nat) -> Run
    decreases budget,
{
    if let ActionView::Done(outcome) = action {
        Run { client, world, asked: Seq::empty(), outcome: Some(outcome) }
    } else if budget == 0 {
        Run { client, world, asked: Seq::empty(), outcome: None }
    } else {
        let (after, event) = world.answer(action);
        match step(client, event) {
            Some((next, request)) => {
                let rest = drive(next, request, after, (budget - 1) as nat);
                Run { asked: seq![action] + rest.asked, ..rest }
            },
            None => Run { client, world: after, asked: seq![action], outcome: None },
        }
    }
}

/// A walk up the windows: the name it ends with and the requests it makes.
pub struct Walk {
    pub name: Option<Seq<char>>,
    pub asked: Seq<ActionView>,
}

/// The walk that comes to `window` with `candidate` as the class name last
/// seen, and goes on for at most `fuel` windows above it.
///
/// The window's class name, where it has one, becomes the candidate. A
/// candidate other than the proxy's name ends the walk, and so does none at
/// all. Else the walk goes to the parent: above the root it ends without a
/// name, and where the server cannot tell the parent it ends with the
/// candidate. Nothing where the walk would go on beyond `fuel` windows.
pub open spec fn walk(world: World, window: u64, candidate: Option<Seq<char>>, fuel: nat) -> Option<
    Walk,
>
    decreases fuel,
{
    let name = recorded(candidate, world.class_of(window));
    let hint = seq![ActionView::QueryClassHint(window)];
    let both = seq![ActionView::QueryClassHint(window), ActionView::QueryParent(window)];
    if name != Some(focus_proxy()) {
        Some(Walk { name, asked: hint })
    } else {
        match world.parent_of(window) {
            None => Some(Walk { name, asked: both }),
            Some(parent) => if parent == NO_WINDOW {
                Some(Walk { name: None, asked: both })
            } else if fuel == 0 {
                None
            } else {
                match walk(world, parent, name, (fuel - 1) as nat) {
                    Some(above) => Some(Walk { name: above.name, asked: both + above.asked }),
                    None => None,
                }
            },
        }
    }
}

/// A run with `asked` carried out before it.
pub open spec fn after(asked: Seq<ActionView>, run: Run) -> Run {
    Run { asked: asked + run.asked, ..run }
}

/// One request of a run: where the world's answer to `action` is one that
/// the client takes, the run is `action` and then the run from there.
pub proof fn lemma_drive_one(client: ClientState, action: ActionView, world: World, budget: nat)
    requires
        !(action is Done),
        budget > 0,
        step(client, world.answer(action).1) is Some,
    ensures
        ({
            let (next, request) = step(client, world.answer(action).1).unwrap();
            drive(client, action, world, budget) == after(
                seq![action],
                drive(next, request, world.answer(action).0, (budget - 1) as nat),
            )
        }),
{
}

/// The world answers every request with an event of the kind asked for.
pub proof fn lemma_world_replies(world: World, action: ActionView)
    requires
        !(action is Done),
    ensures
        replies(action, world.answer(action).1),
{
}

/// A run from a request that is open stops short of its end only for want
/// of budget: the client takes every answer that the world gives.
pub proof fn lemma_drive_spends(client: ClientState, action: ActionView, world: World, budget: nat)
    requires
        awaits(client.stage, action),
    ensures
        drive(client, action, world, budget).outcome is None ==> drive(
            client,
            action,
            world,
            budget,
        ).asked.len() == budget,
    decreases budget,
{
    if !(action is Done) && budget > 0 {
        let (then, event) = world.answer(action);
        lemma_world_replies(world, action);
        lemma_reply_taken(client, action, event);
        let (next, request) = step(client, event).unwrap();
        lemma_request_open(client, client.goal, event);
        lemma_drive_spends(next, request, then, (budget - 1) as nat);
    }
}

/// A walk reads the windows only: worlds with the same windows give the same
/// walk.
pub proof fn lemma_walk_same(
    world: World,
    other: World,
    window: u64,
    candidate: Option<Seq<char>>,
    fuel: nat,
)
    requires
        world.classes == other.classes,
        world.parents == other.parents,
    ensures
        walk(world, window, candidate, fuel) == walk(other, window, candidate, fuel),
    decreases fuel,
{
    if fuel > 0 {
        let name = recorded(candidate, world.class_of(window));
        if world.parent_of(window) is Some {
            lemma_walk_same(world, other, world.parent_of(window).unwrap(), name, (fuel - 1) as nat);
        }
    }
}

/// A walk that has ended stays as it is under more fuel.
pub proof fn lemma_walk_longer(
    world: World,
    window: u64,
    candidate: Option<Seq<char>>,
    fuel: nat,
    more: nat,
)
    requires
        walk(world, window, candidate, fuel) is Some,
        fuel <= more,
    ensures
        walk(world, window, candidate, more) == walk(world, window, candidate, fuel),
    decreases fuel,
{
    let name = recorded(candidate, world.class_of(window));
    if fuel > 0 && name == Some(focus_proxy()) && world.parent_of(window) is Some
        && world.parent_of(window) != Some(NO_WINDOW) {
        lemma_walk_longer(
            world,
            world.parent_of(window).unwrap(),
            name,
            (fuel - 1) as nat,
            (more - 1) as nat,
        );
    }
}

/// The walk ends: where every window lies higher than its parent, the walk
/// from a window ends within as many windows as the window's height.
pub proof fn lemma_walk_ends(
    world: World,
    height: spec_fn(u64) -> nat,
    window: u64,
    candidate: Option<Seq<char>>,
)
    requires
        forall|below: u64|
            world.parents.dom().contains(below) && world.parents[below] != NO_WINDOW ==> height(
                #[trigger] world.parents[below],
            ) < height(below),
    ensures
        walk(world, window, candidate, height(window)) is Some,
    decreases height(window),
{
    let name = recorded(candidate, world.class_of(window));
    if world.parent_of(window) is Some && world.parents[window] != NO_WINDOW {
        let parent = world.parents[window];
        lemma_walk_ends(world, height, parent, name);
        lemma_walk_longer(world, parent, name, height(parent), (height(window) - 1) as nat);
    }
}

/// A walk within `fuel` windows above its first makes two requests for each
/// window at most.
pub proof fn lemma_walk_length(
    world: World,
    window: u64,
    candidate: Option<Seq<char>>,
    fuel: nat,
)
    requires
        walk(world, window, candidate, fuel) is Some,
    ensures
        walk(world, window, candidate, fuel).unwrap().asked.len() <= 2 * (fuel + 1),
    decreases fuel,
{
    let name = recorded(candidate, world.class_of(window));
    if fuel > 0 && name == Some(focus_proxy()) && world.parent_of(window) is Some
        && world.parent_of(window) != Some(NO_WINDOW) {
        lemma_walk_length(world, world.parent_of(window).unwrap(), name, (fuel - 1) as nat);
    }
}

} // verus!
