//! Each operation as a whole: what a client asks for and how it ends when
//! it is run against a world.

use crate::machine::{
    begin, connected_next, connection, finish, step, unavailable, visit, ClientState, Goal,
    StageView,
};
use crate::protocol::{default_display, ActionView, NoticeView, OutcomeView, NO_WINDOW};
use crate::world::{after, drive, lemma_drive_one, lemma_walk_same, walk, Run, World};
use vstd::prelude::*;

verus! {

/// Whether a client holds a connection once it has tried to get one.
pub open spec fn connects(connected: bool, world: World) -> bool {
    connected || world.reachable()
}

/// The requests of a client that holds no connection and tries to get one.
pub open spec fn connecting(world: World) -> Seq<ActionView> {
    let opening = match world.display {
        Some(endpoint) => seq![ActionView::ReadDisplay, ActionView::OpenDisplay(endpoint)],
        None => seq![
            ActionView::ReadDisplay,
            ActionView::Notify(NoticeView::DefaultDisplay),
            ActionView::SetDisplay(default_display()),
            ActionView::OpenDisplay(default_display()),
        ],
    };
    if world.reachable() {
        opening
    } else {
        opening.push(ActionView::Notify(NoticeView::ConnectionFailed { endpoint: world.endpoint() }))
    }
}

/// The world once a client has tried to connect: the environment names the
/// display that was tried.
pub open spec fn settled(world: World) -> World {
    world.with_display(world.endpoint())
}

/// The requests with which an operation begins: none where a connection is
/// held, else those of an attempt to connect.
pub open spec fn opening(connected: bool, world: World) -> Seq<ActionView> {
    if connected {
        Seq::empty()
    } else {
        connecting(world)
    }
}

/// The world after an operation: as it was where a connection was held, else
/// with the display that was tried written into the environment.
pub open spec fn world_after(connected: bool, world: World) -> World {
    if connected {
        world
    } else {
        settled(world)
    }
}

/// The client after an operation.
pub open spec fn client_after(connected: bool, goal: Goal, world: World) -> ClientState {
    ClientState { connected: connects(connected, world), goal, stage: StageView::Idle }
}

/// The whole of `connect` in a world.
pub open spec fn connect_run(connected: bool, world: World) -> Run {
    Run {
        client: client_after(connected, Goal::Connect, world),
        world: world_after(connected, world),
        asked: opening(connected, world),
        outcome: Some(OutcomeView::Connection(connection(connects(connected, world)))),
    }
}

/// The whole of `supported` in a world: with a connection the focus is asked
/// for once, and a window other than the sentinel is what counts.
pub open spec fn supported_run(connected: bool, world: World) -> Run {
    let held = connects(connected, world);
    Run {
        client: client_after(connected, Goal::Supported, world),
        world: world_after(connected, world),
        asked: if held {
            opening(connected, world).push(ActionView::QueryFocus)
        } else {
            opening(connected, world)
        },
        outcome: Some(OutcomeView::Supported(held && world.focus != NO_WINDOW)),
    }
}

/// The whole of `current_application` in a world where the walk from the
/// focused window ends within `fuel` windows above it: without a connection
/// or a focused window nothing is asked of any window and no name is found;
/// else the focus is asked for twice and the walk gives the requests and the
/// name.
pub open spec fn application_run(connected: bool, world: World, fuel: nat) -> Run {
    let held = connects(connected, world);
    let found = walk(world, world.focus, None, fuel).unwrap();
    Run {
        client: client_after(connected, Goal::CurrentApplication, world),
        world: world_after(connected, world),
        asked: if !held {
            opening(connected, world)
        } else if world.focus == NO_WINDOW {
            opening(connected, world).push(ActionView::QueryFocus)
        } else {
            opening(connected, world) + seq![ActionView::QueryFocus, ActionView::QueryFocus]
                + found.asked
        },
        outcome: Some(
            OutcomeView::Application(
                if held && world.focus != NO_WINDOW {
                    found.name
                } else {
                    None
                },
            ),
        ),
    }
}

/// Where an operation stands once the attempt to connect is over.
pub open spec fn attempted(goal: Goal, world: World) -> (ClientState, ActionView) {
    if world.reachable() {
        connected_next(goal)
    } else {
        finish(false, goal, unavailable(goal))
    }
}

/// A client that holds no connection tries to get one before anything else:
/// its run is [`connecting`], and then the run from where the attempt left
/// it.
pub proof fn lemma_connecting_first(goal: Goal, world: World, budget: nat)
    requires
        budget >= connecting(world).len(),
    ensures
        ({
            let (client, action) = begin(false, goal);
            let (next, request) = attempted(goal, world);
            drive(client, action, world, budget) == after(
                connecting(world),
                drive(next, request, settled(world), (budget - connecting(world).len()) as nat),
            )
        }),
{
    let (client, action) = begin(false, goal);
    let (next, request) = attempted(goal, world);
    let endpoint = world.endpoint();
    let trying = ClientState { connected: false, goal, stage: StageView::Opening { endpoint } };
    let open = ActionView::OpenDisplay(endpoint);
    let spent: nat = if world.display is Some {
        1
    } else {
        3
    };
    let left = (budget - spent) as nat;
    let home = settled(world);
    // From the open request on.
    let tail = drive(trying, open, home, left);
    let rest = drive(next, request, home, (budget - connecting(world).len()) as nat);
    lemma_drive_one(trying, open, home, left);
    if world.reachable() {
        assert(tail == after(seq![open], rest));
    } else {
        let noting = ClientState { connected: false, goal, stage: StageView::NotingFailure };
        let note = ActionView::Notify(NoticeView::ConnectionFailed { endpoint });
        lemma_drive_one(noting, note, home, (left - 1) as nat);
        assert(tail == after(seq![open], after(seq![note], rest)));
        assert(seq![open] + (seq![note] + rest.asked) =~= seq![open, note] + rest.asked);
    }
    // Up to the open request.
    lemma_drive_one(client, action, world, budget);
    if world.display is Some {
        assert(home == world);
        assert(drive(client, action, world, budget) == after(seq![action], tail));
        if world.reachable() {
            assert(seq![action] + (seq![open] + rest.asked) =~= connecting(world) + rest.asked);
        } else {
            let note = ActionView::Notify(NoticeView::ConnectionFailed { endpoint });
            assert(seq![action] + (seq![open, note] + rest.asked) =~= connecting(world)
                + rest.asked);
        }
    } else {
        let noting = ClientState { connected: false, goal, stage: StageView::NotingDefault };
        let note = ActionView::Notify(NoticeView::DefaultDisplay);
        let setting = ClientState { connected: false, goal, stage: StageView::SettingDisplay };
        let set = ActionView::SetDisplay(default_display());
        lemma_drive_one(noting, note, world, (budget - 1) as nat);
        lemma_drive_one(setting, set, world, (budget - 2) as nat);
        assert(world.answer(set).0 == home);
        assert(drive(client, action, world, budget) == after(
            seq![action],
            after(seq![note], after(seq![set], tail)),
        ));
        if world.reachable() {
            assert(seq![action] + (seq![note] + (seq![set] + (seq![open] + rest.asked)))
                =~= connecting(world) + rest.asked);
        } else {
            let failed = ActionView::Notify(NoticeView::ConnectionFailed { endpoint });
            assert(seq![action] + (seq![note] + (seq![set] + (seq![open, failed] + rest.asked)))
                =~= connecting(world) + rest.asked);
        }
    }
}

/// An operation's run from its first request, with the attempt to connect
/// taken off where there is one.
proof fn lemma_opening_first(connected: bool, goal: Goal, world: World, budget: nat)
    requires
        budget >= opening(connected, world).len(),
    ensures
        ({
            let (client, action) = begin(connected, goal);
            let (next, request) = if connects(connected, world) {
                connected_next(goal)
            } else {
                finish(false, goal, unavailable(goal))
            };
            drive(client, action, world, budget) == after(
                opening(connected, world),
                drive(
                    next,
                    request,
                    world_after(connected, world),
                    (budget - opening(connected, world).len()) as nat,
                ),
            )
        }),
{
    if connected {
        let (client, action) = begin(connected, goal);
        let run = drive(client, action, world, budget);
        assert(Seq::<ActionView>::empty() + run.asked =~= run.asked);
    } else {
        lemma_connecting_first(goal, world, budget);
    }
}

/// A walk against the world: the client asks what [`walk`] lists and ends
/// with the name that [`walk`] gives.
pub proof fn lemma_walk_run(
    client: ClientState,
    world: World,
    window: u64,
    candidate: Option<Seq<char>>,
    fuel: nat,
    budget: nat,
)
    requires
        client.stage == (StageView::ReadingClassHint { window, candidate }),
        window != NO_WINDOW,
        walk(world, window, candidate, fuel) is Some,
        budget >= walk(world, window, candidate, fuel).unwrap().asked.len(),
    ensures
        ({
            let found = walk(world, window, candidate, fuel).unwrap();
            drive(client, ActionView::QueryClassHint(window), world, budget) == Run {
                client: ClientState { stage: StageView::Idle, ..client },
                world,
                asked: found.asked,
                outcome: Some(OutcomeView::Application(found.name)),
            }
        }),
    decreases fuel,
{
    let found = walk(world, window, candidate, fuel).unwrap();
    let hint = ActionView::QueryClassHint(window);
    let up = ActionView::QueryParent(window);
    let (next, request) = step(client, world.answer(hint).1).unwrap();
    lemma_drive_one(client, hint, world, budget);
    let rest = drive(next, request, world, (budget - 1) as nat);
    if request is Done {
        assert(seq![hint] + rest.asked =~= found.asked);
    } else {
        let (last, then) = step(next, world.answer(up).1).unwrap();
        lemma_drive_one(next, up, world, (budget - 1) as nat);
        let end = drive(last, then, world, (budget - 2) as nat);
        assert(seq![hint] + (seq![up] + end.asked) =~= seq![hint, up] + end.asked);
        if then is Done {
            assert(seq![hint, up] + end.asked =~= found.asked);
        } else {
            let parent = world.parent_of(window).unwrap();
            let name = next.stage->ReadingParent_candidate;
            lemma_walk_run(last, world, parent, name, (fuel - 1) as nat, (budget - 2) as nat);
        }
    }
}

/// `connect` against the world is [`connect_run`].
pub proof fn lemma_connect_run(connected: bool, world: World, budget: nat)
    requires
        budget >= connect_run(connected, world).asked.len(),
    ensures
        ({
            let (client, action) = begin(connected, Goal::Connect);
            drive(client, action, world, budget) == connect_run(connected, world)
        }),
{
    lemma_opening_first(connected, Goal::Connect, world, budget);
    assert(opening(connected, world) + Seq::<ActionView>::empty() =~= opening(connected, world));
}

/// `supported` against the world is [`supported_run`].
pub proof fn lemma_supported_run(connected: bool, world: World, budget: nat)
    requires
        budget >= supported_run(connected, world).asked.len(),
    ensures
        ({
            let (client, action) = begin(connected, Goal::Supported);
            drive(client, action, world, budget) == supported_run(connected, world)
        }),
{
    let goal = Goal::Supported;
    let first = opening(connected, world);
    let home = world_after(connected, world);
    lemma_opening_first(connected, goal, world, budget);
    if connects(connected, world) {
        let (next, request) = connected_next(goal);
        lemma_drive_one(next, request, home, (budget - first.len()) as nat);
        assert(first + (seq![ActionView::QueryFocus] + Seq::<ActionView>::empty()) =~= first.push(
            ActionView::QueryFocus,
        ));
    } else {
        assert(first + Seq::<ActionView>::empty() =~= first);
    }
}

/// `current_application` against the world is [`application_run`], where the
/// walk from the focused window ends within `fuel` windows above it.
pub proof fn lemma_application_run(connected: bool, world: World, fuel: nat, budget: nat)
    requires
        connects(connected, world) && world.focus != NO_WINDOW ==> walk(
            world,
            world.focus,
            None,
            fuel,
        ) is Some,
        budget >= application_run(connected, world, fuel).asked.len(),
    ensures
        ({
            let (client, action) = begin(connected, Goal::CurrentApplication);
            drive(client, action, world, budget) == application_run(connected, world, fuel)
        }),
{
    let goal = Goal::CurrentApplication;
    let first = opening(connected, world);
    let home = world_after(connected, world);
    let focus = ActionView::QueryFocus;
    lemma_opening_first(connected, goal, world, budget);
    if !connects(connected, world) {
        assert(first + Seq::<ActionView>::empty() =~= first);
    } else {
        let left = (budget - first.len()) as nat;
        let (next, request) = connected_next(goal);
        lemma_drive_one(next, request, home, left);
        if world.focus == NO_WINDOW {
            assert(first + (seq![focus] + Seq::<ActionView>::empty()) =~= first.push(focus));
        } else {
            let reading = ClientState { stage: StageView::ReadingFocus, ..next };
            lemma_drive_one(reading, focus, home, (left - 1) as nat);
            let (start, hint) = visit(reading, world.focus, None);
            let found = walk(world, world.focus, None, fuel).unwrap();
            lemma_walk_same(world, home, world.focus, None, fuel);
            lemma_walk_run(start, home, world.focus, None, fuel, (left - 2) as nat);
            assert(first + (seq![focus] + (seq![focus] + found.asked)) =~= first + seq![
                focus,
                focus,
            ] + found.asked);
        }
    }
}

} // verus!
