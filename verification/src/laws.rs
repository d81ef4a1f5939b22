//! What holds of every run of a client.

use crate::machine::{
    begin, lemma_request_open, lemma_sentinel_spared, step, ClientState, Goal,
};
use crate::protocol::{focus_proxy, ActionView, OutcomeView, NO_WINDOW};
use crate::runs::{
    connect_run, connects, lemma_application_run, lemma_connect_run, lemma_supported_run,
};
use crate::world::{
    drive, lemma_drive_spends, lemma_walk_ends, lemma_walk_length, walk, World,
};
use vstd::prelude::*;

verus! {

/// Connecting twice is connecting once: the second `connect` leaves the
/// client and the world as the first left them and ends as the first did,
/// and where the first got a connection the second asks for nothing, so no
/// second connection is opened.
pub proof fn lemma_connect_twice(connected: bool, world: World, budget: nat)
    requires
        budget >= connect_run(connected, world).asked.len(),
    ensures
        ({
            let (client, action) = begin(connected, Goal::Connect);
            let once = drive(client, action, world, budget);
            let (again, request) = begin(once.client.connected, Goal::Connect);
            let twice = drive(again, request, once.world, budget);
            &&& twice.client == once.client
            &&& twice.world == once.world
            &&& twice.outcome == once.outcome
            &&& once.client.connected ==> twice.asked.len() == 0
        }),
{
    lemma_connect_run(connected, world, budget);
    let once = connect_run(connected, world);
    lemma_connect_run(once.client.connected, once.world, budget);
}

/// A run that does not start by asking the sentinel for its class hint
/// never asks it.
pub proof fn lemma_drive_spares_sentinel(
    client: ClientState,
    action: ActionView,
    world: World,
    budget: nat,
)
    requires
        action != ActionView::QueryClassHint(NO_WINDOW),
    ensures
        ({
            let run = drive(client, action, world, budget);
            forall|i: int|
                0 <= i < run.asked.len() ==> run.asked[i] != ActionView::QueryClassHint(NO_WINDOW)
        }),
    decreases budget,
{
    if !(action is Done) && budget > 0 {
        let (then, event) = world.answer(action);
        if step(client, event) is Some {
            let (next, request) = step(client, event).unwrap();
            lemma_sentinel_spared(client, client.goal, event);
            lemma_drive_spares_sentinel(next, request, then, (budget - 1) as nat);
        }
    }
}

/// No run asks the sentinel for its class hint, whatever the world holds
/// and however long the run is.
pub proof fn lemma_run_spares_sentinel(connected: bool, goal: Goal, world: World, budget: nat)
    ensures
        ({
            let (client, action) = begin(connected, goal);
            let run = drive(client, action, world, budget);
            forall|i: int|
                0 <= i < run.asked.len() ==> run.asked[i] != ActionView::QueryClassHint(NO_WINDOW)
        }),
{
    let (client, action) = begin(connected, goal);
    lemma_sentinel_spared(client, goal, world.answer(action).1);
    lemma_drive_spares_sentinel(client, action, world, budget);
}

/// No run stops short of its end but for want of budget: whatever the world
/// holds, the client takes each of its answers and asks on until the
/// operation has ended.
pub proof fn lemma_run_spends(connected: bool, goal: Goal, world: World, budget: nat)
    ensures
        ({
            let (client, action) = begin(connected, goal);
            let run = drive(client, action, world, budget);
            run.outcome is None ==> run.asked.len() == budget
        }),
{
    let (client, action) = begin(connected, goal);
    lemma_request_open(client, goal, world.answer(action).1);
    lemma_drive_spends(client, action, world, budget);
}

/// Whether the action asks the server about a window.
pub open spec fn asks_window(action: ActionView) -> bool {
    action is QueryClassHint || action is QueryParent
}

/// While no window has the focus nothing is supported and no application
/// is named, and no window is asked about.
pub proof fn lemma_unfocused(connected: bool, world: World, budget: nat)
    requires
        world.focus == NO_WINDOW,
        budget >= 6,
    ensures
        ({
            let (client, action) = begin(connected, Goal::Supported);
            let run = drive(client, action, world, budget);
            &&& run.outcome == Some(OutcomeView::Supported(false))
            &&& forall|i: int| 0 <= i < run.asked.len() ==> !asks_window(#[trigger] run.asked[i])
        }),
        ({
            let (client, action) = begin(connected, Goal::CurrentApplication);
            let run = drive(client, action, world, budget);
            &&& run.outcome == Some(OutcomeView::Application(None))
            &&& forall|i: int| 0 <= i < run.asked.len() ==> !asks_window(#[trigger] run.asked[i])
        }),
{
    lemma_supported_run(connected, world, budget);
    lemma_application_run(connected, world, 0, budget);
}

/// A focused window whose class name is not the proxy's names the
/// application, and no parent is asked for.
pub proof fn lemma_named_at_once(connected: bool, world: World, name: Seq<char>, budget: nat)
    requires
        connects(connected, world),
        world.focus != NO_WINDOW,
        world.class_of(world.focus) == Some(name),
        name != focus_proxy(),
        budget >= 7,
    ensures
        ({
            let (client, action) = begin(connected, Goal::CurrentApplication);
            let run = drive(client, action, world, budget);
            &&& run.outcome == Some(OutcomeView::Application(Some(name)))
            &&& forall|i: int| 0 <= i < run.asked.len() ==> !(#[trigger] run.asked[i] is QueryParent)
        }),
{
    lemma_application_run(connected, world, 0, budget);
}

/// A focused window without a class name names nothing, whatever stands
/// above it.
pub proof fn lemma_nameless_focus(connected: bool, world: World, budget: nat)
    requires
        world.class_of(world.focus) is None,
        budget >= 7,
    ensures
        ({
            let (client, action) = begin(connected, Goal::CurrentApplication);
            drive(client, action, world, budget).outcome == Some(OutcomeView::Application(None))
        }),
{
    lemma_application_run(connected, world, 0, budget);
}

/// Whether `line` is a line of windows going up from `first` that a walk
/// with the proxy's name as candidate follows: each further window is the
/// parent of the one before it and has the proxy's class name or none, and
/// none of them is the sentinel.
pub open spec fn climbs(world: World, first: u64, line: Seq<u64>) -> bool {
    &&& line.len() > 0
    &&& line[0] == first
    &&& forall|i: int| 0 <= i < line.len() ==> #[trigger] line[i] != NO_WINDOW
    &&& forall|i: int|
        0 < i < line.len() ==> {
            &&& world.parent_of(line[i - 1]) == Some(#[trigger] line[i])
            &&& (world.class_of(line[i]) is None || world.class_of(line[i]) == Some(
                focus_proxy(),
            ))
        }
}

/// Whether `line` is a line of proxies from the focused window upward: the
/// focused window comes first and has the proxy's class name, and the line
/// [`climbs`] from it.
pub open spec fn proxies(world: World, line: Seq<u64>) -> bool {
    &&& climbs(world, world.focus, line)
    &&& world.class_of(world.focus) == Some(focus_proxy())
}

/// Whether a walk that has come up to `last` with the proxy's name stops
/// there or at its parent: the server cannot tell the parent, or the parent
/// is the sentinel, or it has a class name other than the proxy's.
pub open spec fn stops_above(world: World, last: u64) -> bool {
    match world.parent_of(last) {
        None => true,
        Some(parent) => parent == NO_WINDOW || (world.class_of(parent) is Some && world.class_of(
            parent,
        ) != Some(focus_proxy())),
    }
}

/// A walk that ends has followed a line of windows up to one above which
/// it stops.
proof fn lemma_line_from(world: World, first: u64, fuel: nat)
    requires
        first != NO_WINDOW,
        world.class_of(first) is None || world.class_of(first) == Some(focus_proxy()),
        walk(world, first, Some(focus_proxy()), fuel) is Some,
    ensures
        exists|line: Seq<u64>|
            climbs(world, first, line) && stops_above(world, line.last()) && line.len() <= fuel
                + 1,
    decreases fuel,
{
    if stops_above(world, first) {
        let line = seq![first];
        assert(climbs(world, first, line) && stops_above(world, line.last()));
    } else {
        let parent = world.parent_of(first).unwrap();
        lemma_line_from(world, parent, (fuel - 1) as nat);
        let rest = choose|rest: Seq<u64>|
            climbs(world, parent, rest) && stops_above(world, rest.last()) && rest.len() <= fuel;
        let line = seq![first] + rest;
        assert forall|i: int| 0 < i < line.len() implies {
            &&& world.parent_of(line[i - 1]) == Some(#[trigger] line[i])
            &&& (world.class_of(line[i]) is None || world.class_of(line[i]) == Some(
                focus_proxy(),
            ))
        } by {
            assert(line[i] == rest[i - 1]);
            if i > 1 {
                assert(line[i - 1] == rest[i - 1 - 1]);
            }
        }
        assert forall|i: int| 0 <= i < line.len() implies #[trigger] line[i] != NO_WINDOW by {
            if i > 0 {
                assert(line[i] == rest[i - 1]);
            }
        }
        assert(line.last() == rest.last());
        assert(climbs(world, first, line) && stops_above(world, line.last()));
    }
}

/// Every walk from a focused proxy that ends has followed a line of
/// proxies, above the last of which one of the three ends of a walk is met:
/// so the laws on lines of proxies cover every such walk.
pub proof fn lemma_walk_follows_a_line(world: World, fuel: nat)
    requires
        world.focus != NO_WINDOW,
        world.class_of(world.focus) == Some(focus_proxy()),
        walk(world, world.focus, None, fuel) is Some,
    ensures
        exists|line: Seq<u64>| proxies(world, line) && stops_above(world, line.last()),
{
    assert(walk(world, world.focus, Some(focus_proxy()), fuel) == walk(
        world,
        world.focus,
        None,
        fuel,
    ));
    lemma_line_from(world, world.focus, fuel);
    let line = choose|line: Seq<u64>|
        climbs(world, world.focus, line) && stops_above(world, line.last()) && line.len() <= fuel
            + 1;
    assert(proxies(world, line) && stops_above(world, line.last()));
}

/// A walk that comes to a window of a line of proxies ends as the walk
/// from the last of them does.
proof fn lemma_walk_up_the_line(world: World, line: Seq<u64>, i: int, fuel: nat)
    requires
        proxies(world, line),
        0 <= i < line.len(),
        walk(world, line.last(), Some(focus_proxy()), fuel) is Some,
    ensures
        walk(world, line[i], Some(focus_proxy()), (fuel + line.len() - 1 - i) as nat) is Some,
        walk(world, line[i], Some(focus_proxy()), (fuel + line.len() - 1 - i) as nat).unwrap().name
            == walk(world, line.last(), Some(focus_proxy()), fuel).unwrap().name,
    decreases line.len() - i,
{
    if i < line.len() - 1 {
        lemma_walk_up_the_line(world, line, i + 1, fuel);
        assert(world.parent_of(line[i + 1 - 1]) == Some(line[i + 1]));
    }
}

/// What `current_application` finds above a line of proxies is what the
/// walk from the last of them finds.
proof fn lemma_line_run(
    connected: bool,
    world: World,
    line: Seq<u64>,
    fuel: nat,
    budget: nat,
)
    requires
        connects(connected, world),
        proxies(world, line),
        walk(world, line.last(), Some(focus_proxy()), fuel) is Some,
        budget >= 2 * (fuel + line.len()) + 6,
    ensures
        ({
            let (client, action) = begin(connected, Goal::CurrentApplication);
            drive(client, action, world, budget).outcome == Some(
                OutcomeView::Application(
                    walk(world, line.last(), Some(focus_proxy()), fuel).unwrap().name,
                ),
            )
        }),
{
    let whole = (fuel + line.len() - 1) as nat;
    lemma_walk_up_the_line(world, line, 0, fuel);
    assert(walk(world, world.focus, None, whole) == walk(
        world,
        world.focus,
        Some(focus_proxy()),
        whole,
    ));
    lemma_walk_length(world, world.focus, None, whole);
    lemma_application_run(connected, world, whole, budget);
}

/// Proxies are passed over: where the parent of the last in a line of
/// proxies has a class name other than the proxy's, that name is found.
pub proof fn lemma_proxies_passed_over(
    connected: bool,
    world: World,
    line: Seq<u64>,
    top: u64,
    name: Seq<char>,
    budget: nat,
)
    requires
        connects(connected, world),
        proxies(world, line),
        world.parent_of(line.last()) == Some(top),
        top != NO_WINDOW,
        world.class_of(top) == Some(name),
        name != focus_proxy(),
        budget >= 2 * line.len() + 8,
    ensures
        ({
            let (client, action) = begin(connected, Goal::CurrentApplication);
            drive(client, action, world, budget).outcome == Some(
                OutcomeView::Application(Some(name)),
            )
        }),
{
    assert(walk(world, top, Some(focus_proxy()), 0) is Some);
    lemma_line_run(connected, world, line, 1, budget);
}

/// Above the root the walk is given up: where the parent of the last in a
/// line of proxies is the sentinel, no name is found.
pub proof fn lemma_given_up_above_root(
    connected: bool,
    world: World,
    line: Seq<u64>,
    budget: nat,
)
    requires
        connects(connected, world),
        proxies(world, line),
        world.parent_of(line.last()) == Some(NO_WINDOW),
        budget >= 2 * line.len() + 6,
    ensures
        ({
            let (client, action) = begin(connected, Goal::CurrentApplication);
            drive(client, action, world, budget).outcome == Some(OutcomeView::Application(None))
        }),
{
    lemma_line_run(connected, world, line, 0, budget);
}

/// The last candidate is kept: where the server cannot tell the parent of
/// the last in a line of proxies, the class name seen last is found, and
/// that is the proxy's own.
pub proof fn lemma_last_candidate_kept(
    connected: bool,
    world: World,
    line: Seq<u64>,
    budget: nat,
)
    requires
        connects(connected, world),
        proxies(world, line),
        world.parent_of(line.last()) is None,
        budget >= 2 * line.len() + 6,
    ensures
        ({
            let (client, action) = begin(connected, Goal::CurrentApplication);
            drive(client, action, world, budget).outcome == Some(
                OutcomeView::Application(Some(focus_proxy())),
            )
        }),
{
    lemma_line_run(connected, world, line, 0, budget);
}

/// `current_application` ends: where every window lies higher than its
/// parent, a budget of two requests for each step of the focused window's
/// height, and eight more, brings the operation to its end.
pub proof fn lemma_application_ends(
    connected: bool,
    world: World,
    height: spec_fn(u64) -> nat,
    budget: nat,
)
    requires
        forall|below: u64|
            world.parents.dom().contains(below) && world.parents[below] != NO_WINDOW ==> height(
                #[trigger] world.parents[below],
            ) < height(below),
        budget >= 2 * height(world.focus) + 8,
    ensures
        ({
            let (client, action) = begin(connected, Goal::CurrentApplication);
            let run = drive(client, action, world, budget);
            &&& run.outcome is Some
            &&& run.outcome.unwrap() is Application
            &&& run.client.stage is Idle
        }),
{
    lemma_walk_ends(world, height, world.focus, None);
    lemma_walk_length(world, world.focus, None, height(world.focus));
    lemma_application_run(connected, world, height(world.focus), budget);
}

} // verus!
