//! The client as a state machine: what it holds, and what it asks for next
//! when it is told what came of its last request.

use crate::protocol::{
    default_display, focus_proxy, ActionView, ConnectionError, EventView, NoticeView, OutcomeView,
    NO_WINDOW,
};
use vstd::prelude::*;

verus! {

/// The operation that a client is carrying out, or carried out last.
#[derive(Clone, Copy, Debug, PartialEq, Eq, Structural)]
pub enum Goal {
    /// Hold a connection to the display.
    Connect,
    /// Tell whether a connection is held and a window has the focus.
    Supported,
    /// Name the application that has the focus.
    CurrentApplication,
}

/// How far the operation has come: the request that is still unanswered.
pub enum StageView {
    /// No operation is under way.
    Idle,
    /// The display that the environment names was asked for.
    ReadingDisplay,
    /// The notice that the default display is taken is being printed.
    NotingDefault,
    /// The default display is being written into the environment.
    SettingDisplay,
    /// The display `endpoint` is being opened.
    Opening { endpoint: Seq<char> },
    /// The notice of the failed connection is being printed.
    NotingFailure,
    /// The focus was asked for, to tell whether any window has it.
    CheckingFocus,
    /// The focus was asked for again, as the window to start from.
    ReadingFocus,
    /// The class hint of `window` was asked for; `candidate` is the class
    /// name last seen on the way up to it.
    ReadingClassHint { window: u64, candidate: Option<Seq<char>> },
    /// The parent of `window` was asked for; `candidate` is the class name
    /// last seen on the way up to it.
    ReadingParent { window: u64, candidate: Option<Seq<char>> },
}

/// All that a client holds.
pub struct ClientState {
    /// Whether a connection to the display is held.
    pub connected: bool,
    pub goal: Goal,
    pub stage: StageView,
}

/// What `connect` reports of a client.
pub open spec fn connection(connected: bool) -> Result<(), ConnectionError> {
    if connected {
        Ok(())
    } else {
        Err(ConnectionError::Unavailable)
    }
}

/// What each operation reports when no connection can be had.
pub open spec fn unavailable(goal: Goal) -> OutcomeView {
    match goal {
        Goal::Connect => OutcomeView::Connection(Err(ConnectionError::Unavailable)),
        Goal::Supported => OutcomeView::Supported(false),
        Goal::CurrentApplication => OutcomeView::Application(None),
    }
}

/// The operation ends with `outcome`.
pub open spec fn finish(connected: bool, goal: Goal, outcome: OutcomeView) -> (
    ClientState,
    ActionView,
) {
    (ClientState { connected, goal, stage: StageView::Idle }, ActionView::Done(outcome))
}

/// What follows once a connection is held: `connect` has ended, the other
/// two ask for the focus.
pub open spec fn connected_next(goal: Goal) -> (ClientState, ActionView) {
    match goal {
        Goal::Connect => finish(true, goal, OutcomeView::Connection(Ok(()))),
        _ => (
            ClientState { connected: true, goal, stage: StageView::CheckingFocus },
            ActionView::QueryFocus,
        ),
    }
}

/// The start of an operation. A client that holds a connection opens no
/// other; one that holds none first reads the display to go to.
pub open spec fn begin(connected: bool, goal: Goal) -> (ClientState, ActionView) {
    if connected {
        connected_next(goal)
    } else {
        (
            ClientState { connected: false, goal, stage: StageView::ReadingDisplay },
            ActionView::ReadDisplay,
        )
    }
}

/// The candidate after a window's class hint was read: the class name in the
/// hint where it has one, else the candidate as it was.
pub open spec fn recorded(candidate: Option<Seq<char>>, class: Option<Seq<char>>) -> Option<
    Seq<char>,
> {
    match class {
        Some(name) => Some(name),
        None => candidate,
    }
}

/// The walk comes to `window`: the sentinel is never asked for its class
/// hint, so there the walk ends without a name.
pub open spec fn visit(state: ClientState, window: u64, candidate: Option<Seq<char>>) -> (
    ClientState,
    ActionView,
) {
    if window == NO_WINDOW {
        finish(state.connected, state.goal, OutcomeView::Application(None))
    } else {
        (
            ClientState { stage: StageView::ReadingClassHint { window, candidate }, ..state },
            ActionView::QueryClassHint(window),
        )
    }
}

/// The client's next state and request when `event` answers the request it
/// made last; nothing where `event` is no answer to that request.
pub open spec fn step(state: ClientState, event: EventView) -> Option<(ClientState, ActionView)> {
    let goal = state.goal;
    match (state.stage, event) {
        (StageView::ReadingDisplay, EventView::Display(Some(endpoint))) => Some(
            (
                ClientState { stage: StageView::Opening { endpoint }, ..state },
                ActionView::OpenDisplay(endpoint),
            ),
        ),
        (StageView::ReadingDisplay, EventView::Display(None)) => Some(
            (
                ClientState { stage: StageView::NotingDefault, ..state },
                ActionView::Notify(NoticeView::DefaultDisplay),
            ),
        ),
        (StageView::NotingDefault, EventView::Acknowledged) => Some(
            (
                ClientState { stage: StageView::SettingDisplay, ..state },
                ActionView::SetDisplay(default_display()),
            ),
        ),
        (StageView::SettingDisplay, EventView::Acknowledged) => Some(
            (
                ClientState { stage: StageView::Opening { endpoint: default_display() }, ..state },
                ActionView::OpenDisplay(default_display()),
            ),
        ),
        (StageView::Opening { endpoint }, EventView::Opened(true)) => Some(connected_next(goal)),
        (StageView::Opening { endpoint }, EventView::Opened(false)) => Some(
            (
                ClientState { stage: StageView::NotingFailure, ..state },
                ActionView::Notify(NoticeView::ConnectionFailed { endpoint }),
            ),
        ),
        (StageView::NotingFailure, EventView::Acknowledged) => Some(
            finish(state.connected, goal, unavailable(goal)),
        ),
        (StageView::CheckingFocus, EventView::Focus(window)) => Some(
            match goal {
                Goal::Connect => finish(
                    state.connected,
                    goal,
                    OutcomeView::Connection(connection(state.connected)),
                ),
                Goal::Supported => finish(
                    state.connected,
                    goal,
                    OutcomeView::Supported(window != NO_WINDOW),
                ),
                Goal::CurrentApplication => if window == NO_WINDOW {
                    finish(state.connected, goal, OutcomeView::Application(None))
                } else {
                    (
                        ClientState { stage: StageView::ReadingFocus, ..state },
                        ActionView::QueryFocus,
                    )
                },
            },
        ),
        (StageView::ReadingFocus, EventView::Focus(window)) => Some(visit(state, window, None)),
        (StageView::ReadingClassHint { window, candidate }, EventView::ClassHint(class)) => {
            let name = recorded(candidate, class);
            if name == Some(focus_proxy()) {
                Some(
                    (
                        ClientState {
                            stage: StageView::ReadingParent { window, candidate: name },
                            ..state
                        },
                        ActionView::QueryParent(window),
                    ),
                )
            } else {
                Some(finish(state.connected, goal, OutcomeView::Application(name)))
            }
        },
        (StageView::ReadingParent { window, candidate }, EventView::Parent(None)) => Some(
            finish(state.connected, goal, OutcomeView::Application(candidate)),
        ),
        (StageView::ReadingParent { window, candidate }, EventView::Parent(Some(parent))) => Some(
            visit(state, parent, candidate),
        ),
        _ => None,
    }
}

/// Whether `event` is an answer to the request that is open at `stage`.
pub open spec fn answers(stage: StageView, event: EventView) -> bool {
    match stage {
        StageView::Idle => false,
        StageView::ReadingDisplay => event is Display,
        StageView::NotingDefault | StageView::SettingDisplay | StageView::NotingFailure => event
             is Acknowledged,
        StageView::Opening { .. } => event is Opened,
        StageView::CheckingFocus | StageView::ReadingFocus => event is Focus,
        StageView::ReadingClassHint { .. } => event is ClassHint,
        StageView::ReadingParent { .. } => event is Parent,
    }
}

/// Whether `action` is the request that is open at `stage`, or the end of
/// the operation where none is open.
pub open spec fn awaits(stage: StageView, action: ActionView) -> bool {
    match action {
        ActionView::ReadDisplay => stage is ReadingDisplay,
        ActionView::Notify(NoticeView::DefaultDisplay) => stage is NotingDefault,
        ActionView::Notify(NoticeView::ConnectionFailed { .. }) => stage is NotingFailure,
        ActionView::SetDisplay(_) => stage is SettingDisplay,
        ActionView::OpenDisplay(endpoint) => stage == (StageView::Opening { endpoint }),
        ActionView::QueryFocus => stage is CheckingFocus || stage is ReadingFocus,
        ActionView::QueryClassHint(window) => stage is ReadingClassHint
            && stage->ReadingClassHint_window == window,
        ActionView::QueryParent(window) => stage is ReadingParent && stage->ReadingParent_window
            == window,
        ActionView::Done(_) => stage is Idle,
    }
}

/// Whether `event` is of the kind that `action` is answered by.
pub open spec fn replies(action: ActionView, event: EventView) -> bool {
    match action {
        ActionView::ReadDisplay => event is Display,
        ActionView::Notify(_) | ActionView::SetDisplay(_) => event is Acknowledged,
        ActionView::OpenDisplay(_) => event is Opened,
        ActionView::QueryFocus => event is Focus,
        ActionView::QueryClassHint(_) => event is ClassHint,
        ActionView::QueryParent(_) => event is Parent,
        ActionView::Done(_) => false,
    }
}

impl ClientState {
    /// What holds of a client whatever it was told: an attempt to connect
    /// is made only without a connection, windows are asked about only with
    /// one, the walk belongs to `current_application`, the window whose
    /// class hint is open is not the sentinel, and the walk goes up only
    /// while the candidate is the proxy's name.
    pub open spec fn inv(self) -> bool {
        match self.stage {
            StageView::Idle => true,
            StageView::ReadingDisplay
            | StageView::NotingDefault
            | StageView::SettingDisplay
            | StageView::Opening { .. }
            | StageView::NotingFailure => !self.connected,
            StageView::CheckingFocus => self.connected && self.goal != Goal::Connect,
            StageView::ReadingFocus => self.connected && self.goal == Goal::CurrentApplication,
            StageView::ReadingClassHint { window, candidate } => {
                &&& self.connected
                &&& self.goal == Goal::CurrentApplication
                &&& window != NO_WINDOW
                &&& (candidate is None || candidate == Some(focus_proxy()))
            },
            StageView::ReadingParent { window, candidate } => {
                &&& self.connected
                &&& self.goal == Goal::CurrentApplication
                &&& window != NO_WINDOW
                &&& candidate == Some(focus_proxy())
            },
        }
    }
}

/// An event is taken where it answers the open request, and nowhere else.
pub proof fn lemma_step_takes_answers(state: ClientState, event: EventView)
    ensures
        step(state, event) is Some <==> answers(state.stage, event),
{
}

/// The client keeps in mind what it asked: the request that it hands out is
/// the one that is open in its new state, at the start of an operation and
/// after every answer.
pub proof fn lemma_request_open(state: ClientState, goal: Goal, event: EventView)
    ensures
        awaits(begin(state.connected, goal).0.stage, begin(state.connected, goal).1),
        step(state, event) is Some ==> awaits(
            step(state, event).unwrap().0.stage,
            step(state, event).unwrap().1,
        ),
{
}

/// An answer of the kind that the open request asks for is taken.
pub proof fn lemma_reply_taken(state: ClientState, action: ActionView, event: EventView)
    requires
        awaits(state.stage, action),
        replies(action, event),
    ensures
        step(state, event) is Some,
{
}

/// Every operation starts in a state that meets the invariant, and every
/// answer leads from such a state to such a state.
pub proof fn lemma_inv_kept(state: ClientState, goal: Goal, event: EventView)
    ensures
        begin(state.connected, goal).0.inv(),
        state.inv() && step(state, event) is Some ==> step(state, event).unwrap().0.inv(),
{
}

/// The sentinel is never asked for its class hint: no operation starts with
/// such a request, and no answer of any kind leads to one.
pub proof fn lemma_sentinel_spared(state: ClientState, goal: Goal, event: EventView)
    ensures
        begin(state.connected, goal).1 != ActionView::QueryClassHint(NO_WINDOW),
        step(state, event) is Some ==> step(state, event).unwrap().1 != ActionView::QueryClassHint(
            NO_WINDOW,
        ),
{
}

} // verus!
