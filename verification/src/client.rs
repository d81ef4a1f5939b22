//! The client that runs: it keeps the state and hands out the requests.

use crate::machine::{
    answers, begin, lemma_inv_kept, lemma_sentinel_spared, lemma_step_takes_answers, step,
    ClientState, Goal, StageView,
};
use crate::protocol::{
    default_display_name, focus_proxy_name, Action, ActionView, ConnectionError, Event, Notice,
    Outcome, OutcomeView, NO_WINDOW,
};
use vstd::prelude::*;

verus! {

/// A [`StageView`] with its strings.
#[derive(Debug)]
enum Stage {
    Idle,
    ReadingDisplay,
    NotingDefault,
    SettingDisplay,
    Opening { endpoint: String },
    NotingFailure,
    CheckingFocus,
    ReadingFocus,
    ReadingClassHint { window: u64, candidate: Option<String> },
    ReadingParent { window: u64, candidate: Option<String> },
}

impl View for Stage {
    type V = StageView;

    closed spec fn view(&self) -> StageView {
        match self {
            Stage::Idle => StageView::Idle,
            Stage::ReadingDisplay => StageView::ReadingDisplay,
            Stage::NotingDefault => StageView::NotingDefault,
            Stage::SettingDisplay => StageView::SettingDisplay,
            Stage::Opening { endpoint } => StageView::Opening { endpoint: endpoint@ },
            Stage::NotingFailure => StageView::NotingFailure,
            Stage::CheckingFocus => StageView::CheckingFocus,
            Stage::ReadingFocus => StageView::ReadingFocus,
            Stage::ReadingClassHint { window, candidate } => StageView::ReadingClassHint {
                window: *window,
                candidate: candidate.deep_view(),
            },
            Stage::ReadingParent { window, candidate } => StageView::ReadingParent {
                window: *window,
                candidate: candidate.deep_view(),
            },
        }
    }
}

/// An event that was no answer to the client's last request.
#[derive(Debug, PartialEq, Eq)]
pub struct Rejected {
    pub event: Event,
}

impl Clone for Rejected {
    fn clone(&self) -> (copy: Rejected)
        ensures
            copy.event@ == self.event@,
    {
        Rejected { event: self.event.clone() }
    }
}

/// A client of an X11 display. It holds whether a connection was made, and
/// how far the operation that is under way has come.
#[derive(Debug)]
pub struct X11Client {
    connected: bool,
    goal: Goal,
    stage: Stage,
}

impl View for X11Client {
    type V = ClientState;

    closed spec fn view(&self) -> ClientState {
        ClientState { connected: self.connected, goal: self.goal, stage: self.stage@ }
    }
}

/// The state of a client that has done nothing yet.
pub open spec fn fresh() -> ClientState {
    ClientState { connected: false, goal: Goal::Connect, stage: StageView::Idle }
}

impl X11Client {
    /// A client that holds no connection.
    pub fn new() -> (client: X11Client)
        ensures
            client@ == fresh(),
            client@.inv(),
    {
        X11Client { connected: false, goal: Goal::Connect, stage: Stage::Idle }
    }

    /// Whether a connection to the display is held.
    pub fn is_connected(&self) -> (held: bool)
        ensures
            held == self@.connected,
    {
        self.connected
    }

    /// Whether no operation is under way.
    pub fn is_idle(&self) -> (idle: bool)
        ensures
            idle == (self@.stage is Idle),
    {
        match self.stage {
            Stage::Idle => true,
            _ => false,
        }
    }

    /// The operation ends with `outcome`.
    fn finish(&mut self, outcome: Outcome) -> (action: Action)
        ensures
            (final(self)@, action@) == crate::machine::finish(
                old(self)@.connected,
                old(self)@.goal,
                outcome@,
            ),
    {
        self.stage = Stage::Idle;
        Action::Done(outcome)
    }

    /// What each operation reports when it cannot go on.
    fn unavailable(&self) -> (outcome: Outcome)
        ensures
            outcome@ == crate::machine::unavailable(self@.goal),
    {
        match self.goal {
            Goal::Connect => Outcome::Connection(Err(ConnectionError::Unavailable)),
            Goal::Supported => Outcome::Supported(false),
            Goal::CurrentApplication => Outcome::Application(None),
        }
    }

    /// A connection is held from here on.
    fn connected_next(&mut self) -> (action: Action)
        ensures
            (final(self)@, action@) == crate::machine::connected_next(old(self)@.goal),
    {
        self.connected = true;
        match self.goal {
            Goal::Connect => self.finish(Outcome::Connection(Ok(()))),
            _ => {
                self.stage = Stage::CheckingFocus;
                Action::QueryFocus
            },
        }
    }

    /// Starts the operation `goal`, whatever was under way.
    fn start(&mut self, goal: Goal) -> (action: Action)
        ensures
            (final(self)@, action@) == begin(old(self)@.connected, goal),
    {
        self.goal = goal;
        if self.connected {
            self.connected_next()
        } else {
            self.stage = Stage::ReadingDisplay;
            Action::ReadDisplay
        }
    }

    /// The walk comes to `window`.
    fn visit(&mut self, window: u64, candidate: Option<String>) -> (action: Action)
        ensures
            (final(self)@, action@) == crate::machine::visit(
                old(self)@,
                window,
                candidate.deep_view(),
            ),
    {
        if window == NO_WINDOW {
            self.finish(Outcome::Application(None))
        } else {
            self.stage = Stage::ReadingClassHint { window, candidate };
            Action::QueryClassHint(window)
        }
    }

    /// Starts to make sure that a connection is held. A client that holds
    /// one is done at once and asks for nothing; one that holds none asks
    /// for the display that the environment names.
    pub fn connect(&mut self) -> (action: Action)
        ensures
            (final(self)@, action@) == begin(old(self)@.connected, Goal::Connect),
            old(self)@.connected ==> action@ == ActionView::Done(OutcomeView::Connection(Ok(())))
                && final(self)@.connected,
            final(self)@.inv(),
    {
        self.start(Goal::Connect)
    }

    /// Starts to find out whether a connection can be had and a window has
    /// the focus.
    pub fn supported(&mut self) -> (action: Action)
        ensures
            (final(self)@, action@) == begin(old(self)@.connected, Goal::Supported),
            final(self)@.inv(),
    {
        self.start(Goal::Supported)
    }

    /// Starts to find the class name of the application that has the focus.
    pub fn current_application(&mut self) -> (action: Action)
        ensures
            (final(self)@, action@) == begin(old(self)@.connected, Goal::CurrentApplication),
            final(self)@.inv(),
    {
        self.start(Goal::CurrentApplication)
    }

    /// Takes what came of the last request and hands out the next one.
    ///
    /// Where `event` answers the request that is open, the client moves on
    /// as [`step`] says. Where it does not, the event comes back and the
    /// client stays as it was.
    pub fn advance(&mut self, event: Event) -> (result: Result<Action, Rejected>)
        ensures
            match step(old(self)@, event@) {
                Some((state, action)) => {
                    &&& result matches Ok(next)
                    &&& next@ == action
                    &&& final(self)@ == state
                },
                None => {
                    &&& result matches Err(rejected)
                    &&& rejected.event@ == event@
                    &&& final(self)@ == old(self)@
                },
            },
            result is Ok <==> answers(old(self)@.stage, event@),
            result matches Ok(Action::QueryClassHint(window)) ==> window != NO_WINDOW,
            old(self)@.inv() ==> final(self)@.inv(),
    {
        proof {
            lemma_step_takes_answers(old(self)@, event@);
            lemma_inv_kept(old(self)@, old(self)@.goal, event@);
            lemma_sentinel_spared(old(self)@, old(self)@.goal, event@);
        }
        let mut stage = Stage::Idle;
        core::mem::swap(&mut self.stage, &mut stage);
        match (stage, event) {
            (Stage::ReadingDisplay, Event::Display(Some(endpoint))) => {
                let target = endpoint.clone();
                self.stage = Stage::Opening { endpoint };
                Ok(Action::OpenDisplay(target))
            },
            (Stage::ReadingDisplay, Event::Display(None)) => {
                self.stage = Stage::NotingDefault;
                Ok(Action::Notify(Notice::DefaultDisplay))
            },
            (Stage::NotingDefault, Event::Acknowledged) => {
                self.stage = Stage::SettingDisplay;
                Ok(Action::SetDisplay(default_display_name()))
            },
            (Stage::SettingDisplay, Event::Acknowledged) => {
                self.stage = Stage::Opening { endpoint: default_display_name() };
                Ok(Action::OpenDisplay(default_display_name()))
            },
            (Stage::Opening { endpoint }, Event::Opened(true)) => Ok(self.connected_next()),
            (Stage::Opening { endpoint }, Event::Opened(false)) => {
                self.stage = Stage::NotingFailure;
                Ok(Action::Notify(Notice::ConnectionFailed { endpoint }))
            },
            (Stage::NotingFailure, Event::Acknowledged) => {
                let outcome = self.unavailable();
                Ok(self.finish(outcome))
            },
            (Stage::CheckingFocus, Event::Focus(window)) => {
                match self.goal {
                    Goal::Connect => {
                        let held = if self.connected {
                            Ok(())
                        } else {
                            Err(ConnectionError::Unavailable)
                        };
                        Ok(self.finish(Outcome::Connection(held)))
                    },
                    Goal::Supported => Ok(self.finish(Outcome::Supported(window != NO_WINDOW))),
                    Goal::CurrentApplication => {
                        if window == NO_WINDOW {
                            Ok(self.finish(Outcome::Application(None)))
                        } else {
                            self.stage = Stage::ReadingFocus;
                            Ok(Action::QueryFocus)
                        }
                    },
                }
            },
            (Stage::ReadingFocus, Event::Focus(window)) => Ok(self.visit(window, None)),
            (Stage::ReadingClassHint { window, candidate }, Event::ClassHint(class)) => {
                let name = match class {
                    Some(found) => Some(found),
                    None => candidate,
                };
                let proxy = focus_proxy_name();
                let climb = match &name {
                    Some(found) => *found == proxy,
                    None => false,
                };
                if climb {
                    self.stage = Stage::ReadingParent { window, candidate: name };
                    Ok(Action::QueryParent(window))
                } else {
                    Ok(self.finish(Outcome::Application(name)))
                }
            },
            (Stage::ReadingParent { window, candidate }, Event::Parent(None)) => {
                Ok(self.finish(Outcome::Application(candidate)))
            },
            (Stage::ReadingParent { window, candidate }, Event::Parent(Some(parent))) => {
                Ok(self.visit(parent, candidate))
            },
            (stage, event) => {
                self.stage = stage;
                Err(Rejected { event })
            },
        }
    }
}

} // verus!
