//! The vocabulary between the client and the program that runs it.

use vstd::prelude::*;
use vstd::string::*;

verus! {

/// The handle that stands for "no window": what the server names as the
/// focus when nothing is focused, and as the parent of the root window.
pub const NO_WINDOW: u64 = 0;

/// The display that is used when the environment names none.
pub open spec fn default_display() -> Seq<char> {
    ":0"@
}

/// The class name of the helper window that some toolkits let hold the focus
/// in place of the application's own window.
pub open spec fn focus_proxy() -> Seq<char> {
    "FocusProxy"@
}

/// [`default_display`] as a string.
pub fn default_display_name() -> (name: String)
    ensures
        name@ == default_display(),
{
    String::from_str(":0")
}

/// [`focus_proxy`] as a string.
pub fn focus_proxy_name() -> (name: String)
    ensures
        name@ == focus_proxy(),
{
    String::from_str("FocusProxy")
}

/// Something the user is told while a connection is being made.
#[derive(Debug, PartialEq, Eq)]
pub enum Notice {
    /// The environment names no display, so the default one is taken.
    DefaultDisplay,
    /// The display `endpoint` could not be opened.
    ConnectionFailed { endpoint: String },
}

/// A [`Notice`] over sequences of characters.
pub enum NoticeView {
    DefaultDisplay,
    ConnectionFailed { endpoint: Seq<char> },
}

impl View for Notice {
    type V = NoticeView;

    open spec fn view(&self) -> NoticeView {
        match self {
            Notice::DefaultDisplay => NoticeView::DefaultDisplay,
            Notice::ConnectionFailed { endpoint } => NoticeView::ConnectionFailed {
                endpoint: endpoint@,
            },
        }
    }
}

/// The words of a notice. The notice of a failed connection names the
/// display that was tried, between its last pair of brackets.
pub open spec fn notice_text(notice: NoticeView) -> Seq<char> {
    match notice {
        NoticeView::DefaultDisplay => "$DISPLAY is not set. Defaulting to DISPLAY="@
            + default_display(),
        NoticeView::ConnectionFailed { endpoint } => "warning: Failed to connect to X11.\n"@
            + "If you saw \"No protocol specified\", try running `xhost +SI:localuser:root`.\n"@
            + "If not, make sure `echo $DISPLAY` outputs the display that was tried ("@
            + endpoint + ")."@,
    }
}

impl Clone for Notice {
    fn clone(&self) -> (copy: Notice)
        ensures
            copy@ == self@,
    {
        match self {
            Notice::DefaultDisplay => Notice::DefaultDisplay,
            Notice::ConnectionFailed { endpoint } => Notice::ConnectionFailed {
                endpoint: endpoint.clone(),
            },
        }
    }
}

impl Notice {
    /// The words to print for this notice.
    pub fn text(&self) -> (words: String)
        ensures
            words@ == notice_text(self@),
    {
        match self {
            Notice::DefaultDisplay => {
                let mut words = String::from_str("$DISPLAY is not set. Defaulting to DISPLAY=");
                let name = default_display_name();
                words.append(name.as_str());
                words
            },
            Notice::ConnectionFailed { endpoint } => {
                let mut words = String::from_str("warning: Failed to connect to X11.\n");
                words.append(
                    "If you saw \"No protocol specified\", try running `xhost +SI:localuser:root`.\n",
                );
                words.append(
                    "If not, make sure `echo $DISPLAY` outputs the display that was tried (",
                );
                words.append(endpoint.as_str());
                words.append(").");
                words
            },
        }
    }
}

/// Why no connection is held.
#[derive(Clone, Copy, Debug, PartialEq, Eq, Structural)]
pub enum ConnectionError {
    /// The display could not be opened.
    Unavailable,
}

/// What an operation has found when it ends.
#[derive(Debug, PartialEq, Eq)]
pub enum Outcome {
    /// The end of `connect`: a connection is held, or why none is.
    Connection(Result<(), ConnectionError>),
    /// The end of `supported`: whether a connection is held and a window has
    /// the focus.
    Supported(bool),
    /// The end of `current_application`: the class name that names the
    /// focused application, if one was found.
    Application(Option<String>),
}

/// An [`Outcome`] over sequences of characters.
pub enum OutcomeView {
    Connection(Result<(), ConnectionError>),
    Supported(bool),
    Application(Option<Seq<char>>),
}

impl View for Outcome {
    type V = OutcomeView;

    open spec fn view(&self) -> OutcomeView {
        match self {
            Outcome::Connection(held) => OutcomeView::Connection(*held),
            Outcome::Supported(yes) => OutcomeView::Supported(*yes),
            Outcome::Application(name) => OutcomeView::Application(name.deep_view()),
        }
    }
}

impl Clone for Outcome {
    fn clone(&self) -> (copy: Outcome)
        ensures
            copy@ == self@,
    {
        match self {
            Outcome::Connection(held) => Outcome::Connection(*held),
            Outcome::Supported(yes) => Outcome::Supported(*yes),
            Outcome::Application(name) => Outcome::Application(copy_of(name)),
        }
    }
}

/// A copy of a string that may be there.
fn copy_of(text: &Option<String>) -> (copy: Option<String>)
    ensures
        copy.deep_view() == text.deep_view(),
{
    match text {
        Some(words) => Some(words.clone()),
        None => None,
    }
}

/// What the client asks the program around it to do next.
#[derive(Debug, PartialEq, Eq)]
pub enum Action {
    /// Read the display that the environment names.
    /// Answered by [`Event::Display`].
    ReadDisplay,
    /// Print the notice. Answered by [`Event::Acknowledged`].
    Notify(Notice),
    /// Write the display into the environment, for whoever reads it later.
    /// Answered by [`Event::Acknowledged`].
    SetDisplay(String),
    /// Open a connection to the display. Answered by [`Event::Opened`].
    OpenDisplay(String),
    /// Ask the server which window has the focus.
    /// Answered by [`Event::Focus`].
    QueryFocus,
    /// Ask the server for the class hint of the window.
    /// Answered by [`Event::ClassHint`].
    QueryClassHint(u64),
    /// Ask the server for the parent of the window.
    /// Answered by [`Event::Parent`].
    QueryParent(u64),
    /// Nothing more: the operation has ended.
    Done(Outcome),
}

/// An [`Action`] over sequences of characters.
pub enum ActionView {
    ReadDisplay,
    Notify(NoticeView),
    SetDisplay(Seq<char>),
    OpenDisplay(Seq<char>),
    QueryFocus,
    QueryClassHint(u64),
    QueryParent(u64),
    Done(OutcomeView),
}

impl View for Action {
    type V = ActionView;

    open spec fn view(&self) -> ActionView {
        match self {
            Action::ReadDisplay => ActionView::ReadDisplay,
            Action::Notify(notice) => ActionView::Notify(notice@),
            Action::SetDisplay(endpoint) => ActionView::SetDisplay(endpoint@),
            Action::OpenDisplay(endpoint) => ActionView::OpenDisplay(endpoint@),
            Action::QueryFocus => ActionView::QueryFocus,
            Action::QueryClassHint(window) => ActionView::QueryClassHint(*window),
            Action::QueryParent(window) => ActionView::QueryParent(*window),
            Action::Done(outcome) => ActionView::Done(outcome@),
        }
    }
}

impl Clone for Action {
    fn clone(&self) -> (copy: Action)
        ensures
            copy@ == self@,
    {
        match self {
            Action::ReadDisplay => Action::ReadDisplay,
            Action::Notify(notice) => Action::Notify(notice.clone()),
            Action::SetDisplay(endpoint) => Action::SetDisplay(endpoint.clone()),
            Action::OpenDisplay(endpoint) => Action::OpenDisplay(endpoint.clone()),
            Action::QueryFocus => Action::QueryFocus,
            Action::QueryClassHint(window) => Action::QueryClassHint(*window),
            Action::QueryParent(window) => Action::QueryParent(*window),
            Action::Done(outcome) => Action::Done(outcome.clone()),
        }
    }
}

/// What came of the last [`Action`].
#[derive(Debug, PartialEq, Eq)]
pub enum Event {
    /// The display that the environment names, if it names one.
    Display(Option<String>),
    /// The notice was printed, or the environment written.
    Acknowledged,
    /// Whether the connection was opened.
    Opened(bool),
    /// The window that has the focus, [`NO_WINDOW`] if none has.
    Focus(u64),
    /// The class name in the window's class hint, if it has one.
    ClassHint(Option<String>),
    /// The window's parent, [`NO_WINDOW`] above the root; nothing if the
    /// server could not tell.
    Parent(Option<u64>),
}

/// An [`Event`] over sequences of characters.
pub enum EventView {
    Display(Option<Seq<char>>),
    Acknowledged,
    Opened(bool),
    Focus(u64),
    ClassHint(Option<Seq<char>>),
    Parent(Option<u64>),
}

impl View for Event {
    type V = EventView;

    open spec fn view(&self) -> EventView {
        match self {
            Event::Display(endpoint) => EventView::Display(endpoint.deep_view()),
            Event::Acknowledged => EventView::Acknowledged,
            Event::Opened(held) => EventView::Opened(*held),
            Event::Focus(window) => EventView::Focus(*window),
            Event::ClassHint(class) => EventView::ClassHint(class.deep_view()),
            Event::Parent(parent) => EventView::Parent(*parent),
        }
    }
}

impl Clone for Event {
    fn clone(&self) -> (copy: Event)
        ensures
            copy@ == self@,
    {
        match self {
            Event::Display(endpoint) => Event::Display(copy_of(endpoint)),
            Event::Acknowledged => Event::Acknowledged,
            Event::Opened(held) => Event::Opened(*held),
            Event::Focus(window) => Event::Focus(*window),
            Event::ClassHint(class) => Event::ClassHint(copy_of(class)),
            Event::Parent(parent) => Event::Parent(*parent),
        }
    }
}

/// The class name that a class-hint reply carries: the reply's class string
/// where the server's status is 1 and the string is there, else none.
pub open spec fn class_in_reply(status: i32, class: Option<Seq<char>>) -> Option<Seq<char>> {
    if status == 1 {
        class
    } else {
        None
    }
}

/// The parent that a tree reply carries: none where the server's status is
/// 0, else the parent it gave.
pub open spec fn parent_in_reply(status: i32, parent: u64) -> Option<u64> {
    if status == 0 {
        None
    } else {
        Some(parent)
    }
}

impl Event {
    /// The event for the server's reply to a class-hint query: its status
    /// and the class string it filled in, if it filled one in.
    pub fn class_hint_reply(status: i32, class: Option<String>) -> (event: Event)
        ensures
            event@ == EventView::ClassHint(class_in_reply(status, class.deep_view())),
    {
        if status == 1 {
            Event::ClassHint(class)
        } else {
            Event::ClassHint(None)
        }
    }

    /// The event for the server's reply to a tree query: its status and the
    /// parent it filled in.
    pub fn tree_reply(status: i32, parent: u64) -> (event: Event)
        ensures
            event@ == EventView::Parent(parent_in_reply(status, parent)),
    {
        if status == 0 {
            Event::Parent(None)
        } else {
            Event::Parent(Some(parent))
        }
    }
}

} // verus!
