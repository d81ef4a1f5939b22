use x11_focus::client::{Rejected, X11Client};
use x11_focus::machine::Goal;
use x11_focus::protocol::{
    default_display_name, focus_proxy_name, Action, ConnectionError, Event, Notice, Outcome,
    NO_WINDOW,
};

fn connected_client() -> X11Client {
    let mut client = X11Client::new();
    assert_eq!(client.connect(), Action::ReadDisplay);
    assert_eq!(
        client.advance(Event::Display(Some(":0".to_string()))),
        Ok(Action::OpenDisplay(":0".to_string()))
    );
    assert_eq!(client.advance(Event::Opened(true)), Ok(Action::Done(Outcome::Connection(Ok(())))));
    client
}

#[test]
fn names() {
    assert_eq!(default_display_name(), ":0");
    assert_eq!(focus_proxy_name(), "FocusProxy");
    assert_eq!(NO_WINDOW, 0);
}

#[test]
fn notice_of_the_default_display() {
    assert_eq!(Notice::DefaultDisplay.text(), "$DISPLAY is not set. Defaulting to DISPLAY=:0");
}

#[test]
fn notice_of_a_failed_connection() {
    let notice = Notice::ConnectionFailed { endpoint: "host:2.1".to_string() };
    assert_eq!(
        notice.text(),
        "warning: Failed to connect to X11.\n\
         If you saw \"No protocol specified\", try running `xhost +SI:localuser:root`.\n\
         If not, make sure `echo $DISPLAY` outputs the display that was tried (host:2.1)."
    );
    let notice = Notice::ConnectionFailed { endpoint: String::new() };
    assert!(notice.text().ends_with("that was tried ()."));
}

#[test]
fn class_hint_reply_takes_the_class_on_success_only() {
    assert_eq!(
        Event::class_hint_reply(1, Some("Firefox".to_string())),
        Event::ClassHint(Some("Firefox".to_string()))
    );
    assert_eq!(Event::class_hint_reply(1, None), Event::ClassHint(None));
    assert_eq!(Event::class_hint_reply(0, Some("Firefox".to_string())), Event::ClassHint(None));
    assert_eq!(Event::class_hint_reply(0, None), Event::ClassHint(None));
    assert_eq!(Event::class_hint_reply(2, Some("Firefox".to_string())), Event::ClassHint(None));
    assert_eq!(Event::class_hint_reply(-1, Some("Firefox".to_string())), Event::ClassHint(None));
}

#[test]
fn tree_reply_takes_the_parent_unless_the_query_failed() {
    assert_eq!(Event::tree_reply(1, 42), Event::Parent(Some(42)));
    assert_eq!(Event::tree_reply(1, 0), Event::Parent(Some(0)));
    assert_eq!(Event::tree_reply(0, 42), Event::Parent(None));
    assert_eq!(Event::tree_reply(0, 0), Event::Parent(None));
    assert_eq!(Event::tree_reply(7, 42), Event::Parent(Some(42)));
    assert_eq!(Event::tree_reply(-1, 42), Event::Parent(Some(42)));
}

#[test]
fn a_new_client_is_idle_and_unconnected() {
    let client = X11Client::new();
    assert!(client.is_idle());
    assert!(!client.is_connected());
}

#[test]
fn an_idle_client_takes_no_event() {
    let mut client = X11Client::new();
    let events = vec![
        Event::Display(None),
        Event::Acknowledged,
        Event::Opened(true),
        Event::Focus(1),
        Event::ClassHint(None),
        Event::Parent(None),
    ];
    for event in events {
        let result = client.advance(event);
        assert!(result.is_err());
        assert!(client.is_idle());
        assert!(!client.is_connected());
    }
}

#[test]
fn a_wrong_answer_comes_back_and_changes_nothing() {
    let mut client = connected_client();
    assert_eq!(client.current_application(), Action::QueryFocus);
    assert_eq!(client.advance(Event::Focus(3)), Ok(Action::QueryFocus));
    assert_eq!(client.advance(Event::Focus(3)), Ok(Action::QueryClassHint(3)));

    assert_eq!(
        client.advance(Event::Parent(Some(9))),
        Err(Rejected { event: Event::Parent(Some(9)) })
    );
    assert_eq!(client.advance(Event::Focus(4)), Err(Rejected { event: Event::Focus(4) }));
    assert_eq!(client.advance(Event::Opened(false)), Err(Rejected { event: Event::Opened(false) }));
    assert_eq!(client.advance(Event::Acknowledged), Err(Rejected { event: Event::Acknowledged }));
    assert_eq!(
        client.advance(Event::Display(Some("x".to_string()))),
        Err(Rejected { event: Event::Display(Some("x".to_string())) })
    );
    assert!(!client.is_idle());
    assert!(client.is_connected());

    assert_eq!(
        client.advance(Event::ClassHint(Some("FocusProxy".to_string()))),
        Ok(Action::QueryParent(3))
    );
    assert_eq!(
        client.advance(Event::ClassHint(Some("Slack".to_string()))),
        Err(Rejected { event: Event::ClassHint(Some("Slack".to_string())) })
    );
    assert_eq!(client.advance(Event::Parent(Some(8))), Ok(Action::QueryClassHint(8)));
    assert_eq!(
        client.advance(Event::ClassHint(Some("Slack".to_string()))),
        Ok(Action::Done(Outcome::Application(Some("Slack".to_string()))))
    );
    assert!(client.is_idle());
}

#[test]
fn each_step_of_an_attempt_to_connect() {
    let mut client = X11Client::new();
    assert_eq!(client.supported(), Action::ReadDisplay);
    assert!(!client.is_idle());
    assert_eq!(client.advance(Event::Display(None)), Ok(Action::Notify(Notice::DefaultDisplay)));
    assert_eq!(client.advance(Event::Acknowledged), Ok(Action::SetDisplay(":0".to_string())));
    assert_eq!(client.advance(Event::Acknowledged), Ok(Action::OpenDisplay(":0".to_string())));
    assert!(!client.is_connected());
    assert_eq!(
        client.advance(Event::Opened(false)),
        Ok(Action::Notify(Notice::ConnectionFailed { endpoint: ":0".to_string() }))
    );
    assert!(!client.is_connected());
    assert_eq!(client.advance(Event::Acknowledged), Ok(Action::Done(Outcome::Supported(false))));
    assert!(client.is_idle());
    assert!(!client.is_connected());
}

#[test]
fn a_failed_attempt_ends_each_operation_in_its_own_way() {
    let goals = vec![
        (Goal::Connect, Outcome::Connection(Err(ConnectionError::Unavailable))),
        (Goal::Supported, Outcome::Supported(false)),
        (Goal::CurrentApplication, Outcome::Application(None)),
    ];
    for (goal, outcome) in goals {
        let mut client = X11Client::new();
        let first = match goal {
            Goal::Connect => client.connect(),
            Goal::Supported => client.supported(),
            Goal::CurrentApplication => client.current_application(),
        };
        assert_eq!(first, Action::ReadDisplay);
        assert_eq!(
            client.advance(Event::Display(Some(":9".to_string()))),
            Ok(Action::OpenDisplay(":9".to_string()))
        );
        assert_eq!(
            client.advance(Event::Opened(false)),
            Ok(Action::Notify(Notice::ConnectionFailed { endpoint: ":9".to_string() }))
        );
        assert_eq!(client.advance(Event::Acknowledged), Ok(Action::Done(outcome)));
    }
}

#[test]
fn a_connection_made_for_any_operation_is_held() {
    let mut client = X11Client::new();
    assert_eq!(client.current_application(), Action::ReadDisplay);
    assert_eq!(
        client.advance(Event::Display(Some(":0".to_string()))),
        Ok(Action::OpenDisplay(":0".to_string()))
    );
    assert_eq!(client.advance(Event::Opened(true)), Ok(Action::QueryFocus));
    assert!(client.is_connected());
    assert_eq!(client.advance(Event::Focus(0)), Ok(Action::Done(Outcome::Application(None))));
    assert!(client.is_connected());
    assert_eq!(client.connect(), Action::Done(Outcome::Connection(Ok(()))));
    assert_eq!(client.supported(), Action::QueryFocus);
    assert_eq!(client.advance(Event::Focus(1)), Ok(Action::Done(Outcome::Supported(true))));
}

#[test]
fn supported_tells_the_sentinel_from_a_window() {
    let mut client = connected_client();
    assert_eq!(client.supported(), Action::QueryFocus);
    assert_eq!(client.advance(Event::Focus(0)), Ok(Action::Done(Outcome::Supported(false))));
    assert_eq!(client.supported(), Action::QueryFocus);
    assert_eq!(client.advance(Event::Focus(1)), Ok(Action::Done(Outcome::Supported(true))));
    assert_eq!(client.supported(), Action::QueryFocus);
    assert_eq!(client.advance(Event::Focus(u64::MAX)), Ok(Action::Done(Outcome::Supported(true))));
}

#[test]
fn starting_anew_drops_what_was_under_way() {
    let mut client = connected_client();
    assert_eq!(client.current_application(), Action::QueryFocus);
    assert_eq!(client.advance(Event::Focus(3)), Ok(Action::QueryFocus));
    assert_eq!(client.advance(Event::Focus(3)), Ok(Action::QueryClassHint(3)));
    assert_eq!(client.supported(), Action::QueryFocus);
    assert_eq!(client.advance(Event::Focus(3)), Ok(Action::Done(Outcome::Supported(true))));
    assert!(client.is_idle());
}

#[test]
fn a_parent_of_zero_ends_the_walk_without_a_class_hint_query() {
    let mut client = connected_client();
    assert_eq!(client.current_application(), Action::QueryFocus);
    assert_eq!(client.advance(Event::Focus(3)), Ok(Action::QueryFocus));
    assert_eq!(client.advance(Event::Focus(3)), Ok(Action::QueryClassHint(3)));
    assert_eq!(
        client.advance(Event::class_hint_reply(1, Some("FocusProxy".to_string()))),
        Ok(Action::QueryParent(3))
    );
    assert_eq!(
        client.advance(Event::tree_reply(1, 0)),
        Ok(Action::Done(Outcome::Application(None)))
    );
}

#[test]
fn a_failed_tree_query_keeps_the_proxy_name() {
    let mut client = connected_client();
    assert_eq!(client.current_application(), Action::QueryFocus);
    assert_eq!(client.advance(Event::Focus(3)), Ok(Action::QueryFocus));
    assert_eq!(client.advance(Event::Focus(3)), Ok(Action::QueryClassHint(3)));
    assert_eq!(
        client.advance(Event::class_hint_reply(1, Some("FocusProxy".to_string()))),
        Ok(Action::QueryParent(3))
    );
    assert_eq!(client.advance(Event::tree_reply(1, 4)), Ok(Action::QueryClassHint(4)));
    assert_eq!(client.advance(Event::class_hint_reply(0, None)), Ok(Action::QueryParent(4)));
    assert_eq!(
        client.advance(Event::tree_reply(0, 0)),
        Ok(Action::Done(Outcome::Application(Some("FocusProxy".to_string()))))
    );
}

#[test]
fn copies_are_equal() {
    let actions = vec![
        Action::ReadDisplay,
        Action::Notify(Notice::DefaultDisplay),
        Action::Notify(Notice::ConnectionFailed { endpoint: ":4".to_string() }),
        Action::SetDisplay(":0".to_string()),
        Action::OpenDisplay(":5".to_string()),
        Action::QueryFocus,
        Action::QueryClassHint(3),
        Action::QueryParent(4),
        Action::Done(Outcome::Connection(Ok(()))),
        Action::Done(Outcome::Connection(Err(ConnectionError::Unavailable))),
        Action::Done(Outcome::Supported(true)),
        Action::Done(Outcome::Application(None)),
        Action::Done(Outcome::Application(Some("Firefox".to_string()))),
    ];
    for action in &actions {
        assert_eq!(&action.clone(), action);
    }
    let events = vec![
        Event::Display(None),
        Event::Display(Some(":1".to_string())),
        Event::Acknowledged,
        Event::Opened(true),
        Event::Focus(6),
        Event::ClassHint(None),
        Event::ClassHint(Some("Slack".to_string())),
        Event::Parent(None),
        Event::Parent(Some(0)),
    ];
    for event in &events {
        assert_eq!(&event.clone(), event);
        let rejected = Rejected { event: event.clone() };
        assert_eq!(rejected.clone(), rejected);
    }
    assert_ne!(Action::QueryClassHint(3), Action::QueryParent(3));
    assert_ne!(Event::ClassHint(None), Event::Parent(None));
}
