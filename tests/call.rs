use tool_call_ui::call::{
    CallAction, CallNotifier, Caller, IncomingCall, IncomingCallNotification, JoinProject,
    WindowAction,
};

fn call_from(id: u64, login: &str, project: Option<u64>) -> IncomingCall {
    IncomingCall {
        caller: Caller { id, github_login: login.to_string(), avatar: None },
        initial_project_id: project,
    }
}

#[test]
fn second_call_replaces_first_window() {
    let mut notifier = CallNotifier::new();
    let actions = notifier.on_incoming_call(Some(call_from(1, "u", Some(7))));
    assert_eq!(actions.len(), 1);
    match &actions[0] {
        WindowAction::Open { call } => assert_eq!(call.caller.github_login, "u"),
        other => panic!("unexpected action {:?}", other),
    }
    notifier.on_window_opened(10);
    let actions = notifier.on_incoming_call(Some(call_from(2, "v", None)));
    assert_eq!(actions.len(), 2);
    assert!(matches!(actions[0], WindowAction::Close { window: 10 }));
    match &actions[1] {
        WindowAction::Open { call } => assert_eq!(call.caller.id, 2),
        other => panic!("unexpected action {:?}", other),
    }
    notifier.on_window_opened(11);
    assert_eq!(notifier.window, Some(11));
}

#[test]
fn call_ending_closes_window() {
    let mut notifier = CallNotifier::new();
    assert!(notifier.on_incoming_call(None).is_empty());
    notifier.on_incoming_call(Some(call_from(1, "u", None)));
    notifier.on_window_opened(3);
    let actions = notifier.on_incoming_call(None);
    assert_eq!(actions.len(), 1);
    assert!(matches!(actions[0], WindowAction::Close { window: 3 }));
    assert_eq!(notifier.window, None);
}

#[test]
fn window_closed_by_answer_is_forgotten() {
    let mut notifier = CallNotifier::new();
    notifier.on_incoming_call(Some(call_from(1, "u", None)));
    notifier.on_window_opened(4);
    notifier.on_window_closed(5);
    assert_eq!(notifier.window, Some(4));
    notifier.on_window_closed(4);
    assert_eq!(notifier.window, None);
    assert!(notifier.on_incoming_call(None).is_empty());
}

#[test]
fn accept_joins_then_follows_into_project() {
    let n = IncomingCallNotification::new(call_from(42, "u", Some(7)));
    assert_eq!(n.respond_to_call(true), vec![CallAction::JoinCall, CallAction::CloseWindow]);
    assert_eq!(
        n.join_finished(true),
        Some(JoinProject { project_id: 7, follow_user_id: 42 })
    );
    assert_eq!(n.join_finished(false), None);
}

#[test]
fn accept_without_project_only_joins() {
    let n = IncomingCallNotification::new(call_from(42, "u", None));
    assert_eq!(n.join_finished(true), None);
}

#[test]
fn decline_declines_and_closes() {
    let n = IncomingCallNotification::new(call_from(5, "v", Some(9)));
    assert_eq!(n.respond_to_call(false), vec![CallAction::DeclineCall, CallAction::CloseWindow]);
}
