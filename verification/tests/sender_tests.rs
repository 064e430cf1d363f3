use dfwasm::sender::{
    auth_reply, client_scopes_message, has_scope, plot_size, request_scopes_message, scopes_of, send_step,
    ProtocolError, SendAction, SendEvent, SendState,
};

fn reply(s: &str) -> SendEvent {
    SendEvent::Reply(s.to_string())
}

/// Runs the send protocol on the given events and returns the actions.
fn run(events: Vec<SendEvent>, clear: bool, count: usize) -> Vec<SendAction> {
    let mut state = SendState::Start;
    let mut actions = Vec::new();
    for e in events.iter() {
        let (next, action) = send_step(state, e, clear, count);
        state = next;
        actions.push(action);
    }
    actions
}

fn sent_templates(actions: &[SendAction]) -> Vec<usize> {
    actions
        .iter()
        .filter_map(|a| match a {
            SendAction::SendTemplate(i) => Some(*i),
            _ => None,
        })
        .collect()
}

#[test]
fn scope_messages() {
    assert_eq!(request_scopes_message(&vec!["a", "b"]), "scopes a b");
    assert_eq!(request_scopes_message(&vec![]), "scopes ");
    assert_eq!(
        client_scopes_message(),
        "scopes inventory movement read_plot write_code clear_plot"
    );
}

#[test]
fn auth_and_plot_size_replies() {
    assert_eq!(auth_reply("auth"), Ok(()));
    assert_eq!(auth_reply("no"), Err(ProtocolError::RejectedAuth));
    assert_eq!(plot_size("BASIC"), Ok(51));
    assert_eq!(plot_size("LARGE"), Ok(101));
    assert_eq!(plot_size("MASSIVE"), Ok(301));
    assert_eq!(plot_size("MEGA"), Ok(1001));
    assert_eq!(plot_size("HUGE"), Err(ProtocolError::NotInDev));
}

#[test]
fn scopes_in_a_reply() {
    assert_eq!(scopes_of("  read_plot write_code "), vec!["read_plot".to_string(), "write_code".to_string()]);
    assert!(has_scope("inventory write_code", "write_code"));
    assert!(!has_scope("inventory write_code_x", "write_code"));
    assert!(!has_scope("", "write_code"));
}

#[test]
fn a_successful_send_places_every_template_in_order() {
    let events = vec![
        SendEvent::Done,
        reply("code"),
        reply("inventory write_code"),
        SendEvent::Done,
        SendEvent::Done,
        SendEvent::Done,
        SendEvent::Done,
        reply("place done"),
    ];
    let actions = run(events, false, 3);
    assert_eq!(actions[0], SendAction::Exchange("mode".to_string()));
    assert_eq!(actions[1], SendAction::Exchange("scopes".to_string()));
    assert_eq!(actions[2], SendAction::Send("place swap".to_string()));
    assert_eq!(sent_templates(&actions), vec![0, 1, 2]);
    assert_eq!(actions[6], SendAction::Exchange("place go".to_string()));
    assert_eq!(actions[7], SendAction::Finish(Ok(())));
}

#[test]
fn clearing_checks_the_scope_twice() {
    let events = vec![
        SendEvent::Done,
        reply("code"),
        reply("write_code clear_plot"),
        reply("write_code clear_plot"),
        reply("write_code clear_plot"),
        SendEvent::Done,
        SendEvent::Done,
        SendEvent::Done,
        reply("place done"),
    ];
    let actions = run(events, true, 1);
    assert_eq!(actions[4], SendAction::Send("clear".to_string()));
    assert_eq!(actions[5], SendAction::Send("place swap".to_string()));
    assert_eq!(sent_templates(&actions), vec![0]);
    assert_eq!(actions[7], SendAction::Exchange("place go".to_string()));
    assert_eq!(actions[8], SendAction::Finish(Ok(())));
}

#[test]
fn without_the_clear_scope_the_plot_is_not_cleared() {
    let events = vec![SendEvent::Done, reply("code"), reply("write_code"), reply("write_code")];
    let actions = run(events, true, 0);
    assert_eq!(actions[3], SendAction::Send("place swap".to_string()));
    assert!(!actions.contains(&SendAction::Send("clear".to_string())));
}

#[test]
fn nothing_is_placed_without_permission() {
    let not_in_dev = run(vec![SendEvent::Done, reply("play"), SendEvent::Done], false, 2);
    assert_eq!(not_in_dev[1], SendAction::Finish(Err(ProtocolError::NotInDev)));
    assert_eq!(not_in_dev[2], SendAction::Finish(Err(ProtocolError::InvalidStateTransition)));
    assert!(sent_templates(&not_in_dev).is_empty());

    let no_write = run(vec![SendEvent::Done, reply("code"), reply("inventory"), SendEvent::Done], false, 2);
    assert_eq!(no_write[2], SendAction::Finish(Err(ProtocolError::InvalidPermissions)));
    assert!(sent_templates(&no_write).is_empty());
}

#[test]
fn an_unexpected_reply_is_an_invalid_transition() {
    let actions = run(vec![reply("code")], false, 0);
    assert_eq!(actions[0], SendAction::Finish(Err(ProtocolError::InvalidStateTransition)));
    let late = run(
        vec![SendEvent::Done, reply("code"), reply("write_code"), SendEvent::Done, reply("place failed")],
        false,
        0,
    );
    assert_eq!(late[3], SendAction::Exchange("place go".to_string()));
    assert_eq!(late[4], SendAction::Finish(Err(ProtocolError::InvalidStateTransition)));
}
