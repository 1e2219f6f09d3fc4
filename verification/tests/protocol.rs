use live_registry::handler::handle_client_message;
use live_registry::handler::handle_server_message;
use live_registry::handler::handler_step;
use live_registry::handler::ClientFrame;
use live_registry::handler::Event;
use live_registry::message::format_count;
use live_registry::message::u64_to_decimal;
use live_registry::registry::Registry;

fn registry_of(n: usize) -> Registry {
    let mut r = Registry::new();
    for _ in 0..n {
        let (tx, rx) = tokio::sync::mpsc::unbounded_channel::<String>();
        r.register(tx);
        // The receiving halves are not needed by these tests.
        drop(rx);
    }
    r
}

#[test]
fn ping_yields_exactly_one_pong() {
    let r = registry_of(1);
    let step = handle_client_message(&r, &ClientFrame::Text("ping".to_string()));
    assert_eq!(step.reply.as_deref(), Some("pong"));
    assert!(step.proceed);
    assert_eq!(r.len(), 1);
}

#[test]
fn heartbeat_yields_exactly_one_heartbeat() {
    let r = registry_of(1);
    let step = handle_client_message(&r, &ClientFrame::Text("heartbeat".to_string()));
    assert_eq!(step.reply.as_deref(), Some("heartbeat"));
    assert!(step.proceed);
}

#[test]
fn count_request_reports_registry_size() {
    let r = registry_of(1);
    let step = handle_client_message(&r, &ClientFrame::Text("{\"name\":\"count\"}".to_string()));
    assert_eq!(step.reply.as_deref(), Some("{\"name\":\"count\",\"data\":1}"));
    assert!(step.proceed);

    let r3 = registry_of(3);
    let step = handle_client_message(&r3, &ClientFrame::Text("{\"name\":\"count\"}".to_string()));
    assert_eq!(step.reply.as_deref(), Some("{\"name\":\"count\",\"data\":3}"));
}

#[test]
fn count_request_with_extra_fields_is_recognized() {
    let r = registry_of(2);
    let text = "{\"data\":99,\"name\":\"count\"}".to_string();
    let step = handle_client_message(&r, &ClientFrame::Text(text));
    assert_eq!(step.reply.as_deref(), Some("{\"name\":\"count\",\"data\":2}"));
}

#[test]
fn other_name_draws_no_reply() {
    let r = registry_of(1);
    let step = handle_client_message(&r, &ClientFrame::Text("{\"name\":\"other\"}".to_string()));
    assert_eq!(step.reply, None);
    assert!(step.proceed);
}

#[test]
fn missing_name_draws_no_reply() {
    let r = registry_of(1);
    let step = handle_client_message(&r, &ClientFrame::Text("{\"data\":4}".to_string()));
    assert_eq!(step.reply, None);
    assert!(step.proceed);
}

#[test]
fn non_string_name_draws_no_reply() {
    let r = registry_of(1);
    let step = handle_client_message(&r, &ClientFrame::Text("{\"name\":7}".to_string()));
    assert_eq!(step.reply, None);
    assert!(step.proceed);
}

#[test]
fn malformed_text_is_ignored_and_connection_stays_open() {
    let r = registry_of(1);
    let step = handle_client_message(&r, &ClientFrame::Text("not json at all".to_string()));
    assert_eq!(step.reply, None);
    assert!(step.proceed);
}

#[test]
fn close_frame_ends_the_loop() {
    let r = registry_of(1);
    let step = handle_client_message(&r, &ClientFrame::Close);
    assert_eq!(step.reply, None);
    assert!(!step.proceed);
}

#[test]
fn other_frame_kinds_are_ignored() {
    let r = registry_of(1);
    let step = handle_client_message(&r, &ClientFrame::Other);
    assert_eq!(step.reply, None);
    assert!(step.proceed);
}

#[test]
fn server_count_message_is_forwarded_verbatim() {
    let msg = "{\"name\":\"count\",\"data\":7}".to_string();
    assert_eq!(handle_server_message(msg.clone()), Some(msg));
}

#[test]
fn every_server_message_is_forwarded_verbatim() {
    // Registry-originated payloads reach the client as they are, whatever
    // they hold.
    let msg = "hello".to_string();
    assert_eq!(handle_server_message(msg.clone()), Some(msg));
    let msg = "{\"name\":\"other\"}".to_string();
    assert_eq!(handle_server_message(msg.clone()), Some(msg));
}

#[test]
fn step_on_closed_sources_ends_the_loop() {
    let r = registry_of(0);
    let step = handler_step(&r, Event::SourcesClosed);
    assert_eq!(step.reply, None);
    assert!(!step.proceed);
}

#[test]
fn step_dispatches_server_and_client_events() {
    let r = registry_of(1);
    let msg = "{\"name\":\"count\",\"data\":1}".to_string();
    let step = handler_step(&r, Event::Server(msg.clone()));
    assert_eq!(step.reply, Some(msg));
    assert!(step.proceed);

    let step = handler_step(&r, Event::Server("not a count message".to_string()));
    assert_eq!(step.reply.as_deref(), Some("not a count message"));
    assert!(step.proceed);

    let step = handler_step(&r, Event::Client(ClientFrame::Text("ping".to_string())));
    assert_eq!(step.reply.as_deref(), Some("pong"));
    assert!(step.proceed);
}

#[test]
fn count_message_format_is_exact() {
    assert_eq!(format_count(0), "{\"name\":\"count\",\"data\":0}");
    assert_eq!(format_count(1), "{\"name\":\"count\",\"data\":1}");
    assert_eq!(format_count(10), "{\"name\":\"count\",\"data\":10}");
    assert_eq!(
        format_count(u64::MAX),
        "{\"name\":\"count\",\"data\":18446744073709551615}"
    );
}

#[test]
fn decimal_rendering_has_no_leading_zero() {
    assert_eq!(u64_to_decimal(0), "0");
    assert_eq!(u64_to_decimal(7), "7");
    assert_eq!(u64_to_decimal(100), "100");
    assert_eq!(u64_to_decimal(1234567890), "1234567890");
}

#[test]
fn count_message_parses_back_as_count() {
    // A count message is itself a valid count request in the eyes of the
    // parser: the round trip through serde_json holds.
    let r = registry_of(2);
    let step = handle_client_message(&r, &ClientFrame::Text(format_count(5)));
    assert_eq!(step.reply.as_deref(), Some("{\"name\":\"count\",\"data\":2}"));
    assert!(step.proceed);
}
