//! The per-connection protocol: what one handler does with each event.
//!
//! A handler owns one client connection. Its loop wakes on one of three
//! events — a registry-originated payload on its own channel, a frame from
//! the client's socket, or both sources gone — and each turn produces at
//! most one payload to write back and a verdict on whether the loop goes
//! on. The functions here are those decisions; the surrounding process
//! performs the socket writes and breaks the loop when a write fails.

use vstd::prelude::*;

use crate::json;
use crate::message;
use crate::registry::Registry;

verus! {

/// One inbound frame from the client's socket, reduced to what the
/// protocol distinguishes: a text payload, a close frame, or any other
/// frame kind (binary, low-level control), which is ignored.
pub enum ClientFrame {
    Text(String),
    Close,
    Other,
}

/// One event a handler can wake up on: a payload the registry put on this
/// connection's channel, a frame from the client, or both sources gone.
pub enum Event {
    Server(String),
    Client(ClientFrame),
    SourcesClosed,
}

/// What the handler does with one event: the payload to write to the
/// client, if any, and whether the loop goes on.
pub struct Step {
    pub reply: Option<String>,
    pub proceed: bool,
}

/// The reply the protocol owes for inbound client text `t` when the
/// registry holds `n` handles: `pong` for `ping`, an echo for `heartbeat`,
/// the count message for a count request, and silence for everything else.
pub open spec fn client_reply(n: nat, t: Seq<char>) -> Option<Seq<char>> {
    if t == "ping"@ {
        Some("pong"@)
    } else if t == "heartbeat"@ {
        Some("heartbeat"@)
    } else if json::is_count_request(t) {
        Some(message::count_message_view(n))
    } else {
        None
    }
}

/// Law: a count request draws exactly one reply, the count message for
/// the registry size at the time of the reply — for any size, so in
/// particular for every registry that counts the requester itself. The
/// JSON reading is an uninterpreted name, so it alone cannot show that a
/// bare control word is no count request; that disjointness — true of
/// real JSON, whose texts the control words are not — stands as the
/// assumption here.
pub proof fn lemma_count_request_reply(n: nat, t: Seq<char>)
    requires
        json::is_count_request(t),
        t != "ping"@,
        t != "heartbeat"@,
    ensures
        client_reply(n, t) == Some(message::count_message_view(n)),
{
}

/// The reply and verdict the handler owes for `event` when the registry
/// holds `n` handles.
pub open spec fn event_outcome(n: nat, event: Event) -> (Option<Seq<char>>, bool) {
    match event {
        Event::Server(m) => (Some(m@), true),
        Event::Client(f) => match f {
            ClientFrame::Text(t) => (client_reply(n, t@), true),
            ClientFrame::Close => (None, false),
            ClientFrame::Other => (None, true),
        },
        Event::SourcesClosed => (None, false),
    }
}

/// Handles one frame from the client. `ping` draws exactly one `pong`,
/// `heartbeat` exactly one `heartbeat` echo, and a count request exactly
/// one count message carrying the registry size at the time of the reply;
/// any other text — including text that is not JSON at all — draws nothing
/// and keeps the connection open. Only a close frame ends the loop. The
/// registry is read, never changed.
pub fn handle_client_message(registry: &Registry, frame: &ClientFrame) -> (step: Step)
    ensures
        match frame {
            ClientFrame::Text(t) => step.proceed && step.reply.deep_view() == client_reply(
                registry.ids().len(),
                t@,
            ),
            ClientFrame::Close => !step.proceed && step.reply is None,
            ClientFrame::Other => step.proceed && step.reply is None,
        },
{
    match frame {
        ClientFrame::Text(t) => {
            if message::str_is(t, "ping") {
                Step { reply: Some(String::from_str("pong")), proceed: true }
            } else if message::str_is(t, "heartbeat") {
                Step { reply: Some(String::from_str("heartbeat")), proceed: true }
            } else {
                let reply = match json::json_name_field(t.as_str()) {
                    Some(name) => if message::str_is(&name, "count") {
                        Some(registry.count())
                    } else {
                        None
                    },
                    None => None,
                };
                Step { reply, proceed: true }
            }
        },
        ClientFrame::Close => Step { reply: None, proceed: false },
        ClientFrame::Other => Step { reply: None, proceed: true },
    }
}

/// Handles one registry-originated payload: whatever the registry put on
/// this connection's channel is forwarded to the client verbatim, as a
/// text frame.
pub fn handle_server_message(msg: String) -> (r: Option<String>)
    ensures
        r == Some(msg),
{
    Some(msg)
}

/// One turn of the connection loop: the decision for whichever event
/// arrived first.
pub fn handler_step(registry: &Registry, event: Event) -> (step: Step)
    ensures
        step.reply.deep_view() == event_outcome(registry.ids().len(), event).0,
        step.proceed == event_outcome(registry.ids().len(), event).1,
{
    match event {
        Event::Server(m) => {
            let reply = handle_server_message(m);
            Step { reply, proceed: true }
        },
        Event::Client(f) => handle_client_message(registry, &f),
        Event::SourcesClosed => Step { reply: None, proceed: false },
    }
}

} // verus!
