//! The checks that every message from a connected client passes.
use vstd::prelude::*;
use vstd::string::*;
use crate::client::{is_client_valid, spec_unregister_client, unregister_client, Clients, ClientsView};
use crate::handler::{trigger_disconnect, Handlers};
use crate::message::valid_id;
use crate::pool::{has_msg_id, is_msg_id_available, Pools, PoolsView};
use crate::text::str_eq;
use crate::json::{parse_json, parsed_json};
use crate::wire::{message_fields, text_of, wire_fields, wire_message, WireFields, WireMessage};
use crate::wsa::validate_id;

verus! {

/// What becomes of a message from a client.
pub enum WsmVerdict {
    /// The message passed every check.
    Accepted,
    /// The client was disconnected.
    Disconnected,
    /// The client was disconnected and forgotten.
    DisconnectedAndUnregistered,
}

/// The verdict on a message with the fields `m` from `client_id`: it must carry an
/// id; its sender `f` must be `client_id`; its id must be registered in the client's
/// pool; and its receiver `t` must be the server (`s`) or a registered client.
pub open spec fn fields_verdict(
    m: WireFields,
    client_id: Seq<char>,
    clients: ClientsView,
    pools: PoolsView,
) -> WsmVerdict {
    match m.0 {
        None => WsmVerdict::Disconnected,
        Some(id) => if m.1 != Some(client_id) {
            WsmVerdict::DisconnectedAndUnregistered
        } else if !has_msg_id(pools, client_id, id) {
            WsmVerdict::Disconnected
        } else {
            match m.2 {
                None => WsmVerdict::DisconnectedAndUnregistered,
                Some(to) => if to == "s"@ {
                    WsmVerdict::Accepted
                } else if valid_id(to) && clients.contains_key(to) {
                    WsmVerdict::Accepted
                } else {
                    WsmVerdict::DisconnectedAndUnregistered
                },
            }
        },
    }
}

/// The verdict on `msg` from `client_id`, as `fields_verdict` says.
pub open spec fn wsm_verdict(
    msg: WireMessage,
    client_id: Seq<char>,
    clients: ClientsView,
    pools: PoolsView,
) -> WsmVerdict {
    fields_verdict(wire_fields(msg), client_id, clients, pools)
}

/// A message from `client_id` to the server that answers an id pending in the
/// client's pool passes every check.
pub proof fn lemma_reply_to_pending_message_is_accepted(
    msg: WireMessage,
    client_id: Seq<char>,
    clients: ClientsView,
    pools: PoolsView,
)
    requires
        text_of(msg.i) matches Some(id) && has_msg_id(pools, client_id, id),
        text_of(msg.f) == Some(client_id),
        text_of(msg.t) == Some("s"@),
    ensures
        wsm_verdict(msg, client_id, clients, pools) is Accepted,
{
}

/// A message passes the checks only when it carries an id that is pending in the
/// client's pool, names the client itself as its sender, and is addressed to the
/// server or to a registered client.
pub proof fn lemma_accepted_message_is_genuine(
    m: WireFields,
    client_id: Seq<char>,
    clients: ClientsView,
    pools: PoolsView,
)
    requires
        fields_verdict(m, client_id, clients, pools) is Accepted,
    ensures
        m.0 matches Some(id) && has_msg_id(pools, client_id, id),
        m.1 == Some(client_id),
        m.2 matches Some(to) && (to == "s"@ || clients.contains_key(to)),
{
}

/// A message that claims another sender, or whose receiver is missing or unknown,
/// gets its client forgotten; a message without an id, or whose id is not pending,
/// only disconnects it.
pub proof fn lemma_refused_messages(
    m: WireFields,
    client_id: Seq<char>,
    clients: ClientsView,
    pools: PoolsView,
)
    ensures
        m.0 is None ==> fields_verdict(m, client_id, clients, pools) is Disconnected,
        m.0 is Some && m.1 != Some(client_id) ==> fields_verdict(m, client_id, clients, pools) is DisconnectedAndUnregistered,
        m.0 matches Some(id) && m.1 == Some(client_id) && !has_msg_id(pools, client_id, id)
            ==> fields_verdict(m, client_id, clients, pools) is Disconnected,
        m.0 matches Some(id) && m.1 == Some(client_id) && has_msg_id(pools, client_id, id) && (
        m.2 matches Some(to) ==> to != "s"@ && !clients.contains_key(to)) ==> fields_verdict(
            m,
            client_id,
            clients,
            pools,
        ) is DisconnectedAndUnregistered,
{
}

/// Checks a message from `client_id` as `wsm_verdict` says; a client that fails is
/// disconnected, and forgotten where the verdict says so.
pub fn handle_wsm_message<
    D: Fn(&str),
    A: Fn(&str, &str) -> (bool, String),
    R: Fn(&str, &str, bool, &str),
>(
    msg: &WireMessage,
    client_id: &str,
    clients: &mut Clients,
    pools: &Pools,
    handlers: &Handlers<D, A, R>,
) -> (r: WsmVerdict)
    ensures
        r == wsm_verdict(*msg, client_id@, old(clients)@, pools@),
        r is DisconnectedAndUnregistered ==> final(clients)@ == spec_unregister_client(
            old(clients)@,
            client_id@,
        ),
        !(r is DisconnectedAndUnregistered) ==> final(clients)@ == old(clients)@,
        !(r is Accepted) ==> (handlers.disconnect_handler() matches Some(d) ==> call_ensures(
            d,
            (client_id,),
            (),
        )),
{
    let msg_id = match &msg.i {
        Some(i) => i,
        None => {
            trigger_disconnect(handlers, client_id);
            return WsmVerdict::Disconnected;
        },
    };
    let from_ok = match &msg.f {
        Some(f) => str_eq(f.as_str(), client_id),
        None => false,
    };
    if !from_ok {
        trigger_disconnect(handlers, client_id);
        unregister_client(clients, client_id);
        return WsmVerdict::DisconnectedAndUnregistered;
    }
    if is_msg_id_available(pools, client_id, msg_id.as_str()) {
        trigger_disconnect(handlers, client_id);
        return WsmVerdict::Disconnected;
    }
    let to_ok = match &msg.t {
        Some(to) => {
            if str_eq(to.as_str(), "s") {
                true
            } else if validate_id(to.as_str()) {
                is_client_valid(clients, to.as_str())
            } else {
                false
            }
        },
        None => false,
    };
    if !to_ok {
        trigger_disconnect(handlers, client_id);
        unregister_client(clients, client_id);
        return WsmVerdict::DisconnectedAndUnregistered;
    }
    WsmVerdict::Accepted
}

/// Handles a text frame received from `client_id`: a frame that is not JSON is
/// answered with the parse error and changes nothing; otherwise the message it
/// carries is checked as `handle_wsm_message` does.
pub fn handle_text_frame<
    D: Fn(&str),
    A: Fn(&str, &str) -> (bool, String),
    R: Fn(&str, &str, bool, &str),
>(
    text: &str,
    client_id: &str,
    clients: &mut Clients,
    pools: &Pools,
    handlers: &Handlers<D, A, R>,
) -> (r: Result<WsmVerdict, String>)
    ensures
        r is Err <==> parsed_json(text@) is None,
        r matches Ok(v) ==> parsed_json(text@) matches Some(j) && v == fields_verdict(
            message_fields(j),
            client_id@,
            old(clients)@,
            pools@,
        ),
        r matches Ok(WsmVerdict::DisconnectedAndUnregistered) ==> final(clients)@
            == spec_unregister_client(old(clients)@, client_id@),
        !(r matches Ok(WsmVerdict::DisconnectedAndUnregistered)) ==> final(clients)@ == old(
            clients,
        )@,
        r matches Ok(v) && !(v is Accepted) ==> (handlers.disconnect_handler() matches Some(d)
            ==> call_ensures(d, (client_id,), ())),
{
    match parse_json(text) {
        Ok(v) => {
            let msg = wire_message(&v);
            Ok(handle_wsm_message(&msg, client_id, clients, pools, handlers))
        },
        Err(e) => Err(e),
    }
}

/// What arrived on a client's connection: a frame, a failure to receive, or the
/// end of the stream.
pub enum FrameEvent {
    Text(String),
    Binary,
    Ping(Vec<u8>),
    Pong,
    Close,
    Failed,
    Ended,
}

/// What the connection does next.
pub enum FrameAction {
    /// Wait for the next frame.
    Continue,
    /// Send this text frame, then wait for the next frame.
    Reply(String),
    /// Answer a ping with a pong that carries the same data.
    SendPong(Vec<u8>),
    /// Close the connection.
    Stop,
}

/// The start of the reply to a text frame that is not JSON.
pub open spec fn invalid_json_prefix() -> Seq<char> {
    "Error: Invalid JSON format - "@
}

/// The next step of a client's connection on `event`: a text frame is handled as
/// `handle_text_frame` says and, when it is not JSON, answered with the parse error
/// after `invalid_json_prefix`; a ping is answered with a pong carrying its data;
/// binary frames and pongs are passed over; a close frame, a failure to receive and
/// the end of the stream close the connection.
pub fn handle_frame<
    D: Fn(&str),
    A: Fn(&str, &str) -> (bool, String),
    R: Fn(&str, &str, bool, &str),
>(
    event: FrameEvent,
    client_id: &str,
    clients: &mut Clients,
    pools: &Pools,
    handlers: &Handlers<D, A, R>,
) -> (r: FrameAction)
    ensures
        match event {
            FrameEvent::Text(text) => {
                &&& parsed_json(text@) is None ==> (r matches FrameAction::Reply(reply) && reply@.len()
                    >= invalid_json_prefix().len() && reply@.take(
                    invalid_json_prefix().len() as int,
                ) == invalid_json_prefix())
                &&& parsed_json(text@) matches Some(j) ==> {
                    let v = fields_verdict(message_fields(j), client_id@, old(clients)@, pools@);
                    &&& r is Continue
                    &&& v is DisconnectedAndUnregistered ==> final(clients)@
                        == spec_unregister_client(old(clients)@, client_id@)
                    &&& !(v is DisconnectedAndUnregistered) ==> final(clients)@ == old(clients)@
                    &&& !(v is Accepted) ==> (handlers.disconnect_handler() matches Some(d)
                        ==> call_ensures(d, (client_id,), ()))
                }
                &&& parsed_json(text@) is None ==> final(clients)@ == old(clients)@
            },
            FrameEvent::Ping(data) => {
                &&& r == FrameAction::SendPong(data)
                &&& final(clients)@ == old(clients)@
            },
            FrameEvent::Binary | FrameEvent::Pong => {
                &&& r is Continue
                &&& final(clients)@ == old(clients)@
            },
            FrameEvent::Close | FrameEvent::Failed | FrameEvent::Ended => {
                &&& r is Stop
                &&& final(clients)@ == old(clients)@
            },
        },
{
    match event {
        FrameEvent::Text(text) => match handle_text_frame(
            text.as_str(),
            client_id,
            clients,
            pools,
            handlers,
        ) {
            Ok(_) => FrameAction::Continue,
            Err(e) => {
                proof {
                    reveal_strlit("Error: Invalid JSON format - ");
                }
                let mut reply = String::from_str("Error: Invalid JSON format - ");
                reply.append(e.as_str());
                assert(reply@.take(invalid_json_prefix().len() as int) =~= invalid_json_prefix());
                FrameAction::Reply(reply)
            },
        },
        FrameEvent::Ping(data) => FrameAction::SendPong(data),
        FrameEvent::Binary | FrameEvent::Pong => FrameAction::Continue,
        FrameEvent::Close | FrameEvent::Failed | FrameEvent::Ended => FrameAction::Stop,
    }
}

} // verus!
