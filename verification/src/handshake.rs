//! The handshake that a new client answers to authenticate itself.
use vstd::prelude::*;
use vstd::string::*;
use crate::client::{
    set_client_field, spec_set_client_field, spec_unregister_client, unregister_client, Clients,
    ClientsView,
};
use crate::json::{Json, JsonView};
use crate::handler::{trigger_auth, trigger_disconnect, Handlers};
use crate::pool::{delete_pool, remove_msg_id, spec_delete_pool, spec_remove_msg_id, Pools, PoolsView};
use crate::text::{all_in_class, class_allows, lemma_class_members, str_eq, str_in_class, CharClass};
use crate::wire::{text_of, WireMessage};

verus! {

/// Text made of `A-Z`, `a-z`, `0-9` and `=` only (the empty text included).
pub open spec fn looks_like_base64(s: Seq<char>) -> bool {
    all_in_class(s, CharClass::Base64Like)
}

/// An authentication code passes the base64 check exactly when each of its
/// characters is a letter `A-Z` or `a-z`, a digit `0-9`, or `=`.
pub proof fn lemma_base64_by_chars(s: Seq<char>)
    ensures
        looks_like_base64(s) <==> forall|i: int|
            0 <= i < s.len() ==> ('A' <= #[trigger] s[i] && s[i] <= 'Z') || ('a' <= s[i] && s[i]
                <= 'z') || ('0' <= s[i] && s[i] <= '9') || s[i] == '=',
{
    assert forall|i: int| 0 <= i < s.len() implies class_allows(
        CharClass::Base64Like,
        #[trigger] s[i],
    ) <==> (('A' <= s[i] && s[i] <= 'Z') || ('a' <= s[i] && s[i] <= 'z') || ('0' <= s[i] && s[i]
        <= '9') || s[i] == '=') by {
        lemma_class_members(s[i]);
    }
}

/// Whether `s` is made of `A-Z`, `a-z`, `0-9` and `=` only.
fn is_base64(s: &str) -> (r: bool)
    ensures
        r == looks_like_base64(s@),
{
    str_in_class(s, CharClass::Base64Like)
}

/// What a handshake answer asks for.
pub enum HandshakeStep {
    /// The payload is not an object: disconnect only.
    Drop,
    /// Disconnect, forget the client and delete its pool.
    Reject,
    /// Authenticate with `code`, then settle the handshake message `msg_id`.
    Authenticate { code: Seq<char>, msg_id: Seq<char> },
    /// Admit the client to the group `anonymous` and settle `msg_id`.
    Anonymous { msg_id: Seq<char> },
}

/// How a handshake answer is handled: the payload must be an object whose `r` is
/// `s`, the message must carry an id, and `c` must be a code of base64 characters
/// (which `Anonymous` also is, so that code is authenticated like any other).
pub open spec fn handshake_step(msg: WireMessage) -> HandshakeStep {
    match msg.p {
        None => HandshakeStep::Drop,
        Some(p) => if text_of(p.r) != Some("s"@) {
            HandshakeStep::Reject
        } else {
            match text_of(msg.i) {
                None => HandshakeStep::Reject,
                Some(id) => match text_of(p.c) {
                    None => HandshakeStep::Reject,
                    Some(code) => if looks_like_base64(code) {
                        HandshakeStep::Authenticate { code, msg_id: id }
                    } else if code == "Anonymous"@ {
                        HandshakeStep::Anonymous { msg_id: id }
                    } else {
                        HandshakeStep::Reject
                    },
                },
            }
        },
    }
}

/// The result of handling a handshake answer.
pub enum HandshakeOutcome {
    /// The client was disconnected and nothing else changed.
    Dropped,
    /// The client was disconnected, forgotten, and its pool deleted.
    Rejected,
    /// The client was admitted to `group`.
    Accepted { group: String },
}

/// The client registry after admitting `client_id` to `group`.
pub open spec fn admitted_clients(c: ClientsView, client_id: Seq<char>, group: Seq<char>) -> ClientsView {
    spec_set_client_field(
        spec_set_client_field(c, client_id, "unauthorized"@, JsonView::Bool(false)),
        client_id,
        "group"@,
        JsonView::Str(group),
    )
}

/// Whether a client has passed the handshake.
pub open spec fn is_authorized(c: ClientsView, client_id: Seq<char>) -> bool {
    c.contains_key(client_id) && c[client_id].contains_key("unauthorized"@)
        && c[client_id]["unauthorized"@] == JsonView::Bool(false)
}

/// A registered client admitted to a group has passed the handshake, and its group
/// reads back as the one it was admitted to.
pub proof fn lemma_admitted_client_is_authorized(c: ClientsView, client_id: Seq<char>, group: Seq<char>)
    requires
        c.contains_key(client_id),
    ensures
        is_authorized(admitted_clients(c, client_id, group), client_id),
        admitted_clients(c, client_id, group)[client_id]["group"@] == JsonView::Str(group),
{
    reveal_strlit("group");
    reveal_strlit("unauthorized");
    assert("group"@.len() != "unauthorized"@.len());
}

/// A rejected client has not passed the handshake.
pub proof fn lemma_rejected_client_is_unauthorized(c: ClientsView, client_id: Seq<char>)
    ensures
        !is_authorized(spec_unregister_client(c, client_id), client_id),
{
}

/// `group` when the client passed the handshake, else `unauthorized`.
pub fn get_client_handshake_status(clients: &Clients, client_id: &str) -> (r: &'static str)
    ensures
        r@ == if is_authorized(clients@, client_id@) {
            "group"@
        } else {
            "unauthorized"@
        },
{
    match clients.get(client_id) {
        Some(meta) => match meta.get("unauthorized") {
            Some(Json::Bool(false)) => "group",
            _ => "unauthorized",
        },
        None => "unauthorized",
    }
}

fn reject_client(clients: &mut Clients, pools: &mut Pools, client_id: &str)
    ensures
        final(clients)@ == spec_unregister_client(old(clients)@, client_id@),
        final(pools)@ == spec_delete_pool(old(pools)@, client_id@),
{
    unregister_client(clients, client_id);
    delete_pool(pools, client_id);
}

/// Settles a handshake after authentication answered `ok` and `group`: on success
/// the client is admitted to `group` and `msg_id` leaves its pool; on failure the
/// client is forgotten and its pool deleted.
pub fn complete_handshake_auth(
    clients: &mut Clients,
    pools: &mut Pools,
    client_id: &str,
    msg_id: &str,
    ok: bool,
    group: String,
) -> (r: HandshakeOutcome)
    ensures
        ok ==> r == (HandshakeOutcome::Accepted { group }),
        ok ==> final(clients)@ == admitted_clients(old(clients)@, client_id@, group@),
        ok ==> final(pools)@ == spec_remove_msg_id(old(pools)@, client_id@, msg_id@),
        !ok ==> r is Rejected,
        !ok ==> final(clients)@ == spec_unregister_client(old(clients)@, client_id@),
        !ok ==> final(pools)@ == spec_delete_pool(old(pools)@, client_id@),
{
    if ok {
        set_client_field(clients, client_id, "unauthorized", Json::Bool(false));
        set_client_field(clients, client_id, "group", Json::Str(group.clone()));
        remove_msg_id(pools, client_id, msg_id);
        HandshakeOutcome::Accepted { group }
    } else {
        reject_client(clients, pools, client_id);
        HandshakeOutcome::Rejected
    }
}

/// Handles a client's answer to the handshake, as `handshake_step` says: a payload
/// that is no object disconnects the client; a malformed answer or a failed
/// authentication disconnects it, forgets it and deletes its pool; a passed
/// authentication admits it to the group that the callback named.
pub fn handle_handshake_auth<
    D: Fn(&str),
    A: Fn(&str, &str) -> (bool, String),
    R: Fn(&str, &str, bool, &str),
>(
    msg: &WireMessage,
    client_id: &str,
    clients: &mut Clients,
    pools: &mut Pools,
    handlers: &Handlers<D, A, R>,
) -> (r: HandshakeOutcome)
    ensures
        !(r is Accepted) ==> (handlers.disconnect_handler() matches Some(d) ==> call_ensures(
            d,
            (client_id,),
            (),
        )),
        handshake_step(*msg) is Drop ==> {
            &&& r is Dropped
            &&& final(clients)@ == old(clients)@
            &&& final(pools)@ == old(pools)@
        },
        handshake_step(*msg) is Reject ==> {
            &&& r is Rejected
            &&& final(clients)@ == spec_unregister_client(old(clients)@, client_id@)
            &&& final(pools)@ == spec_delete_pool(old(pools)@, client_id@)
        },
        handshake_step(*msg) matches HandshakeStep::Anonymous { msg_id } ==> {
            &&& r matches HandshakeOutcome::Accepted { group }
            &&& group@ == "anonymous"@
            &&& final(clients)@ == admitted_clients(old(clients)@, client_id@, "anonymous"@)
            &&& final(pools)@ == spec_remove_msg_id(old(pools)@, client_id@, msg_id)
        },
        handshake_step(*msg) is Authenticate ==> !(r is Dropped),
        handshake_step(*msg) matches HandshakeStep::Authenticate { code, msg_id } ==> (
        r matches HandshakeOutcome::Accepted { group } ==> {
            &&& handlers.auth_reply(client_id, code, (true, group))
            &&& final(clients)@ == admitted_clients(old(clients)@, client_id@, group@)
            &&& final(pools)@ == spec_remove_msg_id(old(pools)@, client_id@, msg_id)
        }),
        handshake_step(*msg) matches HandshakeStep::Authenticate { code, msg_id } ==> (r is Rejected
            ==> {
            &&& handlers.auth_can_refuse(client_id, code)
            &&& final(clients)@ == spec_unregister_client(old(clients)@, client_id@)
            &&& final(pools)@ == spec_delete_pool(old(pools)@, client_id@)
        }),
{
    let payload = match &msg.p {
        Some(p) => p,
        None => {
            trigger_disconnect(handlers, client_id);
            return HandshakeOutcome::Dropped;
        },
    };
    let r_ok = match &payload.r {
        Some(r) => str_eq(r.as_str(), "s"),
        None => false,
    };
    if !r_ok {
        trigger_disconnect(handlers, client_id);
        reject_client(clients, pools, client_id);
        return HandshakeOutcome::Rejected;
    }
    let msg_id = match &msg.i {
        Some(i) => i,
        None => {
            trigger_disconnect(handlers, client_id);
            reject_client(clients, pools, client_id);
            return HandshakeOutcome::Rejected;
        },
    };
    match &payload.c {
        Some(code) => {
            if is_base64(code.as_str()) {
                let (ok, group) = trigger_auth(handlers, client_id, code.as_str());
                if !ok {
                    trigger_disconnect(handlers, client_id);
                }
                let ghost g = group;
                let outcome = complete_handshake_auth(
                    clients,
                    pools,
                    client_id,
                    msg_id.as_str(),
                    ok,
                    group,
                );
                proof {
                    assert(handshake_step(*msg) == HandshakeStep::Authenticate {
                        code: code@,
                        msg_id: msg_id@,
                    });
                    if !ok {
                        assert(handlers.auth_reply(client_id, code@, (false, g)));
                        assert(handlers.auth_can_refuse(client_id, code@));
                    }
                }
                outcome
            } else if str_eq(code.as_str(), "Anonymous") {
                let group = "anonymous".to_owned();
                assert(handshake_step(*msg) == HandshakeStep::Anonymous { msg_id: msg_id@ });
                complete_handshake_auth(clients, pools, client_id, msg_id.as_str(), true, group)
            } else {
                trigger_disconnect(handlers, client_id);
                reject_client(clients, pools, client_id);
                HandshakeOutcome::Rejected
            }
        },
        None => {
            trigger_disconnect(handlers, client_id);
            reject_client(clients, pools, client_id);
            HandshakeOutcome::Rejected
        },
    }
}

} // verus!
