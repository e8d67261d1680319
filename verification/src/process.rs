//! Responses that clients send back to the server's requests.
use vstd::prelude::*;
use crate::handler::{trigger_response_callback, Handlers};
use crate::pool::{remove_msg_id, spec_remove_msg_id, Pools};
use crate::text::str_eq;
use crate::wire::{text_of, WireMessage};

verus! {

/// What a response carries: its message id, whether `r` is `s` (success), and its
/// content `c` (empty when absent). A message without an id, without an object
/// payload, or without `r` carries no response.
pub open spec fn response_fields(msg: WireMessage) -> Option<(Seq<char>, bool, Seq<char>)> {
    match text_of(msg.i) {
        None => None,
        Some(id) => match msg.p {
            None => None,
            Some(p) => match text_of(p.r) {
                None => None,
                Some(r) => Some(
                    (
                        id,
                        r == "s"@,
                        match text_of(p.c) {
                            Some(c) => c,
                            None => Seq::empty(),
                        },
                    ),
                ),
            },
        },
    }
}

/// A message with an id and an object payload holding `r` is a response. It carries
/// that id; it reports success exactly when `r` is `s`; and its content is the
/// payload's `c` whatever `r` says, or empty text when there is no `c`.
pub proof fn lemma_response_carries_id_result_and_content(msg: WireMessage)
    requires
        text_of(msg.i) is Some,
        msg.p is Some,
        text_of(msg.p->0.r) is Some,
    ensures
        response_fields(msg) matches Some((id, success, content)) && {
            &&& text_of(msg.i) == Some(id)
            &&& success <==> text_of(msg.p->0.r) == Some("s"@)
            &&& text_of(msg.p->0.c) matches Some(c) ==> content == c
            &&& text_of(msg.p->0.c) is None ==> content.len() == 0
        },
{
}

/// Whether the response reports success or failure does not change its id or its
/// content: two responses that differ only in `r` carry the same id and content.
pub proof fn lemma_response_content_independent_of_result(a: WireMessage, b: WireMessage)
    requires
        response_fields(a) is Some,
        response_fields(b) is Some,
        text_of(a.i) == text_of(b.i),
        a.p is Some && b.p is Some,
        text_of(a.p->0.c) == text_of(b.p->0.c),
    ensures
        response_fields(a) matches Some((id_a, _, content_a)) && response_fields(b) matches Some(
            (id_b, _, content_b),
        ) && id_a == id_b && content_a == content_b,
{
}

/// Handles a response from `client_id`: its message id leaves the client's pool and
/// the response callback receives it. A message that carries no response is ignored.
pub fn process_response_from_client<
    D: Fn(&str),
    A: Fn(&str, &str) -> (bool, String),
    R: Fn(&str, &str, bool, &str),
>(msg: &WireMessage, client_id: &str, pools: &mut Pools, handlers: &Handlers<D, A, R>)
    ensures
        response_fields(*msg) is None ==> final(pools)@ == old(pools)@,
        response_fields(*msg) matches Some((id, success, content)) ==> {
            &&& final(pools)@ == spec_remove_msg_id(old(pools)@, client_id@, id)
            &&& handlers.response_delivered(client_id, id, success, content)
        },
{
    let msg_id = match &msg.i {
        Some(i) => i,
        None => return ,
    };
    let payload = match &msg.p {
        Some(p) => p,
        None => return ,
    };
    let r = match &payload.r {
        Some(r) => r,
        None => return ,
    };
    let empty = String::new();
    let c = match &payload.c {
        Some(c) => c,
        None => &empty,
    };
    let success = str_eq(r.as_str(), "s");
    remove_msg_id(pools, client_id, msg_id.as_str());
    trigger_response_callback(handlers, client_id, msg_id.as_str(), success, c.as_str());
    proof {
        assert(handlers.response_delivered(client_id, msg_id@, success, c@));
    }
}

} // verus!
