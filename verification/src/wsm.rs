//! Opening a client connection and sending requests to clients.
use vstd::prelude::*;
use vstd::string::*;
use crate::client::{register_client, spec_register_client, Clients};
use crate::id::{gen_unique_id, lemma_id_space, pow36};
use crate::json::string_views;
use crate::message::{request_text, valid_id};
use crate::method::{build_method, method_text, valid_endpoint, valid_method_name, valid_version};
use crate::params::build_params;
use crate::pool::{
    add_msg_id, has_msg_id, set_msg_json, spec_add_msg_id, spec_create_pool, spec_get_msg_json,
    spec_set_msg_json, Pools, PoolsView,
};
use crate::server::{new_client, new_client_msg_pool, client_pool};
use crate::strmap::StrMap;
use crate::wsa::{create_request_form_server_to_client, lemma_built_method_is_valid, valid_client_id};

verus! {

/// The callback key recorded for each request the server sent, by message id.
pub type Callbacks = StrMap<String>;

/// No recorded callbacks.
pub fn new_callbacks() -> (r: Callbacks)
    ensures
        r@ == Map::<Seq<char>, Seq<char>>::empty(),
{
    StrMap::new()
}

/// The pools that a new connection takes ids from have room: the `client` pool and
/// every pool named like a client id leave at least one id free.
pub open spec fn pools_have_room(p: PoolsView) -> bool {
    &&& p.contains_key(client_pool()) ==> p[client_pool()].len() < pow36(5)
    &&& forall|k: Seq<char>| #[trigger] p.contains_key(k) && valid_id(k) ==> p[k].len() < pow36(5)
}

/// The method of the handshake request: `wsm@v1/handshake`.
pub open spec fn handshake_method() -> Seq<char> {
    method_text("wsm"@, "1"@, "handshake"@)
}

/// The pools after a request `msg` went to `client_id` under the id `msg_id`: the id
/// is registered in the client's pool with `msg` as its message.
pub open spec fn pools_after_request(
    p: PoolsView,
    client_id: Seq<char>,
    msg_id: Seq<char>,
    msg: Seq<char>,
) -> PoolsView {
    spec_set_msg_json(spec_add_msg_id(p, client_id, msg_id), client_id, msg_id, msg)
}

/// `msg` is the handshake request to `client_id` under some id that was free in the
/// client's pool in `before`, and `after` is `before` with that request recorded.
pub open spec fn handshake_request_sent(
    before: PoolsView,
    client_id: Seq<char>,
    msg: Seq<char>,
    after: PoolsView,
) -> bool {
    exists|msg_id: Seq<char>|
        {
            &&& valid_id(msg_id)
            &&& !has_msg_id(before, client_id, msg_id)
            &&& msg == request_text(
                "server"@,
                client_id,
                msg_id,
                handshake_method(),
                seq![client_id],
                'q',
            )
            &&& after == pools_after_request(before, client_id, msg_id, msg)
        }
}

/// After a handshake request went out, its message is pending in the client's
/// pool: the id is taken there and reading it gives back the request.
pub proof fn lemma_handshake_request_is_stored(
    before: PoolsView,
    client_id: Seq<char>,
    msg: Seq<char>,
    after: PoolsView,
)
    requires
        handshake_request_sent(before, client_id, msg, after),
        before.contains_key(client_id),
    ensures
        exists|msg_id: Seq<char>|
            valid_id(msg_id) && has_msg_id(after, client_id, msg_id) && spec_get_msg_json(
                after,
                client_id,
                msg_id,
            ) == Some(msg),
{
    let msg_id = choose|msg_id: Seq<char>|
        {
            &&& valid_id(msg_id)
            &&& !has_msg_id(before, client_id, msg_id)
            &&& msg == request_text(
                "server"@,
                client_id,
                msg_id,
                handshake_method(),
                seq![client_id],
                'q',
            )
            &&& after == pools_after_request(before, client_id, msg_id, msg)
        };
    assert(has_msg_id(after, client_id, msg_id));
}

/// Opens a connection: a new client id is registered in the `client` pool, the
/// client gets a message pool, the handshake request to it is recorded there, and
/// the client is registered. Gives back the handshake request and the client id.
pub fn init_client_connection(pools: &mut Pools, clients: &mut Clients) -> (r: (String, String))
    requires
        pools_have_room(old(pools)@),
    ensures
        valid_id(r.1@),
        !has_msg_id(old(pools)@, client_pool(), r.1@),
        handshake_request_sent(
            spec_create_pool(spec_add_msg_id(old(pools)@, client_pool(), r.1@), r.1@),
            r.1@,
            r.0@,
            final(pools)@,
        ),
        final(clients)@ == spec_register_client(old(clients)@, r.1@),
{
    proof {
        reveal_strlit("client");
    }
    let client_id = new_client(pools);
    let ghost p0 = pools@;
    new_client_msg_pool(pools, client_id.as_str());
    let ghost p1 = pools@;
    proof {
        lemma_id_space();
        assert(client_id@ != client_pool());
        if p1.contains_key(client_id@) {
            if old(pools)@.contains_key(client_id@) {
                assert(p0[client_id@] == old(pools)@[client_id@]);
                assert(p1[client_id@] == old(pools)@[client_id@]);
            } else {
                assert(p1[client_id@] == Map::<Seq<char>, Option<Seq<char>>>::empty());
                assert(p1[client_id@].len() == 0);
            }
        }
    }
    let msg_id = gen_unique_id(pools, client_id.as_str());
    add_msg_id(pools, client_id.as_str(), msg_id.as_str());
    proof {
        reveal_strlit("wsm");
        reveal_strlit("1");
        reveal_strlit("handshake");
        reveal_strlit("client");
        lemma_built_method_is_valid("wsm"@, "1"@, "handshake"@);
    }
    let method = build_method("wsm", "1", "handshake");
    let items: Vec<&str> = vec![client_id.as_str()];
    let params = build_params(&items);
    assert(string_views(params@) =~= seq![client_id@]);
    let msg_json = create_request_form_server_to_client(
        client_id.as_str(),
        msg_id.as_str(),
        method.as_str(),
        &params,
    );
    set_msg_json(pools, client_id.as_str(), msg_id.as_str(), msg_json.clone());
    register_client(clients, client_id.as_str());
    proof {
        assert(handshake_request_sent(p1, client_id@, msg_json@, pools@));
    }
    (msg_json, client_id)
}

/// Sends a request to the registered client `client_id`: a free message id is
/// registered in the client's pool with the request as its message, and
/// `callback_key` is recorded under that id. Gives back the request and its id.
pub fn server_request_client(
    pools: &mut Pools,
    clients: &Clients,
    callbacks: &mut Callbacks,
    client_id: &str,
    method: &str,
    version: &str,
    endpoint: &str,
    params: &Vec<String>,
    callback_key: &str,
) -> (r: (String, String))
    requires
        clients@.contains_key(client_id@),
        valid_client_id(client_id@),
        valid_method_name(method@),
        valid_version(version@),
        valid_endpoint(endpoint@),
        old(pools)@.contains_key(client_id@) ==> old(pools)@[client_id@].len() < pow36(5),
    ensures
        valid_id(r.1@),
        !has_msg_id(old(pools)@, client_id@, r.1@),
        r.0@ == request_text(
            "server"@,
            client_id@,
            r.1@,
            method_text(method@, version@, endpoint@),
            string_views(params@),
            'q',
        ),
        final(pools)@ == pools_after_request(old(pools)@, client_id@, r.1@, r.0@),
        final(callbacks)@ == old(callbacks)@.insert(r.1@, callback_key@),
{
    let msg_id = gen_unique_id(pools, client_id);
    add_msg_id(pools, client_id, msg_id.as_str());
    let full_method = build_method(method, version, endpoint);
    proof {
        lemma_built_method_is_valid(method@, version@, endpoint@);
    }
    let json = create_request_form_server_to_client(
        client_id,
        msg_id.as_str(),
        full_method.as_str(),
        params,
    );
    set_msg_json(pools, client_id, msg_id.as_str(), json.clone());
    callbacks.insert(msg_id.clone(), callback_key.to_owned());
    (json, msg_id)
}

} // verus!
