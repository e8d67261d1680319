//! New client ids and their message pools.
use vstd::prelude::*;
use crate::id::{gen_unique_id, pow36};
use crate::message::valid_id;
use crate::pool::{
    add_msg_id, create_pool, has_msg_id, spec_add_msg_id, spec_create_pool, Pools, PoolsView,
};

verus! {

/// The pool in which the ids of the clients are kept.
pub open spec fn client_pool() -> Seq<char> {
    "client"@
}

/// A new client id, free in the `client` pool and registered there.
pub fn new_client(pools: &mut Pools) -> (r: String)
    requires
        old(pools)@.contains_key(client_pool()) ==> old(pools)@[client_pool()].len() < pow36(5),
    ensures
        valid_id(r@),
        !has_msg_id(old(pools)@, client_pool(), r@),
        final(pools)@ == spec_add_msg_id(old(pools)@, client_pool(), r@),
{
    let pool_name = "client";
    let id = gen_unique_id(pools, pool_name);
    add_msg_id(pools, pool_name, id.as_str());
    id
}

/// Two clients created one after the other get different ids, once the `client`
/// pool exists: the first id is taken when the second is drawn.
pub proof fn lemma_client_ids_differ(p: PoolsView, first: Seq<char>, second: Seq<char>)
    requires
        p.contains_key(client_pool()),
        !has_msg_id(spec_add_msg_id(p, client_pool(), first), client_pool(), second),
    ensures
        first != second,
{
}

/// Creates the message pool for the client `client_id`.
pub fn new_client_msg_pool(pools: &mut Pools, client_id: &str)
    ensures
        final(pools)@ == spec_create_pool(old(pools)@, client_id@),
{
    create_pool(pools, client_id);
}

} // verus!
