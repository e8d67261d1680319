//! The pools that exist from the start.
use vstd::prelude::*;
use crate::pool::{create_pool, spec_create_pool, Pools};

verus! {

/// Creates the `server` and `client` pools.
pub fn setup(pools: &mut Pools)
    ensures
        final(pools)@ == spec_create_pool(spec_create_pool(old(pools)@, "server"@), "client"@),
{
    create_pool(pools, "server");
    create_pool(pools, "client");
}

} // verus!
