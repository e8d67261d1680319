//! Message pools: named pools, each mapping message ids to the message sent under
//! that id once it is known.
use vstd::prelude::*;
use vstd::string::*;
use crate::json::string_views;
use crate::strmap::StrMap;
use crate::text::{all_in_class, class_allows, lemma_class_members, str_in_class, CharClass};

verus! {

/// One pool: message id to the message stored under it, if any yet.
pub type MsgPool = StrMap<Option<String>>;

/// All pools by name.
pub type Pools = StrMap<MsgPool>;

/// What a set of pools stands for.
pub type PoolsView = Map<Seq<char>, Map<Seq<char>, Option<Seq<char>>>>;

/// A pool name: only `A-Z`, `a-z` and `0-9` (the empty name included).
pub open spec fn valid_pool_name(name: Seq<char>) -> bool {
    all_in_class(name, CharClass::Alphanumeric)
}

/// `id` is registered in the pool `pool`.
pub open spec fn has_msg_id(p: PoolsView, pool: Seq<char>, id: Seq<char>) -> bool {
    p.contains_key(pool) && p[pool].contains_key(id)
}

pub open spec fn spec_create_pool(p: PoolsView, name: Seq<char>) -> PoolsView {
    if valid_pool_name(name) && !p.contains_key(name) {
        p.insert(name, Map::empty())
    } else {
        p
    }
}

pub open spec fn spec_delete_pool(p: PoolsView, name: Seq<char>) -> PoolsView {
    p.remove(name)
}

pub open spec fn spec_add_msg_id(p: PoolsView, pool: Seq<char>, id: Seq<char>) -> PoolsView {
    if p.contains_key(pool) && !p[pool].contains_key(id) {
        p.insert(pool, p[pool].insert(id, None))
    } else {
        p
    }
}

pub open spec fn spec_set_msg_json(
    p: PoolsView,
    pool: Seq<char>,
    id: Seq<char>,
    json: Seq<char>,
) -> PoolsView {
    if has_msg_id(p, pool, id) && p[pool][id] is None {
        p.insert(pool, p[pool].insert(id, Some(json)))
    } else {
        p
    }
}

pub open spec fn spec_remove_msg_id(p: PoolsView, pool: Seq<char>, id: Seq<char>) -> PoolsView {
    if p.contains_key(pool) {
        p.insert(pool, p[pool].remove(id))
    } else {
        p
    }
}

pub open spec fn spec_msg_count(p: PoolsView, pool: Seq<char>) -> nat {
    if p.contains_key(pool) {
        p[pool].len()
    } else {
        0
    }
}

pub open spec fn spec_get_msg_json(p: PoolsView, pool: Seq<char>, id: Seq<char>) -> Option<Seq<char>> {
    if has_msg_id(p, pool, id) {
        p[pool][id]
    } else {
        None
    }
}

/// The ids registered in `pool` (none when the pool does not exist).
pub open spec fn spec_msg_ids(p: PoolsView, pool: Seq<char>) -> Set<Seq<char>> {
    if p.contains_key(pool) {
        p[pool].dom()
    } else {
        Set::empty()
    }
}

/// An empty set of pools.
pub fn new_pools() -> (r: Pools)
    ensures
        r@ == PoolsView::empty(),
{
    StrMap::new()
}

/// Creates an empty pool named `name`, unless the name holds a character other than
/// `A-Z`, `a-z`, `0-9` or a pool of that name exists.
pub fn create_pool(pools: &mut Pools, name: &str)
    ensures
        final(pools)@ == spec_create_pool(old(pools)@, name@),
{
    if !str_in_class(name, CharClass::Alphanumeric) {
        return ;
    }
    if pools.contains_key(name) {
        return ;
    }
    pools.insert(name.to_owned(), StrMap::new());
}

/// Deletes the pool named `name`, if it exists.
pub fn delete_pool(pools: &mut Pools, name: &str)
    ensures
        final(pools)@ == spec_delete_pool(old(pools)@, name@),
{
    let _ = pools.remove(name);
}

/// Registers `msg_id` in the pool `pool_name` with no message yet, unless the pool
/// does not exist or already holds that id.
pub fn add_msg_id(pools: &mut Pools, pool_name: &str, msg_id: &str)
    ensures
        final(pools)@ == spec_add_msg_id(old(pools)@, pool_name@, msg_id@),
{
    let ghost p = pools@;
    match pools.remove(pool_name) {
        Some(mut pool) => {
            if !pool.contains_key(msg_id) {
                pool.insert(msg_id.to_owned(), None);
            }
            pools.insert(pool_name.to_owned(), pool);
            assert(pools@ =~= spec_add_msg_id(p, pool_name@, msg_id@));
        },
        None => {},
    }
}

/// Stores `json` as the message of `msg_id` in the pool `pool_name`, provided the id
/// is registered there and has no message yet.
pub fn set_msg_json(pools: &mut Pools, pool_name: &str, msg_id: &str, json: String)
    ensures
        final(pools)@ == spec_set_msg_json(old(pools)@, pool_name@, msg_id@, json@),
{
    let ghost p = pools@;
    match pools.remove(pool_name) {
        Some(mut pool) => {
            let pending = match pool.get(msg_id) {
                Some(entry) => entry.is_none(),
                None => false,
            };
            if pending {
                pool.insert(msg_id.to_owned(), Some(json));
            }
            pools.insert(pool_name.to_owned(), pool);
            assert(pools@ =~= spec_set_msg_json(p, pool_name@, msg_id@, json@));
        },
        None => {},
    }
}

/// Removes `msg_id` from the pool `pool_name`, if the pool exists.
pub fn remove_msg_id(pools: &mut Pools, pool_name: &str, msg_id: &str)
    ensures
        final(pools)@ == spec_remove_msg_id(old(pools)@, pool_name@, msg_id@),
{
    let ghost p = pools@;
    match pools.remove(pool_name) {
        Some(mut pool) => {
            let _ = pool.remove(msg_id);
            pools.insert(pool_name.to_owned(), pool);
            assert(pools@ =~= spec_remove_msg_id(p, pool_name@, msg_id@));
        },
        None => {},
    }
}

/// The number of ids in the pool `pool_name` (0 when it does not exist).
pub fn msg_count(pools: &Pools, pool_name: &str) -> (r: usize)
    ensures
        r == spec_msg_count(pools@, pool_name@),
{
    match pools.get(pool_name) {
        Some(pool) => pool.len(),
        None => 0,
    }
}

/// The message stored under `msg_id` in the pool `pool_name`, if there is one.
pub fn get_msg_json(pools: &Pools, pool_name: &str, msg_id: &str) -> (r: Option<String>)
    ensures
        r matches Some(s) ==> spec_get_msg_json(pools@, pool_name@, msg_id@) == Some(s@),
        r is None ==> spec_get_msg_json(pools@, pool_name@, msg_id@) is None,
{
    match pools.get(pool_name) {
        Some(pool) => match pool.get(msg_id) {
            Some(Some(json)) => Some(json.clone()),
            _ => None,
        },
        None => None,
    }
}

/// Whether `msg_id` is free in the pool `pool_name` (every id is free in a pool that
/// does not exist).
pub fn is_msg_id_available(pools: &Pools, pool_name: &str, msg_id: &str) -> (r: bool)
    ensures
        r == !has_msg_id(pools@, pool_name@, msg_id@),
{
    match pools.get(pool_name) {
        Some(pool) => !pool.contains_key(msg_id),
        None => true,
    }
}

/// The ids in the pool `pool_name`, each once, in no promised order.
pub fn list_msg_id(pools: &Pools, pool_name: &str) -> (r: Vec<String>)
    ensures
        string_views(r@).no_duplicates(),
        string_views(r@).to_set() == spec_msg_ids(pools@, pool_name@),
        r@.len() == spec_msg_count(pools@, pool_name@),
{
    match pools.get(pool_name) {
        Some(pool) => pool.keys(),
        None => {
            let r: Vec<String> = Vec::new();
            assert(string_views(r@).to_set() =~= Set::<Seq<char>>::empty());
            r
        },
    }
}

/// Once added to an existing pool, an id is no longer available there.
pub proof fn lemma_added_id_is_taken(p: PoolsView, pool: Seq<char>, id: Seq<char>)
    requires
        p.contains_key(pool),
    ensures
        has_msg_id(spec_add_msg_id(p, pool, id), pool, id),
{
}

/// Adding a fresh id to an existing pool and removing it again restores the pools.
pub proof fn lemma_add_then_remove(p: PoolsView, pool: Seq<char>, id: Seq<char>)
    requires
        p.contains_key(pool),
        !p[pool].contains_key(id),
    ensures
        spec_remove_msg_id(spec_add_msg_id(p, pool, id), pool, id) == p,
{
    assert(p[pool].insert(id, None).remove(id) =~= p[pool]);
    assert(p.insert(pool, p[pool]) =~= p);
}

/// A message stored under a pending id is what reading that id gives back.
pub proof fn lemma_set_then_get(p: PoolsView, pool: Seq<char>, id: Seq<char>, json: Seq<char>)
    requires
        has_msg_id(p, pool, id),
        p[pool][id] is None,
    ensures
        spec_get_msg_json(spec_set_msg_json(p, pool, id, json), pool, id) == Some(json),
{
}

/// A message, once stored, is never overwritten.
pub proof fn lemma_set_is_write_once(
    p: PoolsView,
    pool: Seq<char>,
    id: Seq<char>,
    first: Seq<char>,
    second: Seq<char>,
)
    requires
        has_msg_id(p, pool, id),
        p[pool][id] is None,
    ensures
        spec_get_msg_json(
            spec_set_msg_json(spec_set_msg_json(p, pool, id, first), pool, id, second),
            pool,
            id,
        ) == Some(first),
{
}

/// Creating a pool twice is the same as creating it once.
pub proof fn lemma_create_idempotent(p: PoolsView, name: Seq<char>)
    ensures
        spec_create_pool(spec_create_pool(p, name), name) == spec_create_pool(p, name),
{
}

/// After a pool is deleted every id is free in it and it counts no ids.
pub proof fn lemma_deleted_pool_is_empty(p: PoolsView, pool: Seq<char>, id: Seq<char>)
    ensures
        !has_msg_id(spec_delete_pool(p, pool), pool, id),
        spec_msg_count(spec_delete_pool(p, pool), pool) == 0,
{
}

/// Adding a fresh id to an existing pool raises its count by one.
pub proof fn lemma_add_counts_one(p: PoolsView, pool: Seq<char>, id: Seq<char>)
    requires
        p.contains_key(pool),
        p[pool].dom().finite(),
        !p[pool].contains_key(id),
    ensures
        spec_msg_count(spec_add_msg_id(p, pool, id), pool) == spec_msg_count(p, pool) + 1,
{
}

/// Adding and removing ids in one pool leaves every other pool as it was.
pub proof fn lemma_pools_are_separate(p: PoolsView, pool: Seq<char>, other: Seq<char>, id: Seq<char>)
    requires
        pool != other,
    ensures
        spec_add_msg_id(p, pool, id).contains_key(other) == p.contains_key(other),
        spec_remove_msg_id(p, pool, id).contains_key(other) == p.contains_key(other),
        p.contains_key(other) ==> spec_add_msg_id(p, pool, id)[other] == p[other],
        p.contains_key(other) ==> spec_remove_msg_id(p, pool, id)[other] == p[other],
{
}

/// A pool name is text over `A-Z`, `a-z` and `0-9`, the empty name included.
pub proof fn lemma_pool_name_by_chars(name: Seq<char>)
    ensures
        valid_pool_name(name) <==> forall|i: int|
            0 <= i < name.len() ==> ('A' <= #[trigger] name[i] && name[i] <= 'Z') || ('a'
                <= name[i] && name[i] <= 'z') || ('0' <= name[i] && name[i] <= '9'),
{
    assert forall|i: int| 0 <= i < name.len() implies class_allows(
        CharClass::Alphanumeric,
        #[trigger] name[i],
    ) <==> (('A' <= name[i] && name[i] <= 'Z') || ('a' <= name[i] && name[i] <= 'z') || ('0'
        <= name[i] && name[i] <= '9')) by {
        lemma_class_members(name[i]);
    }
}

/// Removing an id from an existing pool frees it there, whatever message it held,
/// and leaves every other id of the pool, with its message, as it was.
pub proof fn lemma_removed_id_is_free(p: PoolsView, pool: Seq<char>, id: Seq<char>, other: Seq<char>)
    requires
        p.contains_key(pool),
        other != id,
    ensures
        spec_remove_msg_id(p, pool, id).contains_key(pool),
        !has_msg_id(spec_remove_msg_id(p, pool, id), pool, id),
        spec_get_msg_json(spec_remove_msg_id(p, pool, id), pool, id) is None,
        has_msg_id(spec_remove_msg_id(p, pool, id), pool, other) == has_msg_id(p, pool, other),
        spec_get_msg_json(spec_remove_msg_id(p, pool, id), pool, other) == spec_get_msg_json(
            p,
            pool,
            other,
        ),
{
}

/// Removing a registered id from a pool lowers its count by one.
pub proof fn lemma_remove_counts_one(p: PoolsView, pool: Seq<char>, id: Seq<char>)
    requires
        has_msg_id(p, pool, id),
        p[pool].dom().finite(),
    ensures
        spec_msg_count(spec_remove_msg_id(p, pool, id), pool) + 1 == spec_msg_count(p, pool),
{
}

/// A message stored under an id and the id then removed: the id is free again and
/// reading it gives nothing.
pub proof fn lemma_store_then_remove(p: PoolsView, pool: Seq<char>, id: Seq<char>, json: Seq<char>)
    requires
        p.contains_key(pool),
    ensures
        !has_msg_id(spec_remove_msg_id(spec_set_msg_json(p, pool, id, json), pool, id), pool, id),
        spec_get_msg_json(
            spec_remove_msg_id(spec_set_msg_json(p, pool, id, json), pool, id),
            pool,
            id,
        ) is None,
{
}

} // verus!
