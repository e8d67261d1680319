//! The registry of connected clients and the metadata fields, JSON values, kept for
//! each.
use vstd::prelude::*;
use vstd::string::*;
use crate::json::{Json, JsonView};
use crate::strmap::StrMap;

verus! {

/// The metadata fields of one client.
pub type ClientMeta = StrMap<Json>;

/// All connected clients by id.
pub type Clients = StrMap<ClientMeta>;

/// What the client registry stands for.
pub type ClientsView = Map<Seq<char>, Map<Seq<char>, JsonView>>;

/// The field that a new client starts with, set to `true`.
pub open spec fn wait_for_response_key() -> Seq<char> {
    "wsm:wait-for-response"@
}

/// The metadata a newly registered client starts with.
pub open spec fn initial_meta() -> Map<Seq<char>, JsonView> {
    Map::empty().insert(wait_for_response_key(), JsonView::Bool(true))
}

pub open spec fn spec_register_client(c: ClientsView, id: Seq<char>) -> ClientsView {
    if c.contains_key(id) {
        c
    } else {
        c.insert(id, initial_meta())
    }
}

pub open spec fn spec_unregister_client(c: ClientsView, id: Seq<char>) -> ClientsView {
    c.remove(id)
}

pub open spec fn spec_set_client_field(
    c: ClientsView,
    id: Seq<char>,
    key: Seq<char>,
    value: JsonView,
) -> ClientsView {
    if c.contains_key(id) {
        c.insert(id, c[id].insert(key, value))
    } else {
        c
    }
}

pub open spec fn spec_get_client_field(c: ClientsView, id: Seq<char>, key: Seq<char>) -> Option<
    JsonView,
> {
    if c.contains_key(id) && c[id].contains_key(key) {
        Some(c[id][key])
    } else {
        None
    }
}

/// An empty client registry.
pub fn new_clients() -> (r: Clients)
    ensures
        r@ == ClientsView::empty(),
{
    StrMap::new()
}

/// Registers `client_id` with its initial metadata, unless it is registered already.
pub fn register_client(clients: &mut Clients, client_id: &str)
    ensures
        final(clients)@ == spec_register_client(old(clients)@, client_id@),
{
    if clients.contains_key(client_id) {
        return ;
    }
    let mut meta: ClientMeta = StrMap::new();
    meta.insert("wsm:wait-for-response".to_owned(), Json::Bool(true));
    clients.insert(client_id.to_owned(), meta);
}

/// Removes `client_id` from the registry.
pub fn unregister_client(clients: &mut Clients, client_id: &str)
    ensures
        final(clients)@ == spec_unregister_client(old(clients)@, client_id@),
{
    let _ = clients.remove(client_id);
}

/// Whether `client_id` is registered.
pub fn is_client_valid(clients: &Clients, client_id: &str) -> (r: bool)
    ensures
        r == clients@.contains_key(client_id@),
{
    clients.contains_key(client_id)
}

/// Sets the field `key` of a registered client to `value`; does nothing for an
/// unknown client.
pub fn set_client_field(clients: &mut Clients, client_id: &str, key: &str, value: Json)
    ensures
        final(clients)@ == spec_set_client_field(
            old(clients)@,
            client_id@,
            key@,
            value.deep_view(),
        ),
{
    let ghost c = clients@;
    match clients.remove(client_id) {
        Some(mut meta) => {
            meta.insert(key.to_owned(), value);
            clients.insert(client_id.to_owned(), meta);
            assert(clients@ =~= spec_set_client_field(c, client_id@, key@, value.deep_view()));
        },
        None => {},
    }
}

/// The field `key` of the client `client_id`, if both exist.
pub fn get_client_field(clients: &Clients, client_id: &str, key: &str) -> (r: Option<Json>)
    ensures
        r matches Some(v) ==> spec_get_client_field(clients@, client_id@, key@) == Some(
            v.deep_view(),
        ),
        r is None ==> spec_get_client_field(clients@, client_id@, key@) is None,
{
    match clients.get(client_id) {
        Some(meta) => match meta.get(key) {
            Some(v) => Some(v.clone()),
            None => None,
        },
        None => None,
    }
}

/// A registered client is valid, and stays registered when it registers again.
pub proof fn lemma_register_makes_valid(c: ClientsView, id: Seq<char>)
    ensures
        spec_register_client(c, id).contains_key(id),
        spec_register_client(spec_register_client(c, id), id) == spec_register_client(c, id),
{
}

/// Registering keeps the metadata of a client that is registered already.
pub proof fn lemma_register_keeps_meta(c: ClientsView, id: Seq<char>)
    requires
        c.contains_key(id),
    ensures
        spec_register_client(c, id) == c,
{
}

/// An unregistered client is no longer valid and has no fields.
pub proof fn lemma_unregister_makes_invalid(c: ClientsView, id: Seq<char>, key: Seq<char>)
    ensures
        !spec_unregister_client(c, id).contains_key(id),
        spec_get_client_field(spec_unregister_client(c, id), id, key) is None,
{
}

/// A field set on a registered client reads back as the value set.
pub proof fn lemma_set_then_get_field(c: ClientsView, id: Seq<char>, key: Seq<char>, v: JsonView)
    requires
        c.contains_key(id),
    ensures
        spec_get_client_field(spec_set_client_field(c, id, key, v), id, key) == Some(v),
{
}

/// Setting a field of one client leaves every other client as it was.
pub proof fn lemma_set_field_is_local(
    c: ClientsView,
    id: Seq<char>,
    other: Seq<char>,
    key: Seq<char>,
    v: JsonView,
)
    requires
        id != other,
    ensures
        spec_set_client_field(c, id, key, v).contains_key(other) == c.contains_key(other),
        c.contains_key(other) ==> spec_set_client_field(c, id, key, v)[other] == c[other],
{
}

} // verus!
