//! The fields of a received message that the protocol reads.
use vstd::prelude::*;
use crate::json::{member_views, parse_json, parsed_json, Json, JsonView};
use crate::text::str_eq;

verus! {

/// The payload object `p` of a received message: `r` and `c` hold the values of
/// those keys when they are strings.
pub struct Payload {
    pub r: Option<String>,
    pub c: Option<String>,
}

/// A received message: each field holds the value of its key when that value is a
/// string; `p` is present when the payload is an object.
pub struct WireMessage {
    pub i: Option<String>,
    pub f: Option<String>,
    pub t: Option<String>,
    pub p: Option<Payload>,
}

/// The text of an optional string.
pub open spec fn text_of(s: Option<String>) -> Option<Seq<char>> {
    match s {
        Some(s) => Some(s@),
        None => None,
    }
}

/// The fields of a received message as plain text: `i`, `f`, `t`, and the payload's
/// `r` and `c` when the payload is an object.
pub type WireFields = (
    Option<Seq<char>>,
    Option<Seq<char>>,
    Option<Seq<char>>,
    Option<(Option<Seq<char>>, Option<Seq<char>>)>,
);

/// The fields that a `WireMessage` holds.
pub open spec fn wire_fields(m: WireMessage) -> WireFields {
    (
        text_of(m.i),
        text_of(m.f),
        text_of(m.t),
        match m.p {
            Some(p) => Some((text_of(p.r), text_of(p.c))),
            None => None,
        },
    )
}

/// The value text of the first member of `members` with the key `key`.
pub open spec fn member_lookup(members: Seq<(Seq<char>, Seq<char>)>, key: Seq<char>) -> Option<
    Seq<char>,
>
    decreases members.len(),
{
    if members.len() == 0 {
        None
    } else if members[0].0 == key {
        Some(members[0].1)
    } else {
        member_lookup(members.drop_first(), key)
    }
}

/// The string held by the member `key` of an object, if that member is a string.
pub open spec fn string_member(members: Seq<(Seq<char>, Seq<char>)>, key: Seq<char>) -> Option<
    Seq<char>,
> {
    match member_lookup(members, key) {
        Some(text) => match parsed_json(text) {
            Some(JsonView::Str(s)) => Some(s),
            _ => None,
        },
        None => None,
    }
}

/// The fields that the protocol reads from a received JSON value: the strings under
/// `i`, `f` and `t`, and, when `p` is an object, the strings under its `r` and `c`.
/// A value that is not an object carries none of them.
pub open spec fn message_fields(v: JsonView) -> WireFields {
    match v {
        JsonView::Object(members) => (
            string_member(members, "i"@),
            string_member(members, "f"@),
            string_member(members, "t"@),
            match member_lookup(members, "p"@) {
                Some(text) => match parsed_json(text) {
                    Some(JsonView::Object(inner)) => Some(
                        (string_member(inner, "r"@), string_member(inner, "c"@)),
                    ),
                    _ => None,
                },
                None => None,
            },
        ),
        _ => (None, None, None, None),
    }
}

proof fn lemma_member_lookup_first(members: Seq<(Seq<char>, Seq<char>)>, key: Seq<char>, k: int)
    requires
        0 <= k < members.len(),
        members[k].0 == key,
        forall|j: int| 0 <= j < k ==> (#[trigger] members[j]).0 != key,
    ensures
        member_lookup(members, key) == Some(members[k].1),
    decreases k,
{
    if k > 0 {
        assert(members[0].0 != key);
        let rest = members.drop_first();
        assert forall|j: int| 0 <= j < k - 1 implies (#[trigger] rest[j]).0 != key by {
            assert(rest[j] == members[j + 1]);
        }
        lemma_member_lookup_first(rest, key, k - 1);
    }
}

proof fn lemma_member_lookup_absent(members: Seq<(Seq<char>, Seq<char>)>, key: Seq<char>)
    requires
        forall|j: int| 0 <= j < members.len() ==> (#[trigger] members[j]).0 != key,
    ensures
        member_lookup(members, key) is None,
    decreases members.len(),
{
    if members.len() > 0 {
        assert(members[0].0 != key);
        let rest = members.drop_first();
        assert forall|j: int| 0 <= j < rest.len() implies (#[trigger] rest[j]).0 != key by {
            assert(rest[j] == members[j + 1]);
        }
        lemma_member_lookup_absent(rest, key);
    }
}

/// The id, sender and receiver of a received object are read from the first member
/// under the keys `i`, `f` and `t` respectively, when that member is a JSON string.
pub proof fn lemma_message_fields_by_key(
    members: Seq<(Seq<char>, Seq<char>)>,
    k: int,
    s: Seq<char>,
)
    requires
        0 <= k < members.len(),
        forall|j: int| 0 <= j < k ==> (#[trigger] members[j]).0 != members[k].0,
        parsed_json(members[k].1) == Some(JsonView::Str(s)),
    ensures
        members[k].0 == "i"@ ==> message_fields(JsonView::Object(members)).0 == Some(s),
        members[k].0 == "f"@ ==> message_fields(JsonView::Object(members)).1 == Some(s),
        members[k].0 == "t"@ ==> message_fields(JsonView::Object(members)).2 == Some(s),
{
    lemma_member_lookup_first(members, members[k].0, k);
}

/// A received object without a member under `i`, `f` or `t` carries no id, sender
/// or receiver respectively, and one without `p` carries no payload.
pub proof fn lemma_message_fields_absent(members: Seq<(Seq<char>, Seq<char>)>, key: Seq<char>)
    requires
        forall|j: int| 0 <= j < members.len() ==> (#[trigger] members[j]).0 != key,
    ensures
        key == "i"@ ==> message_fields(JsonView::Object(members)).0 is None,
        key == "f"@ ==> message_fields(JsonView::Object(members)).1 is None,
        key == "t"@ ==> message_fields(JsonView::Object(members)).2 is None,
        key == "p"@ ==> message_fields(JsonView::Object(members)).3 is None,
{
    lemma_member_lookup_absent(members, key);
}

/// The payload of a received object is read from its first member under `p` when
/// that member is an object; its result and content from that object's first
/// members under `r` and `c`, when they are JSON strings.
pub proof fn lemma_payload_fields_by_key(
    members: Seq<(Seq<char>, Seq<char>)>,
    k: int,
    inner: Seq<(Seq<char>, Seq<char>)>,
    n: int,
    s: Seq<char>,
)
    requires
        0 <= k < members.len(),
        members[k].0 == "p"@,
        forall|j: int| 0 <= j < k ==> (#[trigger] members[j]).0 != "p"@,
        parsed_json(members[k].1) == Some(JsonView::Object(inner)),
        0 <= n < inner.len(),
        forall|j: int| 0 <= j < n ==> (#[trigger] inner[j]).0 != inner[n].0,
        parsed_json(inner[n].1) == Some(JsonView::Str(s)),
    ensures
        message_fields(JsonView::Object(members)).3 matches Some(pl) && {
            &&& inner[n].0 == "r"@ ==> pl.0 == Some(s)
            &&& inner[n].0 == "c"@ ==> pl.1 == Some(s)
        },
{
    lemma_member_lookup_first(members, "p"@, k);
    lemma_member_lookup_first(inner, inner[n].0, n);
}

/// The value text of the first member with the key `key`.
fn find_member<'a>(members: &'a Vec<(String, String)>, key: &str) -> (r: Option<&'a String>)
    ensures
        r matches Some(t) ==> member_lookup(member_views(members@), key@) == Some(t@),
        r is None ==> member_lookup(member_views(members@), key@) is None,
{
    let ghost views = member_views(members@);
    let mut i: usize = 0;
    assert(views.skip(0) =~= views);
    while i < members.len()
        invariant
            views == member_views(members@),
            i <= members@.len(),
            member_lookup(views, key@) == member_lookup(views.skip(i as int), key@),
        decreases members@.len() - i,
    {
        assert(views.skip(i as int)[0] == (members@[i as int].0@, members@[i as int].1@));
        if str_eq(members[i].0.as_str(), key) {
            return Some(&members[i].1);
        }
        assert(views.skip(i as int).drop_first() =~= views.skip(i + 1));
        i = i + 1;
    }
    assert(views.skip(i as int).len() == 0);
    None
}

/// The string held by the member `key` of an object, if that member is a string.
fn find_string_member(members: &Vec<(String, String)>, key: &str) -> (r: Option<String>)
    ensures
        text_of(r) == string_member(member_views(members@), key@),
{
    match find_member(members, key) {
        Some(text) => match parse_json(text.as_str()) {
            Ok(Json::Str(s)) => Some(s),
            _ => None,
        },
        None => None,
    }
}

/// The fields of a received JSON value that the protocol reads.
pub fn wire_message(v: &Json) -> (m: WireMessage)
    ensures
        wire_fields(m) == message_fields(v.deep_view()),
{
    match v {
        Json::Object(members) => {
            let p = match find_member(members, "p") {
                Some(text) => match parse_json(text.as_str()) {
                    Ok(Json::Object(inner)) => Some(
                        Payload {
                            r: find_string_member(&inner, "r"),
                            c: find_string_member(&inner, "c"),
                        },
                    ),
                    _ => None,
                },
                None => None,
            };
            WireMessage {
                i: find_string_member(members, "i"),
                f: find_string_member(members, "f"),
                t: find_string_member(members, "t"),
                p,
            }
        },
        _ => WireMessage { i: None, f: None, t: None, p: None },
    }
}

} // verus!
