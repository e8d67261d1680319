//! JSON text: strings and lists of strings as serde_json writes them, and JSON
//! values as serde_json reads them.
use vstd::prelude::*;
use crate::text::push_char;
use serde_json::Value;

verus! {

/// The lowercase hexadecimal digit for `d` (`0 <= d < 16`).
pub open spec fn hex_digit(d: int) -> char {
    seq!['0', '1', '2', '3', '4', '5', '6', '7', '8', '9', 'a', 'b', 'c', 'd', 'e', 'f'][d]
}

/// How one character is written inside a JSON string: `"` and `\` and the control
/// characters below U+0020 are escaped, every other character stands as it is.
pub open spec fn json_escape_char(c: char) -> Seq<char> {
    if c == '"' {
        seq!['\\', '"']
    } else if c == '\\' {
        seq!['\\', '\\']
    } else if c == '\x08' {
        seq!['\\', 'b']
    } else if c == '\t' {
        seq!['\\', 't']
    } else if c == '\n' {
        seq!['\\', 'n']
    } else if c == '\x0c' {
        seq!['\\', 'f']
    } else if c == '\r' {
        seq!['\\', 'r']
    } else if (c as int) < 0x20 {
        seq!['\\', 'u', '0', '0', hex_digit((c as int) / 16), hex_digit((c as int) % 16)]
    } else {
        seq![c]
    }
}

/// The escaped body of a JSON string.
pub open spec fn json_escape(s: Seq<char>) -> Seq<char>
    decreases s.len(),
{
    if s.len() == 0 {
        seq![]
    } else {
        json_escape(s.drop_last()) + json_escape_char(s.last())
    }
}

/// The JSON string literal for `s`, quotes included.
pub open spec fn json_string(s: Seq<char>) -> Seq<char> {
    seq!['"'] + json_escape(s) + seq!['"']
}

/// The items of a JSON array of strings, separated by commas.
pub open spec fn json_list_body(items: Seq<Seq<char>>) -> Seq<char>
    decreases items.len(),
{
    if items.len() == 0 {
        seq![]
    } else if items.len() == 1 {
        json_string(items[0])
    } else {
        json_list_body(items.drop_last()) + seq![','] + json_string(items.last())
    }
}

/// The compact JSON array of the strings `items`.
pub open spec fn json_string_array(items: Seq<Seq<char>>) -> Seq<char> {
    seq!['['] + json_list_body(items) + seq![']']
}

/// A JSON string body escapes text piece by piece: the body of a concatenation is
/// the concatenation of the bodies.
pub proof fn lemma_json_escape_concat(a: Seq<char>, b: Seq<char>)
    ensures
        json_escape(a + b) == json_escape(a) + json_escape(b),
    decreases b.len(),
{
    if b.len() == 0 {
        assert(a + b =~= a);
        assert(json_escape(a) + json_escape(b) =~= json_escape(a));
    } else {
        assert((a + b).drop_last() =~= a + b.drop_last());
        assert((a + b).last() == b.last());
        lemma_json_escape_concat(a, b.drop_last());
        assert(json_escape(a + b) =~= json_escape(a) + (json_escape(b.drop_last())
            + json_escape_char(b.last())));
    }
}

/// Only `"`, `\` and the characters below U+0020 are escaped; every other
/// character stands for itself, and an escape always starts with `\`.
pub proof fn lemma_json_escape_char_plain(c: char)
    ensures
        (c != '"' && c != '\\' && (c as int) >= 0x20) ==> json_escape_char(c) == seq![c],
        (c == '"' || c == '\\' || (c as int) < 0x20) ==> json_escape_char(c).len() >= 2
            && json_escape_char(c)[0] == '\\',
{
}

/// The items of a JSON array of strings are the JSON strings of the parts joined by
/// single commas: one item is its JSON string, and the body of two non-empty lists
/// put together is the body of the first, a comma, and the body of the second.
pub proof fn lemma_json_list_body_concat(a: Seq<Seq<char>>, b: Seq<Seq<char>>)
    requires
        a.len() > 0,
        b.len() > 0,
    ensures
        json_list_body(a + b) == json_list_body(a) + seq![','] + json_list_body(b),
        json_list_body(seq![a[0]]) == json_string(a[0]),
    decreases b.len(),
{
    assert(seq![a[0]].len() == 1);
    assert((a + b).drop_last() =~= a + b.drop_last());
    assert((a + b).last() == b.last());
    if b.len() == 1 {
        assert(a + b.drop_last() =~= a);
    } else {
        lemma_json_list_body_concat(a, b.drop_last());
        assert(json_list_body(a + b) =~= json_list_body(a) + seq![','] + (json_list_body(
            b.drop_last(),
        ) + seq![','] + json_string(b.last())));
    }
}

/// A JSON array of strings is its items' JSON strings, comma-separated, in brackets:
/// the array of one more item is the array so far with `,` and the new item's JSON
/// string before the closing bracket.
pub proof fn lemma_json_string_array_push(items: Seq<Seq<char>>, item: Seq<char>)
    ensures
        items.len() == 0 ==> json_string_array(items.push(item)) == seq!['['] + json_string(item)
            + seq![']'],
        items.len() > 0 ==> json_string_array(items.push(item)) == seq!['['] + json_list_body(
            items,
        ) + seq![','] + json_string(item) + seq![']'],
{
    assert(items.push(item).drop_last() =~= items);
    assert(items.push(item).last() == item);
    if items.len() == 0 {
        assert(items.push(item).len() == 1);
        assert(items.push(item)[0] == item);
    }
}

/// The views of a list of owned strings.
pub open spec fn string_views(v: Seq<String>) -> Seq<Seq<char>> {
    v.map_values(|s: String| s@)
}

/// `serde_json::to_string` on a string slice: the JSON string literal of `s`. Its
/// source writes a quote, each character escaped as `json_escape_char` says (only
/// `"`, `\` and the characters below U+0020 are escaped, the latter as `\b`, `\t`,
/// `\n`, `\f`, `\r` or `\u00xx` with lowercase hex), and a closing quote; writing
/// into a vector does not fail, so the error arm is never taken.
#[verifier::external_body]
pub(crate) fn json_quote(s: &str) -> (r: String)
    ensures
        r@ == json_string(s@),
{
    match serde_json::to_string(s) {
        Ok(text) => text,
        Err(_) => String::new(),
    }
}

/// Appends the JSON string literal of `s` to `out`.
pub fn push_json_string(out: &mut String, s: &str)
    ensures
        final(out)@ == old(out)@ + json_string(s@),
{
    let quoted = json_quote(s);
    out.append(quoted.as_str());
}

/// Appends the compact JSON array of the strings `items` to `out`.
pub fn push_json_string_array(out: &mut String, items: &Vec<String>)
    ensures
        final(out)@ == old(out)@ + json_string_array(string_views(items@)),
{
    let ghost start = out@;
    let ghost views = string_views(items@);
    push_char(out, '[');
    let n = items.len();
    let mut i: usize = 0;
    assert(views.take(0) =~= Seq::<Seq<char>>::empty());
    while i < n
        invariant
            n == items@.len(),
            views == string_views(items@),
            i <= n,
            out@ == start + seq!['['] + json_list_body(views.take(i as int)),
        decreases n - i,
    {
        if i > 0 {
            push_char(out, ',');
        }
        push_json_string(out, items[i].as_str());
        assert(views.take(i + 1).drop_last() =~= views.take(i as int));
        assert(views[i as int] == items@[i as int]@);
        if i == 0 {
            assert(views.take(1) =~= seq![views[0]]);
        }
        i = i + 1;
    }
    assert(views.take(n as int) =~= views);
    push_char(out, ']');
    assert(out@ =~= start + json_string_array(views));
}

/// A JSON value one level deep: scalars as they are, and the items of an array and
/// the members of an object each kept as its own compact JSON text.
pub enum Json {
    Null,
    Bool(bool),
    /// The number as serde_json writes it.
    Number(String),
    Str(String),
    /// The JSON text of each item, in order.
    Array(Vec<String>),
    /// Each member's key and the JSON text of its value, in serde_json's order.
    Object(Vec<(String, String)>),
}

/// What a `Json` value stands for.
pub enum JsonView {
    Null,
    Bool(bool),
    Number(Seq<char>),
    Str(Seq<char>),
    Array(Seq<Seq<char>>),
    Object(Seq<(Seq<char>, Seq<char>)>),
}

/// The keys and value texts of a list of object members.
pub open spec fn member_views(v: Seq<(String, String)>) -> Seq<(Seq<char>, Seq<char>)> {
    v.map_values(|m: (String, String)| (m.0@, m.1@))
}

impl DeepView for Json {
    type V = JsonView;

    open spec fn deep_view(&self) -> JsonView {
        match self {
            Json::Null => JsonView::Null,
            Json::Bool(b) => JsonView::Bool(*b),
            Json::Number(n) => JsonView::Number(n@),
            Json::Str(s) => JsonView::Str(s@),
            Json::Array(items) => JsonView::Array(string_views(items@)),
            Json::Object(members) => JsonView::Object(member_views(members@)),
        }
    }
}

fn copy_strings(v: &Vec<String>) -> (r: Vec<String>)
    ensures
        string_views(r@) == string_views(v@),
{
    let mut out: Vec<String> = Vec::new();
    let mut i: usize = 0;
    while i < v.len()
        invariant
            i <= v@.len(),
            out@.len() == i,
            forall|j: int| 0 <= j < i ==> #[trigger] out@[j]@ == v@[j]@,
        decreases v@.len() - i,
    {
        out.push(v[i].clone());
        i = i + 1;
    }
    assert(string_views(out@) =~= string_views(v@));
    out
}

fn copy_members(v: &Vec<(String, String)>) -> (r: Vec<(String, String)>)
    ensures
        member_views(r@) == member_views(v@),
{
    let mut out: Vec<(String, String)> = Vec::new();
    let mut i: usize = 0;
    while i < v.len()
        invariant
            i <= v@.len(),
            out@.len() == i,
            forall|j: int|
                0 <= j < i ==> #[trigger] out@[j].0@ == v@[j].0@ && out@[j].1@ == v@[j].1@,
        decreases v@.len() - i,
    {
        out.push((v[i].0.clone(), v[i].1.clone()));
        i = i + 1;
    }
    assert(member_views(out@) =~= member_views(v@));
    out
}

impl Clone for Json {
    fn clone(&self) -> (r: Self)
        ensures
            r.deep_view() == self.deep_view(),
    {
        match self {
            Json::Null => Json::Null,
            Json::Bool(b) => Json::Bool(*b),
            Json::Number(n) => Json::Number(n.clone()),
            Json::Str(s) => Json::Str(s.clone()),
            Json::Array(items) => Json::Array(copy_strings(items)),
            Json::Object(members) => Json::Object(copy_members(members)),
        }
    }
}

/// The value that the JSON text `text` holds, one level deep, as serde_json reads
/// it; `None` when the text is not JSON.
pub uninterp spec fn parsed_json(text: Seq<char>) -> Option<JsonView>;

/// `serde_json::from_str::<serde_json::Value>`, with the value moved one for one into
/// a `Json`: each variant into its namesake, a number into its text, and each array
/// item and object value into its compact JSON text (the value's `to_string`). The
/// contract names the result as a function of the text (`parsed_json`); on a parse
/// failure it hands back serde_json's error message, of which nothing is stated.
#[verifier::external_body]
pub(crate) fn parse_json(text: &str) -> (r: Result<Json, String>)
    ensures
        r is Err ==> parsed_json(text@) is None,
        r matches Ok(v) ==> parsed_json(text@) == Some(v.deep_view()),
{
    match serde_json::from_str::<Value>(text) {
        Ok(Value::Null) => Ok(Json::Null),
        Ok(Value::Bool(b)) => Ok(Json::Bool(b)),
        Ok(Value::Number(n)) => Ok(Json::Number(n.to_string())),
        Ok(Value::String(s)) => Ok(Json::Str(s)),
        Ok(Value::Array(a)) => Ok(Json::Array(a.iter().map(|x| x.to_string()).collect())),
        Ok(Value::Object(m)) => Ok(
            Json::Object(m.into_iter().map(|(k, x)| (k, x.to_string())).collect()),
        ),
        Err(e) => Err(e.to_string()),
    }
}

} // verus!
