//! The wire form of protocol messages.
//!
//! A message is a compact JSON object whose keys stand in sorted order:
//! `f` (sender), `i` (message id), `m` (method, requests and events), `p` (payload:
//! the parameter array of a request or event, or `{"c": content, "r": "s" | "f"}`
//! for a response), `t` (receiver) and `y` (kind: `q` request, `e` event,
//! `r` response). The server is written `s` in `f` and `t`.
use vstd::prelude::*;
use vstd::string::*;
use crate::json::{json_escape, json_escape_char, json_string, json_string_array, push_json_string, push_json_string_array, string_views};
use crate::text::{all_in_class, push_char, str_eq, CharClass};
use crate::wsa::validate_id;

verus! {

/// An id: exactly five characters from `a-z` and `0-9`.
pub open spec fn valid_id(s: Seq<char>) -> bool {
    s.len() == 5 && all_in_class(s, CharClass::LowerOrDigit)
}

/// A party of a message: the server, all clients, or one client by its id.
pub open spec fn valid_party(s: Seq<char>) -> bool {
    s == "server"@ || s == "client"@ || valid_id(s)
}

/// How a party is written in the `f` and `t` fields.
pub open spec fn party_code(p: Seq<char>) -> Seq<char> {
    if p == "server"@ {
        seq!['s']
    } else {
        p
    }
}

/// `"k":` for a one-letter key `k`.
pub open spec fn key(k: char) -> Seq<char> {
    seq!['"', k, '"', ':']
}

/// The JSON string literal of a single character.
pub open spec fn quoted_char(c: char) -> Seq<char> {
    seq!['"', c, '"']
}

/// A request (`kind` `q`) or event (`kind` `e`) from `from` to `to`.
pub open spec fn request_text(
    from: Seq<char>,
    to: Seq<char>,
    msg_id: Seq<char>,
    method: Seq<char>,
    params: Seq<Seq<char>>,
    kind: char,
) -> Seq<char> {
    seq!['{'] + key('f') + json_string(party_code(from)) + seq![','] + key('i') + json_string(msg_id)
        + seq![','] + key('m') + json_string(method) + seq![','] + key('p') + json_string_array(
        params,
    ) + seq![','] + key('t') + json_string(party_code(to)) + seq![','] + key('y') + quoted_char(kind)
        + seq!['}']
}

/// A response from `from` to `to`: `success` is written `"s"`, failure `"f"`.
pub open spec fn response_text(
    from: Seq<char>,
    to: Seq<char>,
    msg_id: Seq<char>,
    success: bool,
    content: Seq<char>,
) -> Seq<char> {
    seq!['{'] + key('f') + json_string(party_code(from)) + seq![','] + key('i') + json_string(msg_id)
        + seq![','] + key('p') + seq!['{'] + key('c') + json_string(content) + seq![','] + key('r')
        + quoted_char(if success { 's' } else { 'f' }) + seq!['}'] + seq![','] + key('t')
        + json_string(party_code(to)) + seq![','] + key('y') + quoted_char('r') + seq!['}']
}

/// The members of a compact JSON object with one-letter keys, each written `"k":`
/// followed by its value's JSON text, separated by commas.
pub open spec fn json_members(ms: Seq<(char, Seq<char>)>) -> Seq<char>
    decreases ms.len(),
{
    if ms.len() == 0 {
        seq![]
    } else if ms.len() == 1 {
        key(ms[0].0) + ms[0].1
    } else {
        json_members(ms.drop_last()) + seq![','] + key(ms.last().0) + ms.last().1
    }
}

/// The compact JSON object with the members `ms`, in their order.
pub open spec fn json_object(ms: Seq<(char, Seq<char>)>) -> Seq<char> {
    seq!['{'] + json_members(ms) + seq!['}']
}

/// The keys of `ms` stand in strictly ascending order.
pub open spec fn keys_ascending(ms: Seq<(char, Seq<char>)>) -> bool {
    forall|i: int, j: int| 0 <= i < j < ms.len() ==> (#[trigger] ms[i]).0 < (#[trigger] ms[j]).0
}

/// The members of a request or event, in the order they are written.
pub open spec fn request_members(
    from: Seq<char>,
    to: Seq<char>,
    msg_id: Seq<char>,
    method: Seq<char>,
    params: Seq<Seq<char>>,
    kind: char,
) -> Seq<(char, Seq<char>)> {
    seq![
        ('f', json_string(party_code(from))),
        ('i', json_string(msg_id)),
        ('m', json_string(method)),
        ('p', json_string_array(params)),
        ('t', json_string(party_code(to))),
        ('y', json_string(seq![kind])),
    ]
}

/// The members of a response, in the order they are written.
pub open spec fn response_members(
    from: Seq<char>,
    to: Seq<char>,
    msg_id: Seq<char>,
    success: bool,
    content: Seq<char>,
) -> Seq<(char, Seq<char>)> {
    seq![
        ('f', json_string(party_code(from))),
        ('i', json_string(msg_id)),
        (
            'p',
            json_object(
                seq![
                    ('c', json_string(content)),
                    ('r', json_string(seq![if success { 's' } else { 'f' }])),
                ],
            ),
        ),
        ('t', json_string(party_code(to))),
        ('y', json_string(seq!['r'])),
    ]
}

proof fn lemma_json_string_one_letter(c: char)
    requires
        'a' <= c <= 'z',
    ensures
        json_string(seq![c]) == quoted_char(c),
{
    let s = seq![c];
    assert(s.drop_last() =~= Seq::<char>::empty());
    assert(s.last() == c);
    assert(json_escape(Seq::<char>::empty()) =~= Seq::<char>::empty());
    assert(json_escape_char(c) =~= seq![c]);
    assert(json_escape(s) =~= seq![c]);
    assert(json_string(s) =~= quoted_char(c));
}

proof fn lemma_members_push(ms: Seq<(char, Seq<char>)>, m: (char, Seq<char>))
    requires
        ms.len() > 0,
    ensures
        json_members(ms.push(m)) == json_members(ms) + seq![','] + key(m.0) + m.1,
{
    assert(ms.push(m).drop_last() =~= ms);
    assert(ms.push(m).last() == m);
}

proof fn lemma_members_of(ms: Seq<(char, Seq<char>)>)
    requires
        2 <= ms.len() <= 6,
    ensures
        ms.len() == 2 ==> json_members(ms) == key(ms[0].0) + ms[0].1 + seq![','] + key(ms[1].0)
            + ms[1].1,
        ms.len() == 5 ==> json_members(ms) == key(ms[0].0) + ms[0].1 + seq![','] + key(ms[1].0)
            + ms[1].1 + seq![','] + key(ms[2].0) + ms[2].1 + seq![','] + key(ms[3].0) + ms[3].1
            + seq![','] + key(ms[4].0) + ms[4].1,
        ms.len() == 6 ==> json_members(ms) == key(ms[0].0) + ms[0].1 + seq![','] + key(ms[1].0)
            + ms[1].1 + seq![','] + key(ms[2].0) + ms[2].1 + seq![','] + key(ms[3].0) + ms[3].1
            + seq![','] + key(ms[4].0) + ms[4].1 + seq![','] + key(ms[5].0) + ms[5].1,
{
    let m1 = seq![ms[0]];
    let m2 = m1.push(ms[1]);
    assert(json_members(m1) == key(ms[0].0) + ms[0].1);
    lemma_members_push(m1, ms[1]);
    if ms.len() == 2 {
        assert(ms =~= m2);
    }
    if ms.len() >= 5 {
        let m3 = m2.push(ms[2]);
        let m4 = m3.push(ms[3]);
        let m5 = m4.push(ms[4]);
        lemma_members_push(m2, ms[2]);
        lemma_members_push(m3, ms[3]);
        lemma_members_push(m4, ms[4]);
        if ms.len() == 5 {
            assert(ms =~= m5);
            assert(json_members(ms) =~= key(ms[0].0) + ms[0].1 + seq![','] + key(ms[1].0)
                + ms[1].1 + seq![','] + key(ms[2].0) + ms[2].1 + seq![','] + key(ms[3].0) + ms[3].1
                + seq![','] + key(ms[4].0) + ms[4].1);
        } else {
            let m6 = m5.push(ms[5]);
            lemma_members_push(m5, ms[5]);
            assert(ms =~= m6);
            assert(json_members(ms) =~= key(ms[0].0) + ms[0].1 + seq![','] + key(ms[1].0)
                + ms[1].1 + seq![','] + key(ms[2].0) + ms[2].1 + seq![','] + key(ms[3].0) + ms[3].1
                + seq![','] + key(ms[4].0) + ms[4].1 + seq![','] + key(ms[5].0) + ms[5].1);
        }
    }
}

/// A request or event is the compact JSON object of its sender `f`, id `i`,
/// method `m`, parameter array `p`, receiver `t` (the server written `s`) and kind
/// `y`, each a JSON string but `p`, with the keys in ascending order.
pub proof fn lemma_request_is_json_object(
    from: Seq<char>,
    to: Seq<char>,
    msg_id: Seq<char>,
    method: Seq<char>,
    params: Seq<Seq<char>>,
    kind: char,
)
    requires
        'a' <= kind <= 'z',
    ensures
        request_text(from, to, msg_id, method, params, kind) == json_object(
            request_members(from, to, msg_id, method, params, kind),
        ),
        keys_ascending(request_members(from, to, msg_id, method, params, kind)),
{
    let ms = request_members(from, to, msg_id, method, params, kind);
    lemma_json_string_one_letter(kind);
    lemma_members_of(ms);
    let f = json_string(party_code(from));
    let i = json_string(msg_id);
    let m = json_string(method);
    let p = json_string_array(params);
    let t = json_string(party_code(to));
    let y = quoted_char(kind);
    assert(request_text(from, to, msg_id, method, params, kind) == seq!['{'] + key('f') + f
        + seq![','] + key('i') + i + seq![','] + key('m') + m + seq![','] + key('p') + p + seq![',']
        + key('t') + t + seq![','] + key('y') + y + seq!['}']);
    assert(json_object(ms) =~= seq!['{'] + key('f') + f + seq![','] + key('i') + i + seq![',']
        + key('m') + m + seq![','] + key('p') + p + seq![','] + key('t') + t + seq![','] + key('y')
        + y + seq!['}']);
}

/// A response is the compact JSON object of its sender `f`, id `i`, payload `p`,
/// receiver `t` (the server written `s`) and kind `y` = `r`, where the payload is the
/// object of the content `c` and the result `r` (`s` for success, `f` for failure);
/// the keys of both objects stand in ascending order.
#[verifier::rlimit(50)]
pub proof fn lemma_response_is_json_object(
    from: Seq<char>,
    to: Seq<char>,
    msg_id: Seq<char>,
    success: bool,
    content: Seq<char>,
)
    ensures
        response_text(from, to, msg_id, success, content) == json_object(
            response_members(from, to, msg_id, success, content),
        ),
        keys_ascending(response_members(from, to, msg_id, success, content)),
        keys_ascending(
            seq![
                ('c', json_string(content)),
                ('r', json_string(seq![if success { 's' } else { 'f' }])),
            ],
        ),
{
    let ms = response_members(from, to, msg_id, success, content);
    let r: char = if success { 's' } else { 'f' };
    let inner = seq![('c', json_string(content)), ('r', json_string(seq![r]))];
    lemma_json_string_one_letter(r);
    lemma_json_string_one_letter('r');
    lemma_members_of(inner);
    lemma_members_of(ms);
    let c = json_string(content);
    let f = json_string(party_code(from));
    let i = json_string(msg_id);
    let t = json_string(party_code(to));
    let pl = seq!['{'] + key('c') + c + seq![','] + key('r') + quoted_char(r) + seq!['}'];
    assert(json_object(inner) =~= pl);
    assert(response_text(from, to, msg_id, success, content) =~= seq!['{'] + key('f') + f
        + seq![','] + key('i') + i + seq![','] + key('p') + pl + seq![','] + key('t') + t + seq![
        ',',
    ] + key('y') + quoted_char('r') + seq!['}']);
    assert(json_object(ms) =~= seq!['{'] + key('f') + f + seq![','] + key('i') + i + seq![',']
        + key('p') + pl + seq![','] + key('t') + t + seq![','] + key('y') + quoted_char('r')
        + seq!['}']);
}

/// Checks a party; `true` exactly when it is valid.
pub fn validate_party(name: &str) -> (r: bool)
    ensures
        r == valid_party(name@),
{
    let server = "server";
    let client = "client";
    str_eq(name, server) || str_eq(name, client) || validate_id(name)
}

fn push_key(out: &mut String, k: char)
    ensures
        final(out)@ == old(out)@ + key(k),
{
    push_char(out, '"');
    push_char(out, k);
    push_char(out, '"');
    push_char(out, ':');
    assert(final(out)@ =~= old(out)@ + key(k));
}

fn push_quoted_char(out: &mut String, c: char)
    ensures
        final(out)@ == old(out)@ + quoted_char(c),
{
    push_char(out, '"');
    push_char(out, c);
    push_char(out, '"');
    assert(final(out)@ =~= old(out)@ + quoted_char(c));
}

fn push_party(out: &mut String, p: &str)
    ensures
        final(out)@ == old(out)@ + json_string(party_code(p@)),
{
    if str_eq(p, "server") {
        let s = "s";
        proof {
            reveal_strlit("s");
            assert(s@ =~= seq!['s']);
        }
        push_json_string(out, s);
    } else {
        push_json_string(out, p);
    }
}

fn build_request(
    from: &str,
    to: &str,
    msg_id: &str,
    method: &str,
    params: &Vec<String>,
    kind: char,
) -> (r: String)
    ensures
        r@ == request_text(from@, to@, msg_id@, method@, string_views(params@), kind),
{
    let mut out = String::new();
    push_char(&mut out, '{');
    push_key(&mut out, 'f');
    push_party(&mut out, from);
    push_char(&mut out, ',');
    push_key(&mut out, 'i');
    push_json_string(&mut out, msg_id);
    push_char(&mut out, ',');
    push_key(&mut out, 'm');
    push_json_string(&mut out, method);
    push_char(&mut out, ',');
    push_key(&mut out, 'p');
    push_json_string_array(&mut out, params);
    push_char(&mut out, ',');
    push_key(&mut out, 't');
    push_party(&mut out, to);
    push_char(&mut out, ',');
    push_key(&mut out, 'y');
    push_quoted_char(&mut out, kind);
    push_char(&mut out, '}');
    assert(out@ =~= request_text(from@, to@, msg_id@, method@, string_views(params@), kind));
    out
}

fn build_response(from: &str, to: &str, msg_id: &str, success: bool, content: &str) -> (r: String)
    ensures
        r@ == response_text(from@, to@, msg_id@, success, content@),
{
    let mut out = String::new();
    push_char(&mut out, '{');
    push_key(&mut out, 'f');
    push_party(&mut out, from);
    push_char(&mut out, ',');
    push_key(&mut out, 'i');
    push_json_string(&mut out, msg_id);
    push_char(&mut out, ',');
    push_key(&mut out, 'p');
    push_char(&mut out, '{');
    push_key(&mut out, 'c');
    push_json_string(&mut out, content);
    push_char(&mut out, ',');
    push_key(&mut out, 'r');
    push_quoted_char(
        &mut out,
        if success {
            's'
        } else {
            'f'
        },
    );
    push_char(&mut out, '}');
    push_char(&mut out, ',');
    push_key(&mut out, 't');
    push_party(&mut out, to);
    push_char(&mut out, ',');
    push_key(&mut out, 'y');
    push_quoted_char(&mut out, 'r');
    push_char(&mut out, '}');
    assert(out@ =~= response_text(from@, to@, msg_id@, success, content@));
    out
}

/// A request from `from` to `to` carrying `method` and `params`.
pub fn create_request(
    from: &str,
    to: &str,
    msg_id: &str,
    method: &str,
    params: &Vec<String>,
) -> (r: String)
    requires
        valid_party(from@),
        valid_party(to@),
    ensures
        r@ == request_text(from@, to@, msg_id@, method@, string_views(params@), 'q'),
{
    build_request(from, to, msg_id, method, params, 'q')
}

/// An event from the server to all clients.
pub fn create_event(msg_id: &str, method: &str, params: &Vec<String>) -> (r: String)
    ensures
        r@ == request_text("server"@, "client"@, msg_id@, method@, string_views(params@), 'e'),
{
    build_request("server", "client", msg_id, method, params, 'e')
}

/// A response that reports success with a receipt.
pub fn create_success_response(from: &str, to: &str, msg_id: &str, receipt: &str) -> (r: String)
    requires
        valid_party(from@),
        valid_party(to@),
    ensures
        r@ == response_text(from@, to@, msg_id@, true, receipt@),
{
    build_response(from, to, msg_id, true, receipt)
}

/// A response that reports failure with an error code.
pub fn create_fail_response(from: &str, to: &str, msg_id: &str, err_code: &str) -> (r: String)
    requires
        valid_party(from@),
        valid_party(to@),
    ensures
        r@ == response_text(from@, to@, msg_id@, false, err_code@),
{
    build_response(from, to, msg_id, false, err_code)
}

} // verus!
