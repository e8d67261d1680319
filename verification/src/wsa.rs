//! Checked constructors for the messages that pass between the server and clients.
use vstd::prelude::*;
use vstd::string::*;
use crate::json::string_views;
use crate::message::{
    create_event, create_fail_response, create_request, create_success_response, request_text,
    response_text, valid_id,
};
use crate::method::{
    method_text, valid_endpoint, valid_method_name, valid_version, validate_endpoint_str,
    validate_method_name, validate_version_str,
};
use crate::text::{
    all_in_class, class_allows, find_first, first_index, lemma_class_members, lemma_first_index_is, str_eq, str_in_class,
    CharClass,
};

verus! {

/// A client id: a valid id that is not the word `client`.
pub open spec fn valid_client_id(s: Seq<char>) -> bool {
    s != "client"@ && valid_id(s)
}

/// Which texts are ids and error codes, by their characters: an id is exactly five
/// characters over `a-z` and `0-9`; an error code is non-empty text over `A-Z`, `0-9`
/// and `_`.
pub proof fn lemma_ids_and_codes_by_chars(s: Seq<char>)
    ensures
        valid_id(s) <==> s.len() == 5 && forall|i: int|
            0 <= i < s.len() ==> ('a' <= #[trigger] s[i] && s[i] <= 'z') || ('0' <= s[i] && s[i]
                <= '9'),
        valid_err_code(s) <==> s.len() > 0 && forall|i: int|
            0 <= i < s.len() ==> ('A' <= #[trigger] s[i] && s[i] <= 'Z') || ('0' <= s[i] && s[i]
                <= '9') || s[i] == '_',
{
    assert forall|i: int| 0 <= i < s.len() implies {
        &&& class_allows(CharClass::LowerOrDigit, #[trigger] s[i]) <==> (('a' <= s[i] && s[i]
            <= 'z') || ('0' <= s[i] && s[i] <= '9'))
        &&& class_allows(CharClass::UpperDigitUnderscore, s[i]) <==> (('A' <= s[i] && s[i]
            <= 'Z') || ('0' <= s[i] && s[i] <= '9') || s[i] == '_')
    } by {
        lemma_class_members(s[i]);
    }
}

/// A full method string `{method}@v{version}/{endpoint}` whose method is non-empty
/// `a-z0-9`, whose version is non-empty `0-9`, and whose endpoint is non-empty
/// `a-z0-9/_`.
pub open spec fn valid_full_method(s: Seq<char>) -> bool {
    exists|m: Seq<char>, v: Seq<char>, e: Seq<char>|
        #![trigger method_text(m, v, e)]
        s == method_text(m, v, e) && valid_method_name(m) && valid_version(v) && valid_endpoint(e)
}

/// The parts of `s` read the way the check reads them: the method up to the first
/// `@`, which must be followed by `v`; the version up to the next `/`; the endpoint
/// after it.
pub open spec fn split_full_method(s: Seq<char>) -> Option<(Seq<char>, Seq<char>, Seq<char>)> {
    match first_index(s, '@') {
        None => None,
        Some(a) => {
            let after = s.skip(a + 1);
            if after.len() == 0 || after[0] != 'v' {
                None
            } else {
                let after_v = after.skip(1);
                match first_index(after_v, '/') {
                    None => None,
                    Some(b) => Some((s.take(a), after_v.take(b), after_v.skip(b + 1))),
                }
            }
        },
    }
}

/// A method text built from valid parts splits back into exactly those parts.
proof fn lemma_split_method_text(method: Seq<char>, version: Seq<char>, endpoint: Seq<char>)
    requires
        valid_method_name(method),
        valid_version(version),
        valid_endpoint(endpoint),
    ensures
        split_full_method(method_text(method, version, endpoint)) == Some((method, version, endpoint)),
{
    let full = method_text(method, version, endpoint);
    let a = method.len() as int;
    assert forall|j: int| 0 <= j < a implies full[j] != '@' by {
        assert(class_allows(CharClass::LowerOrDigit, method[j]));
    }
    assert(full[a] == '@');
    lemma_first_index_is(full, '@', a);
    let after = full.skip(a + 1);
    assert(after =~= seq!['v'] + version + seq!['/'] + endpoint);
    let after_v = after.skip(1);
    assert(after_v =~= version + seq!['/'] + endpoint);
    let b = version.len() as int;
    assert forall|j: int| 0 <= j < b implies after_v[j] != '/' by {
        assert(class_allows(CharClass::Digit, version[j]));
    }
    assert(after_v[b] == '/');
    lemma_first_index_is(after_v, '/', b);
    assert(full.take(a) =~= method);
    assert(after_v.take(b) =~= version);
    assert(after_v.skip(b + 1) =~= endpoint);
}

/// A string is a valid full method exactly when its parts, read as the check reads
/// them, are valid.
proof fn lemma_full_method_by_split(s: Seq<char>)
    ensures
        valid_full_method(s) <==> (split_full_method(s) matches Some((m, v, e)) && valid_method_name(m)
            && valid_version(v) && valid_endpoint(e)),
{
    if valid_full_method(s) {
        let (m, v, e) = choose|m: Seq<char>, v: Seq<char>, e: Seq<char>|
            #![trigger method_text(m, v, e)]
            s == method_text(m, v, e) && valid_method_name(m) && valid_version(v) && valid_endpoint(
                e,
            );
        lemma_split_method_text(m, v, e);
    }
    if let Some((m, v, e)) = split_full_method(s) {
        if valid_method_name(m) && valid_version(v) && valid_endpoint(e) {
            let a = first_index(s, '@')->0;
            let after_v = s.skip(a + 1).skip(1);
            let b = first_index(after_v, '/')->0;
            assert(s =~= method_text(m, v, e));
        }
    }
}

/// An error code: non-empty, only `A-Z`, `0-9` and `_`.
pub open spec fn valid_err_code(s: Seq<char>) -> bool {
    s.len() > 0 && all_in_class(s, CharClass::UpperDigitUnderscore)
}

/// Every method string that `build_method` builds passes `validate_full_method`.
pub proof fn lemma_built_method_is_valid(method: Seq<char>, version: Seq<char>, endpoint: Seq<char>)
    requires
        valid_method_name(method),
        valid_version(version),
        valid_endpoint(endpoint),
    ensures
        valid_full_method(method_text(method, version, endpoint)),
{
    assert(method_text(method, version, endpoint) == method_text(method, version, endpoint));
}

/// Checks an id; `true` exactly when it is valid.
pub fn validate_id(id: &str) -> (r: bool)
    ensures
        r == valid_id(id@),
{
    id.unicode_len() == 5 && str_in_class(id, CharClass::LowerOrDigit)
}

/// Checks a message id; `true` exactly when it is a valid id.
pub fn validate_msg_id(msg_id: &str) -> (r: bool)
    ensures
        r == valid_id(msg_id@),
{
    validate_id(msg_id)
}

/// Checks a client id; `true` exactly when it is valid.
pub fn validate_client_id(client_id: &str) -> (r: bool)
    ensures
        r == valid_client_id(client_id@),
{
    !str_eq(client_id, "client") && validate_id(client_id)
}

/// Checks a full method string; `true` exactly when it is valid.
pub fn validate_full_method(full: &str) -> (r: bool)
    ensures
        r == valid_full_method(full@),
{
    proof {
        lemma_full_method_by_split(full@);
    }
    let n = full.unicode_len();
    let a = match find_first(full, '@') {
        Some(a) => a,
        None => return false,
    };
    if a + 1 >= n {
        return false;
    }
    let after = full.substring_char(a + 1, n);
    assert(after@ =~= full@.skip(a + 1));
    if after.get_char(0) != 'v' {
        return false;
    }
    let after_v = after.substring_char(1, n - a - 1);
    assert(after_v@ =~= after@.skip(1));
    let b = match find_first(after_v, '/') {
        Some(b) => b,
        None => return false,
    };
    let method = full.substring_char(0, a);
    let version = after_v.substring_char(0, b);
    let endpoint = after_v.substring_char(b + 1, after_v.unicode_len());
    assert(method@ =~= full@.take(a as int));
    assert(version@ =~= after_v@.take(b as int));
    assert(endpoint@ =~= after_v@.skip(b + 1));
    validate_method_name(method) && validate_version_str(version) && validate_endpoint_str(endpoint)
}

/// Checks an error code; `true` exactly when it is valid.
pub fn validate_err_code(err_code: &str) -> (r: bool)
    ensures
        r == valid_err_code(err_code@),
{
    !err_code.is_empty() && str_in_class(err_code, CharClass::UpperDigitUnderscore)
}

/// A request from the server to the client `to`.
pub fn create_request_form_server_to_client(
    to: &str,
    msg_id: &str,
    method: &str,
    params: &Vec<String>,
) -> (r: String)
    requires
        valid_id(msg_id@),
        valid_client_id(to@),
        valid_full_method(method@),
    ensures
        r@ == request_text("server"@, to@, msg_id@, method@, string_views(params@), 'q'),
{
    create_request("server", to, msg_id, method, params)
}

/// A request from the client `from` to the server.
pub fn create_request_form_client_to_server(
    from: &str,
    msg_id: &str,
    method: &str,
    params: &Vec<String>,
) -> (r: String)
    requires
        valid_id(msg_id@),
        valid_client_id(from@),
        valid_full_method(method@),
    ensures
        r@ == request_text(from@, "server"@, msg_id@, method@, string_views(params@), 'q'),
{
    create_request(from, "server", msg_id, method, params)
}

/// A request from the client `from` to the client `to`.
pub fn create_request_form_client_to_client(
    from: &str,
    to: &str,
    msg_id: &str,
    method: &str,
    params: &Vec<String>,
) -> (r: String)
    requires
        valid_id(msg_id@),
        valid_client_id(from@),
        valid_client_id(to@),
        valid_full_method(method@),
    ensures
        r@ == request_text(from@, to@, msg_id@, method@, string_views(params@), 'q'),
{
    create_request(from, to, msg_id, method, params)
}

/// An event from the server to all clients.
pub fn create_event_form_server_to_client(msg_id: &str, method: &str, params: &Vec<String>) -> (r:
    String)
    requires
        valid_id(msg_id@),
        valid_full_method(method@),
    ensures
        r@ == request_text("server"@, "client"@, msg_id@, method@, string_views(params@), 'e'),
{
    create_event(msg_id, method, params)
}

/// A success response from the server to the client `to`.
pub fn create_success_response_form_server_to_client(to: &str, msg_id: &str, receipt: &str) -> (r:
    String)
    requires
        valid_id(msg_id@),
        valid_client_id(to@),
    ensures
        r@ == response_text("server"@, to@, msg_id@, true, receipt@),
{
    create_success_response("server", to, msg_id, receipt)
}

/// A failure response from the server to the client `to`.
pub fn create_fail_response_form_server_to_client(to: &str, msg_id: &str, err_code: &str) -> (r:
    String)
    requires
        valid_id(msg_id@),
        valid_client_id(to@),
        valid_err_code(err_code@),
    ensures
        r@ == response_text("server"@, to@, msg_id@, false, err_code@),
{
    create_fail_response("server", to, msg_id, err_code)
}

/// A success response from the client `from` to the server.
pub fn create_success_response_form_client_to_server(from: &str, msg_id: &str, receipt: &str) -> (r:
    String)
    requires
        valid_id(msg_id@),
        valid_client_id(from@),
    ensures
        r@ == response_text(from@, "server"@, msg_id@, true, receipt@),
{
    create_success_response(from, "server", msg_id, receipt)
}

/// A failure response from the client `from` to the server.
pub fn create_fail_response_form_client_to_server(from: &str, msg_id: &str, err_code: &str) -> (r:
    String)
    requires
        valid_id(msg_id@),
        valid_client_id(from@),
        valid_err_code(err_code@),
    ensures
        r@ == response_text(from@, "server"@, msg_id@, false, err_code@),
{
    create_fail_response(from, "server", msg_id, err_code)
}

/// A success response from the client `from` to the client `to`.
pub fn create_success_response_form_client_to_client(
    from: &str,
    to: &str,
    msg_id: &str,
    receipt: &str,
) -> (r: String)
    requires
        valid_id(msg_id@),
        valid_client_id(from@),
        valid_client_id(to@),
    ensures
        r@ == response_text(from@, to@, msg_id@, true, receipt@),
{
    create_success_response(from, to, msg_id, receipt)
}

/// A failure response from the client `from` to the client `to`.
pub fn create_fail_response_form_client_to_client(
    from: &str,
    to: &str,
    msg_id: &str,
    err_code: &str,
) -> (r: String)
    requires
        valid_id(msg_id@),
        valid_client_id(from@),
        valid_client_id(to@),
        valid_err_code(err_code@),
    ensures
        r@ == response_text(from@, to@, msg_id@, false, err_code@),
{
    create_fail_response(from, to, msg_id, err_code)
}

} // verus!
