//! Method strings of the form `{method}@v{version}/{endpoint}`.
use vstd::prelude::*;
use vstd::string::*;
use crate::text::{
    all_in_class, class_allows, find_sole, lemma_class_members, lacks_char, lemma_sole_index_is, sole_index, str_in_class,
    strip_leading, CharClass,
};

verus! {

/// A method name: non-empty, only `a-z` and `0-9`.
pub open spec fn valid_method_name(s: Seq<char>) -> bool {
    s.len() > 0 && all_in_class(s, CharClass::LowerOrDigit)
}

/// A version: non-empty, only `0-9`.
pub open spec fn valid_version(s: Seq<char>) -> bool {
    s.len() > 0 && all_in_class(s, CharClass::Digit)
}

/// An endpoint: non-empty, only `a-z`, `0-9`, `/` and `_`.
pub open spec fn valid_endpoint(s: Seq<char>) -> bool {
    s.len() > 0 && all_in_class(s, CharClass::Endpoint)
}

/// Which texts are method names, versions and endpoints, by their characters: a
/// method name is non-empty text over `a-z` and `0-9`, a version non-empty text over
/// `0-9`, an endpoint non-empty text over `a-z`, `0-9`, `/` and `_`.
pub proof fn lemma_method_parts_by_chars(s: Seq<char>)
    ensures
        valid_method_name(s) <==> s.len() > 0 && forall|i: int|
            0 <= i < s.len() ==> ('a' <= #[trigger] s[i] && s[i] <= 'z') || ('0' <= s[i] && s[i]
                <= '9'),
        valid_version(s) <==> s.len() > 0 && forall|i: int|
            0 <= i < s.len() ==> '0' <= #[trigger] s[i] && s[i] <= '9',
        valid_endpoint(s) <==> s.len() > 0 && forall|i: int|
            0 <= i < s.len() ==> ('a' <= #[trigger] s[i] && s[i] <= 'z') || ('0' <= s[i] && s[i]
                <= '9') || s[i] == '/' || s[i] == '_',
{
    assert forall|i: int| 0 <= i < s.len() implies {
        &&& class_allows(CharClass::LowerOrDigit, #[trigger] s[i]) <==> (('a' <= s[i] && s[i]
            <= 'z') || ('0' <= s[i] && s[i] <= '9'))
        &&& class_allows(CharClass::Digit, s[i]) <==> ('0' <= s[i] && s[i] <= '9')
        &&& class_allows(CharClass::Endpoint, s[i]) <==> (('a' <= s[i] && s[i] <= 'z') || ('0'
            <= s[i] && s[i] <= '9') || s[i] == '/' || s[i] == '_')
    } by {
        lemma_class_members(s[i]);
    }
}

/// The text `{method}@v{version}/{endpoint}`.
pub open spec fn method_text(method: Seq<char>, version: Seq<char>, endpoint: Seq<char>) -> Seq<
    char,
> {
    method + seq!['@', 'v'] + version + seq!['/'] + endpoint
}

/// What `parse_method_string` gives for `full`: the text must hold exactly one `@`,
/// the part after it exactly one `/`, and the part between them must start with `v`;
/// the version is that part with all leading `v`s removed.
pub open spec fn spec_parse_method(full: Seq<char>) -> Option<(Seq<char>, Seq<char>, Seq<char>)> {
    match sole_index(full, '@') {
        None => None,
        Some(a) => {
            let after = full.skip(a + 1);
            match sole_index(after, '/') {
                None => None,
                Some(b) => {
                    let version_part = after.take(b);
                    if version_part.len() == 0 || version_part[0] != 'v' {
                        None
                    } else {
                        Some((full.take(a), strip_leading(version_part, 'v'), after.skip(b + 1)))
                    }
                },
            }
        },
    }
}

/// Checks a method name; `true` exactly when it is valid.
pub fn validate_method_name(method: &str) -> (r: bool)
    ensures
        r == valid_method_name(method@),
{
    !method.is_empty() && str_in_class(method, CharClass::LowerOrDigit)
}

/// Checks a version; `true` exactly when it is valid.
pub fn validate_version_str(version: &str) -> (r: bool)
    ensures
        r == valid_version(version@),
{
    !version.is_empty() && str_in_class(version, CharClass::Digit)
}

/// Checks an endpoint; `true` exactly when it is valid.
pub fn validate_endpoint_str(endpoint: &str) -> (r: bool)
    ensures
        r == valid_endpoint(endpoint@),
{
    !endpoint.is_empty() && str_in_class(endpoint, CharClass::Endpoint)
}

/// Builds `{method}@v{version}/{endpoint}` from valid parts.
pub fn build_method(method: &str, version: &str, endpoint: &str) -> (r: String)
    requires
        valid_method_name(method@),
        valid_version(version@),
        valid_endpoint(endpoint@),
    ensures
        r@ == method_text(method@, version@, endpoint@),
{
    let mut out = method.to_owned();
    let sep = "@v";
    proof {
        reveal_strlit("@v");
    }
    out.append(sep);
    out.append(version);
    let slash = "/";
    proof {
        reveal_strlit("/");
    }
    out.append(slash);
    out.append(endpoint);
    assert(out@ =~= method_text(method@, version@, endpoint@));
    out
}

/// `s` with every leading `v` removed.
fn strip_leading_v(s: &str) -> (r: String)
    ensures
        r@ == strip_leading(s@, 'v'),
{
    let n = s.unicode_len();
    let mut k: usize = 0;
    assert(s@.skip(0) =~= s@);
    while k < n && s.get_char(k) == 'v'
        invariant
            n == s@.len(),
            k <= n,
            strip_leading(s@, 'v') == strip_leading(s@.skip(k as int), 'v'),
        decreases n - k,
    {
        assert(s@.skip(k as int).drop_first() =~= s@.skip(k + 1));
        k = k + 1;
    }
    let rest = s.substring_char(k, n);
    assert(rest@ =~= s@.skip(k as int));
    rest.to_owned()
}

/// Splits `{method}@v{version}/{endpoint}` into its three parts.
pub fn parse_method_string(full: &str) -> (r: Option<(String, String, String)>)
    ensures
        r matches Some((m, v, e)) ==> spec_parse_method(full@) == Some((m@, v@, e@)),
        r is None ==> spec_parse_method(full@) is None,
{
    let n = full.unicode_len();
    let a = match find_sole(full, '@') {
        Some(a) => a,
        None => return None,
    };
    let after = full.substring_char(a + 1, n);
    assert(after@ =~= full@.skip(a + 1));
    let m = after.unicode_len();
    let b = match find_sole(after, '/') {
        Some(b) => b,
        None => return None,
    };
    let version_part = after.substring_char(0, b);
    assert(version_part@ =~= after@.take(b as int));
    if b == 0 || version_part.get_char(0) != 'v' {
        return None;
    }
    let method = full.substring_char(0, a);
    assert(method@ =~= full@.take(a as int));
    let endpoint = after.substring_char(b + 1, m);
    assert(endpoint@ =~= after@.skip(b + 1));
    let version = strip_leading_v(version_part);
    Some((method.to_owned(), version, endpoint.to_owned()))
}

/// Parsing a built method string gives back its parts, provided the endpoint holds
/// no `/` (a `/` in the endpoint makes the text hold two `/` after the `@`).
pub proof fn lemma_parse_build_roundtrip(method: Seq<char>, version: Seq<char>, endpoint: Seq<char>)
    requires
        valid_method_name(method),
        valid_version(version),
        valid_endpoint(endpoint),
        lacks_char(endpoint, '/'),
    ensures
        spec_parse_method(method_text(method, version, endpoint)) == Some((method, version, endpoint)),
{
    let full = method_text(method, version, endpoint);
    let a = method.len() as int;
    assert forall|j: int| 0 <= j < full.len() && j != a implies full[j] != '@' by {
        if j < a {
            assert(class_allows(CharClass::LowerOrDigit, method[j]));
        } else if j == a + 1 {
        } else if j < a + 2 + version.len() {
            assert(class_allows(CharClass::Digit, version[j - a - 2]));
        } else if j == a + 2 + version.len() {
        } else {
            assert(class_allows(CharClass::Endpoint, endpoint[j - a - 3 - version.len()]));
        }
    }
    lemma_sole_index_is(full, '@', a);
    let after = full.skip(a + 1);
    assert(after =~= seq!['v'] + version + seq!['/'] + endpoint);
    let b = version.len() as int + 1;
    assert forall|j: int| 0 <= j < after.len() && j != b implies after[j] != '/' by {
        if j == 0 {
        } else if j < b {
            assert(class_allows(CharClass::Digit, version[j - 1]));
        } else {
            assert(endpoint[j - b - 1] != '/');
        }
    }
    lemma_sole_index_is(after, '/', b);
    let version_part = after.take(b);
    assert(version_part =~= seq!['v'] + version);
    assert(version_part.drop_first() =~= version);
    assert(class_allows(CharClass::Digit, version[0]));
    assert(strip_leading(version, 'v') == version);
    assert(full.take(a) =~= method);
    assert(after.skip(b + 1) =~= endpoint);
}

} // verus!
