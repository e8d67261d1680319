//! Character classes and small string operations shared by the validators,
//! the method-string parser and the message builders.
use vstd::prelude::*;
use vstd::string::*;

verus! {

/// The character classes that the protocol's validators accept.
#[derive(Clone, Copy, PartialEq, Eq, Structural)]
pub enum CharClass {
    /// `a-z` and `0-9`.
    LowerOrDigit,
    /// `0-9`.
    Digit,
    /// `a-z`, `0-9`, `/` and `_`.
    Endpoint,
    /// `A-Z`, `0-9` and `_`.
    UpperDigitUnderscore,
    /// `A-Z`, `a-z` and `0-9`.
    Alphanumeric,
    /// `A-Z`, `a-z`, `0-9` and `=`.
    Base64Like,
}

pub open spec fn is_lower(c: char) -> bool {
    'a' <= c && c <= 'z'
}

pub open spec fn is_upper(c: char) -> bool {
    'A' <= c && c <= 'Z'
}

pub open spec fn is_digit(c: char) -> bool {
    '0' <= c && c <= '9'
}

/// Whether `c` belongs to the class `cls`.
pub open spec fn class_allows(cls: CharClass, c: char) -> bool {
    match cls {
        CharClass::LowerOrDigit => is_lower(c) || is_digit(c),
        CharClass::Digit => is_digit(c),
        CharClass::Endpoint => is_lower(c) || is_digit(c) || c == '/' || c == '_',
        CharClass::UpperDigitUnderscore => is_upper(c) || is_digit(c) || c == '_',
        CharClass::Alphanumeric => is_upper(c) || is_lower(c) || is_digit(c),
        CharClass::Base64Like => is_upper(c) || is_lower(c) || is_digit(c) || c == '=',
    }
}

/// Every character of `s` belongs to `cls` (true of the empty string).
pub open spec fn all_in_class(s: Seq<char>, cls: CharClass) -> bool {
    forall|i: int| 0 <= i < s.len() ==> #[trigger] class_allows(cls, s[i])
}

/// Which characters each class admits, stated by character ranges: method names
/// and ids take `a-z` and `0-9`; versions `0-9`; endpoints `a-z`, `0-9`, `/` and
/// `_`; error codes `A-Z`, `0-9` and `_`; pool names `A-Z`, `a-z` and `0-9`;
/// authentication codes `A-Z`, `a-z`, `0-9` and `=`.
pub proof fn lemma_class_members(c: char)
    ensures
        class_allows(CharClass::LowerOrDigit, c) <==> (('a' <= c && c <= 'z') || ('0' <= c
            && c <= '9')),
        class_allows(CharClass::Digit, c) <==> ('0' <= c && c <= '9'),
        class_allows(CharClass::Endpoint, c) <==> (('a' <= c && c <= 'z') || ('0' <= c && c
            <= '9') || c == '/' || c == '_'),
        class_allows(CharClass::UpperDigitUnderscore, c) <==> (('A' <= c && c <= 'Z') || ('0'
            <= c && c <= '9') || c == '_'),
        class_allows(CharClass::Alphanumeric, c) <==> (('A' <= c && c <= 'Z') || ('a' <= c && c
            <= 'z') || ('0' <= c && c <= '9')),
        class_allows(CharClass::Base64Like, c) <==> (('A' <= c && c <= 'Z') || ('a' <= c && c
            <= 'z') || ('0' <= c && c <= '9') || c == '='),
{
}

/// Every class admits every decimal digit.
pub proof fn lemma_digits_in_classes(c: char)
    requires
        '0' <= c && c <= '9',
    ensures
        class_allows(CharClass::LowerOrDigit, c),
        class_allows(CharClass::Digit, c),
        class_allows(CharClass::Endpoint, c),
        class_allows(CharClass::UpperDigitUnderscore, c),
        class_allows(CharClass::Alphanumeric, c),
        class_allows(CharClass::Base64Like, c),
{
}

/// A string is in a class exactly when each of its characters is, so the class of
/// a concatenation is the class of both parts.
pub proof fn lemma_all_in_class_concat(a: Seq<char>, b: Seq<char>, cls: CharClass)
    ensures
        all_in_class(a + b, cls) <==> (all_in_class(a, cls) && all_in_class(b, cls)),
{
    if all_in_class(a + b, cls) {
        assert forall|i: int| 0 <= i < a.len() implies #[trigger] class_allows(cls, a[i]) by {
            assert((a + b)[i] == a[i]);
        }
        assert forall|i: int| 0 <= i < b.len() implies #[trigger] class_allows(cls, b[i]) by {
            assert((a + b)[a.len() + i] == b[i]);
        }
    }
    if all_in_class(a, cls) && all_in_class(b, cls) {
        assert forall|i: int| 0 <= i < (a + b).len() implies #[trigger] class_allows(
            cls,
            (a + b)[i],
        ) by {
            if i < a.len() {
                assert((a + b)[i] == a[i]);
            } else {
                assert((a + b)[i] == b[i - a.len()]);
            }
        }
    }
}


/// `c` occurs nowhere in `s`.
pub open spec fn lacks_char(s: Seq<char>, c: char) -> bool {
    forall|i: int| 0 <= i < s.len() ==> s[i] != c
}

/// `i` is the position of the first occurrence of `c` in `s`.
pub open spec fn is_first_index(s: Seq<char>, c: char, i: int) -> bool {
    &&& 0 <= i < s.len()
    &&& s[i] == c
    &&& forall|j: int| 0 <= j < i ==> s[j] != c
}

/// The position of the first occurrence of `c` in `s`, if any.
pub open spec fn first_index(s: Seq<char>, c: char) -> Option<int> {
    if exists|i: int| is_first_index(s, c, i) {
        Some(choose|i: int| is_first_index(s, c, i))
    } else {
        None
    }
}

/// `i` is the position of the one and only occurrence of `c` in `s`.
pub open spec fn is_sole_index(s: Seq<char>, c: char, i: int) -> bool {
    &&& 0 <= i < s.len()
    &&& s[i] == c
    &&& forall|j: int| 0 <= j < s.len() && j != i ==> s[j] != c
}

/// The position of `c` in `s` when `c` occurs exactly once, else `None`.
pub open spec fn sole_index(s: Seq<char>, c: char) -> Option<int> {
    if exists|i: int| is_sole_index(s, c, i) {
        Some(choose|i: int| is_sole_index(s, c, i))
    } else {
        None
    }
}

/// `s` with every leading `c` removed.
pub open spec fn strip_leading(s: Seq<char>, c: char) -> Seq<char>
    decreases s.len(),
{
    if s.len() > 0 && s[0] == c {
        strip_leading(s.drop_first(), c)
    } else {
        s
    }
}

pub proof fn lemma_first_index_is(s: Seq<char>, c: char, i: int)
    requires
        is_first_index(s, c, i),
    ensures
        first_index(s, c) == Some(i),
{
    let k = choose|k: int| is_first_index(s, c, k);
    assert(is_first_index(s, c, k));
    assert(k == i) by {
        if k < i {
            assert(s[k] != c);
        } else if i < k {
            assert(s[i] != c);
        }
    }
}

pub proof fn lemma_first_index_none(s: Seq<char>, c: char)
    requires
        lacks_char(s, c),
    ensures
        first_index(s, c) is None,
{
    if exists|i: int| is_first_index(s, c, i) {
        let k = choose|k: int| is_first_index(s, c, k);
        assert(s[k] == c);
    }
}

pub proof fn lemma_sole_index_is(s: Seq<char>, c: char, i: int)
    requires
        is_sole_index(s, c, i),
    ensures
        sole_index(s, c) == Some(i),
{
    let k = choose|k: int| is_sole_index(s, c, k);
    assert(is_sole_index(s, c, k));
    assert(k == i) by {
        if k != i {
            assert(s[k] != c);
        }
    }
}

/// Whether `c` belongs to the class `cls`.
pub fn char_in_class(c: char, cls: CharClass) -> (r: bool)
    ensures
        r == class_allows(cls, c),
{
    let lower = 'a' <= c && c <= 'z';
    let upper = 'A' <= c && c <= 'Z';
    let digit = '0' <= c && c <= '9';
    match cls {
        CharClass::LowerOrDigit => lower || digit,
        CharClass::Digit => digit,
        CharClass::Endpoint => lower || digit || c == '/' || c == '_',
        CharClass::UpperDigitUnderscore => upper || digit || c == '_',
        CharClass::Alphanumeric => upper || lower || digit,
        CharClass::Base64Like => upper || lower || digit || c == '=',
    }
}

/// Whether every character of `s` belongs to the class `cls`.
pub fn str_in_class(s: &str, cls: CharClass) -> (r: bool)
    ensures
        r == all_in_class(s@, cls),
{
    let n = s.unicode_len();
    let mut i: usize = 0;
    while i < n
        invariant
            n == s@.len(),
            i <= n,
            forall|j: int| 0 <= j < i ==> #[trigger] class_allows(cls, s@[j]),
        decreases n - i,
    {
        if !char_in_class(s.get_char(i), cls) {
            return false;
        }
        i = i + 1;
    }
    true
}

/// Whether the two strings hold the same characters.
pub fn str_eq(a: &str, b: &str) -> (r: bool)
    ensures
        r == (a@ == b@),
{
    let n = a.unicode_len();
    if n != b.unicode_len() {
        return false;
    }
    let mut i: usize = 0;
    while i < n
        invariant
            n == a@.len(),
            n == b@.len(),
            i <= n,
            forall|j: int| 0 <= j < i ==> a@[j] == b@[j],
        decreases n - i,
    {
        if a.get_char(i) != b.get_char(i) {
            return false;
        }
        i = i + 1;
    }
    assert(a@ =~= b@);
    true
}

/// The position of the first `c` in `s`, if any.
pub fn find_first(s: &str, c: char) -> (r: Option<usize>)
    ensures
        r matches Some(i) ==> first_index(s@, c) == Some(i as int),
        r is None ==> first_index(s@, c) is None && lacks_char(s@, c),
{
    let n = s.unicode_len();
    let mut i: usize = 0;
    while i < n
        invariant
            n == s@.len(),
            i <= n,
            forall|j: int| 0 <= j < i ==> s@[j] != c,
        decreases n - i,
    {
        if s.get_char(i) == c {
            proof {
                lemma_first_index_is(s@, c, i as int);
            }
            return Some(i);
        }
        i = i + 1;
    }
    proof {
        lemma_first_index_none(s@, c);
    }
    None
}

/// The position of `c` in `s` when `c` occurs exactly once, else `None`.
pub fn find_sole(s: &str, c: char) -> (r: Option<usize>)
    ensures
        r matches Some(i) ==> sole_index(s@, c) == Some(i as int),
        r is None ==> sole_index(s@, c) is None,
{
    let n = s.unicode_len();
    let mut found: Option<usize> = None;
    let mut i: usize = 0;
    while i < n
        invariant
            n == s@.len(),
            i <= n,
            found is None ==> forall|j: int| 0 <= j < i ==> s@[j] != c,
            found matches Some(k) ==> k < i && s@[k as int] == c && forall|j: int|
                0 <= j < i && j != k ==> s@[j] != c,
        decreases n - i,
    {
        if s.get_char(i) == c {
            match found {
                Some(k) => {
                    proof {
                        if exists|m: int| is_sole_index(s@, c, m) {
                            let m = choose|m: int| is_sole_index(s@, c, m);
                            assert(s@[k as int] == c && s@[i as int] == c);
                        }
                    }
                    return None;
                },
                None => {
                    found = Some(i);
                },
            }
        }
        i = i + 1;
    }
    match found {
        Some(k) => {
            proof {
                lemma_sole_index_is(s@, c, k as int);
            }
            Some(k)
        },
        None => {
            proof {
                if exists|m: int| is_sole_index(s@, c, m) {
                    let m = choose|m: int| is_sole_index(s@, c, m);
                    assert(s@[m] == c);
                }
            }
            None
        },
    }
}

/// `String::push`, which appends one character to the end of the string, as std
/// documents; the contract states exactly that.
#[verifier::external_body]
pub(crate) fn push_char(s: &mut String, c: char)
    ensures
        final(s)@ == old(s)@.push(c),
{
    s.push(c);
}

} // verus!
