//! Random five-character ids over `a-z0-9`.
use vstd::prelude::*;
use vstd::set_lib::lemma_len_subset;
use rand::Rng;
use crate::message::valid_id;
use crate::pool::{has_msg_id, is_msg_id_available, Pools};
use crate::text::{class_allows, push_char, CharClass};

verus! {

/// The number of characters an id may be drawn from.
pub const CHARSET_LEN: usize = 36;

/// The length of an id.
pub const ID_LEN: usize = 5;

/// How many random ids are drawn before the free ids are searched in order.
pub const RANDOM_ATTEMPTS: usize = 64;

/// The `i`-th character of `abcdefghijklmnopqrstuvwxyz0123456789`.
pub open spec fn id_char(i: int) -> char {
    if i < 26 {
        ('a' as int + i) as char
    } else {
        ('0' as int + i - 26) as char
    }
}

/// The id alphabet is exactly `a-z` followed by `0-9`: the first 26 positions hold
/// the letters in order and the last 10 the digits in order, so every character an
/// id may hold is drawn at exactly one position.
pub proof fn lemma_id_alphabet(c: char)
    ensures
        'a' <= c <= 'z' ==> id_char(c as int - 'a' as int) == c,
        '0' <= c <= '9' ==> id_char(c as int - '0' as int + 26) == c,
        forall|i: int| 0 <= i < 36 ==> ('a' <= #[trigger] id_char(i) <= 'z' || '0' <= id_char(i)
            <= '9'),
{
    assert forall|i: int| 0 <= i < 36 implies ('a' <= #[trigger] id_char(i) <= 'z' || '0'
        <= id_char(i) <= '9') by {
        lemma_id_char(i);
    }
}

/// `36` to the power `n`.
pub open spec fn pow36(n: nat) -> nat
    decreases n,
{
    if n == 0 {
        1
    } else {
        36 * pow36((n - 1) as nat)
    }
}

/// The `len` base-36 digits of `k`, most significant first, written with `id_char`.
pub open spec fn encode_digits(k: nat, len: nat) -> Seq<char>
    decreases len,
{
    if len == 0 {
        seq![]
    } else {
        encode_digits(k / 36, (len - 1) as nat).push(id_char((k % 36) as int))
    }
}

/// There are 60466176 ids.
pub proof fn lemma_id_space()
    ensures
        pow36(5) == 60466176,
{
    assert(pow36(0) == 1);
    assert(pow36(1) == 36);
    assert(pow36(2) == 1296);
    assert(pow36(3) == 46656);
    assert(pow36(4) == 1679616);
}

/// `rand::Rng::gen_range(0..bound)` on `rand::thread_rng()`: a value drawn from
/// `0..bound`. The range must not be empty (it panics on an empty one); which value
/// comes out is left open.
#[verifier::external_body]
fn random_below(bound: usize) -> (r: usize)
    requires
        bound > 0,
    ensures
        r < bound,
{
    rand::thread_rng().gen_range(0..bound)
}

proof fn lemma_id_char(i: int)
    requires
        0 <= i < 36,
    ensures
        class_allows(CharClass::LowerOrDigit, id_char(i)),
{
}

proof fn lemma_id_char_injective(i: int, j: int)
    requires
        0 <= i < 36,
        0 <= j < 36,
        id_char(i) == id_char(j),
    ensures
        i == j,
{
}

proof fn lemma_encode_valid(k: nat, len: nat)
    ensures
        encode_digits(k, len).len() == len,
        forall|i: int|
            0 <= i < len ==> #[trigger] class_allows(CharClass::LowerOrDigit, encode_digits(k, len)[i]),
    decreases len,
{
    if len > 0 {
        lemma_encode_valid(k / 36, (len - 1) as nat);
        lemma_id_char((k % 36) as int);
    }
}

proof fn lemma_encode_injective(a: nat, b: nat, len: nat)
    requires
        a < pow36(len),
        b < pow36(len),
        encode_digits(a, len) == encode_digits(b, len),
    ensures
        a == b,
    decreases len,
{
    if len > 0 {
        let ea = encode_digits(a, len);
        let eb = encode_digits(b, len);
        lemma_encode_valid(a / 36, (len - 1) as nat);
        lemma_encode_valid(b / 36, (len - 1) as nat);
        assert(ea.last() == eb.last());
        lemma_id_char_injective((a % 36) as int, (b % 36) as int);
        assert(ea.drop_last() =~= encode_digits(a / 36, (len - 1) as nat));
        assert(eb.drop_last() =~= encode_digits(b / 36, (len - 1) as nat));
        lemma_encode_injective(a / 36, b / 36, (len - 1) as nat);
    }
}

/// Among the first `n + 1` ids in order, at least one lies outside a set of `n` ids.
proof fn lemma_some_candidate_free(dom: Set<Seq<char>>, n: nat)
    requires
        dom.finite(),
        dom.len() == n,
        n < pow36(5),
    ensures
        exists|j: nat| j <= n && !dom.contains(#[trigger] encode_digits(j, 5)),
{
    if forall|j: nat| j <= n ==> dom.contains(#[trigger] encode_digits(j, 5)) {
        let cands = Seq::new(n + 1, |j: int| encode_digits(j as nat, 5));
        assert(cands.no_duplicates()) by {
            assert forall|a: int, b: int|
                0 <= a < cands.len() && 0 <= b < cands.len() && a != b implies cands[a]
                != cands[b] by {
                if cands[a] == cands[b] {
                    lemma_encode_injective(a as nat, b as nat, 5);
                }
            }
        }
        cands.unique_seq_to_set();
        assert(cands.to_set().subset_of(dom)) by {
            assert forall|x: Seq<char>| cands.to_set().contains(x) implies dom.contains(x) by {
                let j = choose|j: int| 0 <= j < cands.len() && cands[j] == x;
                assert(dom.contains(encode_digits(j as nat, 5)));
            }
        }
        lemma_len_subset(cands.to_set(), dom);
    }
}

/// The `i`-th character of `abcdefghijklmnopqrstuvwxyz0123456789`.
fn charset_char(i: usize) -> (c: char)
    requires
        i < CHARSET_LEN,
    ensures
        c == id_char(i as int),
{
    if i < 26 {
        ((97u8 + i as u8) as char)
    } else {
        ((48u8 + (i - 26) as u8) as char)
    }
}

/// The `len` base-36 digits of `k` as text.
fn encode_id(k: u64, len: u64) -> (r: String)
    ensures
        r@ == encode_digits(k as nat, len as nat),
    decreases len,
{
    if len == 0 {
        String::new()
    } else {
        let mut s = encode_id(k / 36, len - 1);
        push_char(&mut s, charset_char((k % 36) as usize));
        s
    }
}

/// A random id: five characters drawn from `a-z0-9`.
pub fn gen_id() -> (r: String)
    ensures
        valid_id(r@),
{
    let mut out = String::new();
    let mut i: usize = 0;
    while i < ID_LEN
        invariant
            i <= ID_LEN,
            out@.len() == i,
            forall|j: int| 0 <= j < i ==> #[trigger] class_allows(CharClass::LowerOrDigit, out@[j]),
        decreases ID_LEN - i,
    {
        let idx = random_below(CHARSET_LEN);
        let c = charset_char(idx);
        proof {
            lemma_id_char(idx as int);
        }
        push_char(&mut out, c);
        assert(out@[i as int] == c);
        assert(class_allows(CharClass::LowerOrDigit, c));
        i = i + 1;
    }
    out
}

/// An id that is free in the pool `pool_name`. Random ids are tried first; should
/// they all be taken, the ids are searched in order, and since the pool holds fewer
/// ids than there are, the search finds a free one.
pub fn gen_unique_id(pools: &Pools, pool_name: &str) -> (r: String)
    requires
        pools@.contains_key(pool_name@) ==> pools@[pool_name@].len() < pow36(5),
    ensures
        valid_id(r@),
        !has_msg_id(pools@, pool_name@, r@),
{
    let mut attempt: usize = 0;
    while attempt < RANDOM_ATTEMPTS
        invariant
            attempt <= RANDOM_ATTEMPTS,
        decreases RANDOM_ATTEMPTS - attempt,
    {
        let id = gen_id();
        if is_msg_id_available(pools, pool_name, id.as_str()) {
            return id;
        }
        attempt = attempt + 1;
    }
    let n: u64 = match pools.get(pool_name) {
        Some(pool) => pool.len() as u64,
        None => 0,
    };
    proof {
        lemma_id_space();
    }
    let mut k: u64 = 0;
    while k <= n
        invariant
            k <= n + 1,
            n < pow36(5),
            pow36(5) == 60466176,
            pools@.contains_key(pool_name@) ==> pools@[pool_name@].dom().finite()
                && pools@[pool_name@].len() == n,
            !pools@.contains_key(pool_name@) ==> n == 0,
            forall|j: nat| j < k ==> has_msg_id(pools@, pool_name@, #[trigger] encode_digits(j, 5)),
        decreases n + 1 - k,
    {
        let id = encode_id(k, 5);
        if is_msg_id_available(pools, pool_name, id.as_str()) {
            proof {
                lemma_encode_valid(k as nat, 5);
            }
            return id;
        }
        k = k + 1;
    }
    proof {
        assert(has_msg_id(pools@, pool_name@, encode_digits(0, 5)));
        lemma_some_candidate_free(pools@[pool_name@].dom(), n as nat);
        let j = choose|j: nat| j <= n && !pools@[pool_name@].dom().contains(
            #[trigger] encode_digits(j, 5),
        );
        assert(has_msg_id(pools@, pool_name@, encode_digits(j, 5)));
    }
    String::new()
}

} // verus!
