//! Mathematical model of the keyed storage tables and the verified
//! association-vector primitives the state aggregates are built from.
//!
//! Each conceptual key→value table is held as a vector of entries with
//! pairwise-distinct keys; the spec functions here give the tables their
//! mathematical reading (lookup, membership, per-coin balance sum) and
//! the executable helpers maintain it.

use vstd::prelude::*;

verus! {

/// One balance cell: `account` holds `amount` units of `coin`.
#[derive(Clone, Copy, PartialEq, Eq, Debug)]
pub struct BalanceEntry {
    /// The coin this cell belongs to.
    pub coin: u32,
    /// The account this cell belongs to.
    pub account: u64,
    /// The amount held.
    pub amount: u128,
}

/// No two entries share a (coin, account) key.
pub open spec fn unique_balance_keys(s: Seq<BalanceEntry>) -> bool {
    forall|i: int, j: int|
        0 <= i < j < s.len() ==> !(#[trigger] s[i].coin == #[trigger] s[j].coin
            && s[i].account == s[j].account)
}

/// Some entry carries the (coin, account) key.
pub open spec fn has_balance_key(s: Seq<BalanceEntry>, coin: u32, account: u64) -> bool {
    exists|i: int| 0 <= i < s.len() && (#[trigger] s[i]).coin == coin && s[i].account == account
}

/// The amount stored under (coin, account), zero when absent.
pub open spec fn lookup_balance(s: Seq<BalanceEntry>, coin: u32, account: u64) -> u128
    decreases s.len(),
{
    if s.len() == 0 {
        0
    } else if s.last().coin == coin && s.last().account == account {
        s.last().amount
    } else {
        lookup_balance(s.drop_last(), coin, account)
    }
}

/// Sum of all amounts stored for `coin`.
pub open spec fn coin_sum(s: Seq<BalanceEntry>, coin: u32) -> int
    decreases s.len(),
{
    if s.len() == 0 {
        0
    } else {
        coin_sum(s.drop_last(), coin) + if s.last().coin == coin {
            s.last().amount as int
        } else {
            0
        }
    }
}

/// Every entry's coin id lies below `n`.
pub open spec fn balance_coins_lt(s: Seq<BalanceEntry>, n: int) -> bool {
    forall|i: int| 0 <= i < s.len() ==> (#[trigger] s[i]).coin < n
}

pub proof fn lemma_coin_sum_nonneg(s: Seq<BalanceEntry>, coin: u32)
    ensures
        coin_sum(s, coin) >= 0,
    decreases s.len(),
{
    if s.len() > 0 {
        lemma_coin_sum_nonneg(s.drop_last(), coin);
    }
}

/// A coin with no balance cell sums to zero.
pub proof fn lemma_coin_sum_no_entries(s: Seq<BalanceEntry>, coin: u32)
    requires
        forall|i: int| 0 <= i < s.len() ==> (#[trigger] s[i]).coin != coin,
    ensures
        coin_sum(s, coin) == 0,
    decreases s.len(),
{
    if s.len() > 0 {
        lemma_coin_sum_no_entries(s.drop_last(), coin);
    }
}

/// Under unique keys, the entry at index `i` is what lookup returns.
pub proof fn lemma_lookup_at(s: Seq<BalanceEntry>, i: int)
    requires
        unique_balance_keys(s),
        0 <= i < s.len(),
    ensures
        lookup_balance(s, s[i].coin, s[i].account) == s[i].amount,
    decreases s.len(),
{
    if i < s.len() - 1 {
        lemma_lookup_at(s.drop_last(), i);
    }
}

/// When no entry carries the key, lookup returns zero.
pub proof fn lemma_lookup_absent(s: Seq<BalanceEntry>, coin: u32, account: u64)
    requires
        !has_balance_key(s, coin, account),
    ensures
        lookup_balance(s, coin, account) == 0,
    decreases s.len(),
{
    if s.len() > 0 {
        assert(!has_balance_key(s.drop_last(), coin, account));
        lemma_lookup_absent(s.drop_last(), coin, account);
    }
}

/// One account's holding never exceeds the coin's balance sum.
pub proof fn lemma_lookup_le_sum(s: Seq<BalanceEntry>, coin: u32, account: u64)
    requires
        unique_balance_keys(s),
    ensures
        lookup_balance(s, coin, account) <= coin_sum(s, coin),
    decreases s.len(),
{
    if s.len() > 0 {
        lemma_lookup_le_sum(s.drop_last(), coin, account);
        lemma_coin_sum_nonneg(s.drop_last(), coin);
    }
}

/// Two distinct accounts' holdings together never exceed the coin's sum.
pub proof fn lemma_two_lookups_le_sum(s: Seq<BalanceEntry>, coin: u32, a1: u64, a2: u64)
    requires
        unique_balance_keys(s),
        a1 != a2,
    ensures
        lookup_balance(s, coin, a1) + lookup_balance(s, coin, a2) <= coin_sum(s, coin),
    decreases s.len(),
{
    if s.len() > 0 {
        lemma_two_lookups_le_sum(s.drop_last(), coin, a1, a2);
        if s.last().coin == coin && s.last().account == a1 {
            lemma_lookup_le_sum(s.drop_last(), coin, a2);
        } else if s.last().coin == coin && s.last().account == a2 {
            lemma_lookup_le_sum(s.drop_last(), coin, a1);
        }
    }
}

/// Effect of replacing the entry at `i` on a coin's balance sum.
pub proof fn lemma_coin_sum_update(s: Seq<BalanceEntry>, i: int, e: BalanceEntry, coin: u32)
    requires
        0 <= i < s.len(),
    ensures
        coin_sum(s.update(i, e), coin) == coin_sum(s, coin) - (if s[i].coin == coin {
            s[i].amount as int
        } else {
            0
        }) + (if e.coin == coin {
            e.amount as int
        } else {
            0
        }),
    decreases s.len(),
{
    if i == s.len() - 1 {
        assert(s.update(i, e).drop_last() =~= s.drop_last());
    } else {
        assert(s.update(i, e).drop_last() =~= s.drop_last().update(i, e));
        lemma_coin_sum_update(s.drop_last(), i, e, coin);
    }
}

/// Effect on lookups of replacing the entry at `i` by one with the same key.
pub proof fn lemma_lookup_update_same_key(s: Seq<BalanceEntry>, i: int, e: BalanceEntry)
    requires
        unique_balance_keys(s),
        0 <= i < s.len(),
        e.coin == s[i].coin,
        e.account == s[i].account,
    ensures
        unique_balance_keys(s.update(i, e)),
        lookup_balance(s.update(i, e), e.coin, e.account) == e.amount,
        forall|c: u32, a: u64|
            !(c == e.coin && a == e.account) ==> #[trigger] lookup_balance(s.update(i, e), c, a)
                == lookup_balance(s, c, a),
    decreases s.len(),
{
    if i == s.len() - 1 {
        assert(s.update(i, e).drop_last() =~= s.drop_last());
    } else {
        assert(s.update(i, e).drop_last() =~= s.drop_last().update(i, e));
        lemma_lookup_update_same_key(s.drop_last(), i, e);
        assert forall|c: u32, a: u64| !(c == e.coin && a == e.account) implies #[trigger]
            lookup_balance(s.update(i, e), c, a) == lookup_balance(s, c, a) by {
            let su = s.update(i, e);
            assert(su.last() == s.last());
            if !(s.last().coin == c && s.last().account == a) {
                assert(lookup_balance(su, c, a) == lookup_balance(
                    s.drop_last().update(i, e),
                    c,
                    a,
                ));
                assert(lookup_balance(s.drop_last().update(i, e), c, a) == lookup_balance(
                    s.drop_last(),
                    c,
                    a,
                ));
            }
        }
    }
}

/// Effect of appending an entry under a fresh key.
pub proof fn lemma_lookup_push_new(s: Seq<BalanceEntry>, e: BalanceEntry)
    requires
        unique_balance_keys(s),
        !has_balance_key(s, e.coin, e.account),
    ensures
        unique_balance_keys(s.push(e)),
        lookup_balance(s.push(e), e.coin, e.account) == e.amount,
        forall|c: u32, a: u64|
            !(c == e.coin && a == e.account) ==> #[trigger] lookup_balance(s.push(e), c, a)
                == lookup_balance(s, c, a),
        forall|c: u32|
            #[trigger] coin_sum(s.push(e), c) == coin_sum(s, c) + if e.coin == c {
                e.amount as int
            } else {
                0
            },
{
    assert(s.push(e).drop_last() =~= s);
    assert forall|c: u32, a: u64| !(c == e.coin && a == e.account) implies #[trigger]
        lookup_balance(s.push(e), c, a) == lookup_balance(s, c, a) by {
        assert(s.push(e).last() == e);
    }
}

/// Index of the entry keyed (coin, account), if any.
pub fn find_balance(v: &Vec<BalanceEntry>, coin: u32, account: u64) -> (r: Option<usize>)
    ensures
        match r {
            Some(i) => i < v@.len() && v@[i as int].coin == coin && v@[i as int].account
                == account,
            None => !has_balance_key(v@, coin, account),
        },
{
    let mut i: usize = 0;
    while i < v.len()
        invariant
            i <= v@.len(),
            forall|k: int| 0 <= k < i ==> !((#[trigger] v@[k]).coin == coin && v@[k].account == account),
        decreases v@.len() - i,
    {
        if v[i].coin == coin && v[i].account == account {
            return Some(i);
        }
        i = i + 1;
    }
    None
}

/// The amount stored under (coin, account); zero when absent.
pub fn balance_get(v: &Vec<BalanceEntry>, coin: u32, account: u64) -> (r: u128)
    requires
        unique_balance_keys(v@),
    ensures
        r == lookup_balance(v@, coin, account),
{
    match find_balance(v, coin, account) {
        Some(i) => {
            proof {
                lemma_lookup_at(v@, i as int);
            }
            v[i].amount
        },
        None => {
            proof {
                lemma_lookup_absent(v@, coin, account);
            }
            0
        },
    }
}

/// Stores `amount` under (coin, account), inserting the cell if absent.
pub fn balance_set(v: &mut Vec<BalanceEntry>, coin: u32, account: u64, amount: u128)
    requires
        unique_balance_keys(old(v)@),
    ensures
        unique_balance_keys(final(v)@),
        lookup_balance(final(v)@, coin, account) == amount,
        forall|c: u32, a: u64|
            !(c == coin && a == account) ==> #[trigger] lookup_balance(final(v)@, c, a)
                == lookup_balance(old(v)@, c, a),
        forall|c: u32|
            #[trigger] coin_sum(final(v)@, c) == coin_sum(old(v)@, c) + if c == coin {
                amount as int - lookup_balance(old(v)@, coin, account) as int
            } else {
                0
            },
        forall|n: int|
            balance_coins_lt(old(v)@, n) && (coin as int) < n ==> balance_coins_lt(final(v)@, n),
{
    let e = BalanceEntry { coin, account, amount };
    match find_balance(v, coin, account) {
        Some(i) => {
            proof {
                lemma_lookup_at(v@, i as int);
                lemma_lookup_update_same_key(v@, i as int, e);
                assert forall|c: u32| #[trigger] coin_sum(v@.update(i as int, e), c) == coin_sum(
                    v@,
                    c,
                ) + (if c == coin {
                    amount as int - lookup_balance(v@, coin, account) as int
                } else {
                    0
                }) by {
                    lemma_coin_sum_update(v@, i as int, e, c);
                }
            }
            v[i] = e;
        },
        None => {
            proof {
                lemma_lookup_absent(v@, coin, account);
                lemma_lookup_push_new(v@, e);
            }
            v.push(e);
        },
    }
}

/// No two grant entries are the same (coin, account) pair.
pub open spec fn unique_pairs(s: Seq<(u32, u64)>) -> bool {
    forall|i: int, j: int| 0 <= i < j < s.len() ==> #[trigger] s[i] != #[trigger] s[j]
}

/// The (coin, account) pair is granted.
pub open spec fn has_pair(s: Seq<(u32, u64)>, coin: u32, account: u64) -> bool {
    exists|i: int| 0 <= i < s.len() && #[trigger] s[i] == (coin, account)
}

/// Every grant's coin id lies below `n`.
pub open spec fn pair_coins_lt(s: Seq<(u32, u64)>, n: int) -> bool {
    forall|i: int| 0 <= i < s.len() ==> (#[trigger] s[i]).0 < n
}

/// Whether the (coin, account) pair is present.
pub fn pair_contains(v: &Vec<(u32, u64)>, coin: u32, account: u64) -> (r: bool)
    ensures
        r == has_pair(v@, coin, account),
{
    let mut i: usize = 0;
    while i < v.len()
        invariant
            i <= v@.len(),
            forall|k: int| 0 <= k < i ==> #[trigger] v@[k] != (coin, account),
        decreases v@.len() - i,
    {
        if v[i].0 == coin && v[i].1 == account {
            return true;
        }
        i = i + 1;
    }
    false
}

/// Adds the (coin, account) pair; no effect when already present.
pub fn pair_insert(v: &mut Vec<(u32, u64)>, coin: u32, account: u64)
    requires
        unique_pairs(old(v)@),
    ensures
        unique_pairs(final(v)@),
        has_pair(final(v)@, coin, account),
        forall|c: u32, a: u64|
            !(c == coin && a == account) ==> #[trigger] has_pair(final(v)@, c, a) == has_pair(
                old(v)@,
                c,
                a,
            ),
        forall|n: int| pair_coins_lt(old(v)@, n) && (coin as int) < n ==> pair_coins_lt(final(v)@, n),
{
    if !pair_contains(v, coin, account) {
        let ghost s = v@;
        v.push((coin, account));
        proof {
            assert(v@[s.len() as int] == (coin, account));
            assert(unique_pairs(v@)) by {
                assert(forall|k: int| 0 <= k < s.len() ==> #[trigger] v@[k] == s[k]);
            }
            assert forall|c: u32, a: u64| !(c == coin && a == account) implies #[trigger] has_pair(
                v@,
                c,
                a,
            ) == has_pair(s, c, a) by {
                if has_pair(v@, c, a) {
                    let i = choose|i: int| 0 <= i < v@.len() && v@[i] == (c, a);
                    assert(i < s.len());
                    assert(s[i] == (c, a));
                }
                if has_pair(s, c, a) {
                    let i = choose|i: int| 0 <= i < s.len() && s[i] == (c, a);
                    assert(v@[i] == (c, a));
                }
            }
        }
    }
}

/// Removes the (coin, account) pair; no effect when absent.
pub fn pair_remove(v: &mut Vec<(u32, u64)>, coin: u32, account: u64)
    requires
        unique_pairs(old(v)@),
    ensures
        unique_pairs(final(v)@),
        !has_pair(final(v)@, coin, account),
        forall|c: u32, a: u64|
            !(c == coin && a == account) ==> #[trigger] has_pair(final(v)@, c, a) == has_pair(
                old(v)@,
                c,
                a,
            ),
        forall|n: int| pair_coins_lt(old(v)@, n) ==> pair_coins_lt(final(v)@, n),
{
    let mut i: usize = 0;
    while i < v.len()
        invariant
            unique_pairs(v@),
            i <= v@.len(),
            v@ == old(v)@,
            forall|k: int| 0 <= k < i ==> #[trigger] v@[k] != (coin, account),
        decreases v@.len() - i,
    {
        if v[i].0 == coin && v[i].1 == account {
            let ghost s = v@;
            v.swap_remove(i);
            proof {
                assert(v@ =~= s.update(i as int, s.last()).drop_last());
                assert forall|c: u32, a: u64| !(c == coin && a == account) implies #[trigger]
                    has_pair(v@, c, a) == has_pair(s, c, a) by {
                    if has_pair(s, c, a) {
                        let k = choose|k: int| 0 <= k < s.len() && s[k] == (c, a);
                        if k == s.len() - 1 {
                            assert(v@[i as int] == (c, a));
                        } else if k != i {
                            assert(v@[k] == (c, a));
                        }
                    }
                    if has_pair(v@, c, a) {
                        let k = choose|k: int| 0 <= k < v@.len() && v@[k] == (c, a);
                        if k == i {
                            assert(s.last() == (c, a));
                        } else {
                            assert(s[k] == (c, a));
                        }
                    }
                }
                assert(!has_pair(v@, coin, account)) by {
                    if has_pair(v@, coin, account) {
                        let k = choose|k: int|
                            0 <= k < v@.len() && v@[k] == (coin, account);
                        if k == i {
                            assert(s.last() == (coin, account));
                        } else {
                            assert(s[k] == (coin, account));
                        }
                    }
                }
            }
            return ;
        }
        i = i + 1;
    }
}

/// No two entries of the association vector share a key.
pub open spec fn unique_assoc_keys<V>(s: Seq<(u64, V)>) -> bool {
    forall|i: int, j: int| 0 <= i < j < s.len() ==> (#[trigger] s[i]).0 != (#[trigger] s[j]).0
}

/// Some entry carries the key.
pub open spec fn assoc_has_key<V>(s: Seq<(u64, V)>, key: u64) -> bool {
    exists|i: int| 0 <= i < s.len() && (#[trigger] s[i]).0 == key
}

/// The value stored under `key`, if any.
pub open spec fn assoc_lookup<V>(s: Seq<(u64, V)>, key: u64) -> Option<V>
    decreases s.len(),
{
    if s.len() == 0 {
        None
    } else if s.last().0 == key {
        Some(s.last().1)
    } else {
        assoc_lookup(s.drop_last(), key)
    }
}

/// Every key lies below `n`.
pub open spec fn assoc_keys_lt<V>(s: Seq<(u64, V)>, n: u64) -> bool {
    forall|i: int| 0 <= i < s.len() ==> (#[trigger] s[i]).0 < n
}

/// Under unique keys, the entry at index `i` is what lookup returns.
pub proof fn lemma_assoc_lookup_at<V>(s: Seq<(u64, V)>, i: int)
    requires
        unique_assoc_keys(s),
        0 <= i < s.len(),
    ensures
        assoc_lookup(s, s[i].0) == Some(s[i].1),
    decreases s.len(),
{
    if i < s.len() - 1 {
        lemma_assoc_lookup_at(s.drop_last(), i);
    }
}

/// When no entry carries the key, lookup returns nothing.
pub proof fn lemma_assoc_lookup_absent<V>(s: Seq<(u64, V)>, key: u64)
    requires
        !assoc_has_key(s, key),
    ensures
        assoc_lookup(s, key) is None,
    decreases s.len(),
{
    if s.len() > 0 {
        assert(!assoc_has_key(s.drop_last(), key));
        lemma_assoc_lookup_absent(s.drop_last(), key);
    }
}

/// Lookup frame between two association vectors that hold the same
/// entries for every key other than `key`: if each key other than `key`
/// is carried by an entry of `s1` exactly when an equal entry of `s2`
/// carries it, the lookups agree on that key.
pub proof fn lemma_assoc_lookup_frame<V>(s1: Seq<(u64, V)>, s2: Seq<(u64, V)>, key: u64)
    requires
        unique_assoc_keys(s1),
        unique_assoc_keys(s2),
        forall|i: int|
            0 <= i < s1.len() && (#[trigger] s1[i]).0 == key ==> exists|j: int|
                0 <= j < s2.len() && #[trigger] s2[j] == s1[i],
        forall|j: int|
            0 <= j < s2.len() && (#[trigger] s2[j]).0 == key ==> exists|i: int|
                0 <= i < s1.len() && #[trigger] s1[i] == s2[j],
    ensures
        assoc_lookup(s1, key) == assoc_lookup(s2, key),
{
    if assoc_has_key(s1, key) {
        let i = choose|i: int| 0 <= i < s1.len() && (#[trigger] s1[i]).0 == key;
        let j = choose|j: int| 0 <= j < s2.len() && #[trigger] s2[j] == s1[i];
        lemma_assoc_lookup_at(s1, i);
        lemma_assoc_lookup_at(s2, j);
    } else {
        lemma_assoc_lookup_absent(s1, key);
        if assoc_has_key(s2, key) {
            let j = choose|j: int| 0 <= j < s2.len() && (#[trigger] s2[j]).0 == key;
            let i = choose|i: int| 0 <= i < s1.len() && #[trigger] s1[i] == s2[j];
            assert(false);
        }
        lemma_assoc_lookup_absent(s2, key);
    }
}

/// Frame of an in-place update of the entry at `i` that keeps its key:
/// that key now maps to the new value, every other key is untouched.
pub proof fn lemma_assoc_update_at<V>(s: Seq<(u64, V)>, s2: Seq<(u64, V)>, i: int)
    requires
        unique_assoc_keys(s),
        0 <= i < s.len(),
        s2.len() == s.len(),
        s2[i].0 == s[i].0,
        forall|x: int| 0 <= x < s.len() && x != i ==> #[trigger] s2[x] == s[x],
    ensures
        unique_assoc_keys(s2),
        assoc_lookup(s2, s[i].0) == Some(s2[i].1),
        forall|k: u64| k != s[i].0 ==> #[trigger] assoc_lookup(s2, k) == assoc_lookup(s, k),
{
    assert(unique_assoc_keys(s2));
    lemma_assoc_lookup_at(s2, i);
    assert forall|k: u64| k != s[i].0 implies #[trigger] assoc_lookup(s2, k) == assoc_lookup(
        s,
        k,
    ) by {
        assert forall|j: int| 0 <= j < s.len() && (#[trigger] s[j]).0 == k implies exists|x: int|
            0 <= x < s2.len() && #[trigger] s2[x] == s[j] by {
            assert(s2[j] == s[j]);
        }
        assert forall|j: int| 0 <= j < s2.len() && (#[trigger] s2[j]).0 == k implies exists|x: int|
            0 <= x < s.len() && #[trigger] s[x] == s2[j] by {
            assert(s[j] == s2[j]);
        }
        lemma_assoc_lookup_frame(s2, s, k);
    }
}

/// Index of the entry keyed `key`, if any.
pub fn assoc_find<V>(v: &Vec<(u64, V)>, key: u64) -> (r: Option<usize>)
    ensures
        match r {
            Some(i) => i < v@.len() && v@[i as int].0 == key,
            None => !assoc_has_key(v@, key),
        },
{
    let mut i: usize = 0;
    while i < v.len()
        invariant
            i <= v@.len(),
            forall|k: int| 0 <= k < i ==> (#[trigger] v@[k]).0 != key,
        decreases v@.len() - i,
    {
        if v[i].0 == key {
            return Some(i);
        }
        i = i + 1;
    }
    None
}

/// Replaces the value stored at index `i` (keeping its key) by `value`.
pub fn assoc_replace_at<V>(v: &mut Vec<(u64, V)>, i: usize, value: V)
    requires
        unique_assoc_keys(old(v)@),
        i < old(v)@.len(),
    ensures
        unique_assoc_keys(final(v)@),
        final(v)@.len() == old(v)@.len(),
        assoc_lookup(final(v)@, old(v)@[i as int].0) == Some(value),
        forall|k: u64|
            k != old(v)@[i as int].0 ==> #[trigger] assoc_lookup(final(v)@, k) == assoc_lookup(
                old(v)@,
                k,
            ),
        forall|n: u64| assoc_keys_lt(old(v)@, n) ==> assoc_keys_lt(final(v)@, n),
        forall|x: int|
            0 <= x < final(v)@.len() ==> #[trigger] final(v)@[x] == (old(v)@[i as int].0, value)
                || old(v)@.contains(final(v)@[x]),
{
    let ghost s = v@;
    let key = v[i].0;
    v.swap_remove(i);
    v.push((key, value));
    proof {
        let s2 = v@;
        assert(s2 =~= s.update(i as int, s.last()).drop_last().push((key, value)));
        assert(s2.len() == s.len());
        assert(s2[s.len() - 1] == (key, value));
        // every old entry other than the one at `i` survives, and vice versa
        assert forall|k: int| #![trigger s[k]] 0 <= k < s.len() && k != i implies exists|j: int|
            0 <= j < s2.len() && #[trigger] s2[j] == s[k] by {
            if k == s.len() - 1 {
                assert(s2[i as int] == s[k]);
            } else {
                assert(s2[k] == s[k]);
            }
        }
        assert forall|j: int| #![trigger s2[j]] 0 <= j < s2.len() - 1 implies exists|k: int|
            0 <= k < s.len() && k != i && #[trigger] s[k] == s2[j] by {
            if j == i {
                if i < s.len() - 1 {
                    assert(s[s.len() - 1] == s2[j]);
                }
            } else {
                assert(s[j] == s2[j]);
            }
        }
        assert(unique_assoc_keys(s2)) by {
            assert forall|x: int, y: int| 0 <= x < y < s2.len() implies (#[trigger] s2[x]).0 != (
            #[trigger] s2[y]).0 by {
                if y == s2.len() - 1 {
                    // s2[y].0 == key == s[i].0; s2[x] equals some s[k] with k != i
                    let k = choose|k: int| 0 <= k < s.len() && k != i && #[trigger] s[k] == s2[x];
                    assert(s[k].0 != s[i as int].0);
                } else {
                    let kx = choose|k: int| 0 <= k < s.len() && k != i && #[trigger] s[k] == s2[x];
                    let ky = choose|k: int| 0 <= k < s.len() && k != i && #[trigger] s[k] == s2[y];
                    if kx != ky {
                    } else {
                        // same source index but distinct targets is impossible:
                        // both s2[x] and s2[y] equal s[kx], whose key occurs once
                        if x == i as int {
                            assert(s2[x] == s.last());
                        }
                    }
                }
            }
        }
        lemma_assoc_lookup_at(s2, s.len() - 1);
        assert forall|k: u64| k != s[i as int].0 implies #[trigger] assoc_lookup(s2, k)
            == assoc_lookup(s, k) by {
            lemma_assoc_lookup_frame(s2, s, k);
        }
        assert forall|x: int| 0 <= x < s2.len() implies #[trigger] s2[x] == (s[i as int].0, value)
            || s.contains(s2[x]) by {
            if x < s2.len() - 1 {
                let k = choose|k: int| 0 <= k < s.len() && k != i && #[trigger] s[k] == s2[x];
                assert(s[k] == s2[x]);
            }
        }
    }
}

/// Appends an entry under a key no entry carries yet.
pub fn assoc_insert_new<V>(v: &mut Vec<(u64, V)>, key: u64, value: V)
    requires
        unique_assoc_keys(old(v)@),
        !assoc_has_key(old(v)@, key),
    ensures
        unique_assoc_keys(final(v)@),
        final(v)@.len() == old(v)@.len() + 1,
        assoc_lookup(final(v)@, key) == Some(value),
        forall|k: u64|
            k != key ==> #[trigger] assoc_lookup(final(v)@, k) == assoc_lookup(old(v)@, k),
        forall|n: u64|
            assoc_keys_lt(old(v)@, n) && key < n ==> assoc_keys_lt(final(v)@, n),
        forall|x: int|
            0 <= x < final(v)@.len() ==> #[trigger] final(v)@[x] == (key, value) || old(
                v,
            )@.contains(final(v)@[x]),
{
    let ghost s = v@;
    v.push((key, value));
    proof {
        assert(v@.drop_last() =~= s);
        assert(unique_assoc_keys(v@)) by {
            assert(forall|k: int| 0 <= k < s.len() ==> #[trigger] v@[k] == s[k]);
            assert(v@[s.len() as int].0 == key);
        }
        assert forall|k: u64| k != key implies #[trigger] assoc_lookup(v@, k) == assoc_lookup(
            s,
            k,
        ) by {
            assert(v@.last().0 == key);
        }
        assert forall|x: int| 0 <= x < v@.len() implies #[trigger] v@[x] == (key, value)
            || s.contains(v@[x]) by {
            if x < s.len() {
                assert(v@[x] == s[x]);
            }
        }
    }
}

/// Removes the entry keyed `key`; no effect when absent.
pub fn assoc_remove_key<V>(v: &mut Vec<(u64, V)>, key: u64)
    requires
        unique_assoc_keys(old(v)@),
    ensures
        unique_assoc_keys(final(v)@),
        assoc_lookup(final(v)@, key) is None,
        forall|k: u64|
            k != key ==> #[trigger] assoc_lookup(final(v)@, k) == assoc_lookup(old(v)@, k),
        forall|n: u64| assoc_keys_lt(old(v)@, n) ==> assoc_keys_lt(final(v)@, n),
        forall|x: int| 0 <= x < final(v)@.len() ==> old(v)@.contains(#[trigger] final(v)@[x]),
{
    match assoc_find(v, key) {
        Some(i) => {
            let ghost s = v@;
            v.swap_remove(i);
            proof {
                let s2 = v@;
                assert(s2 =~= s.update(i as int, s.last()).drop_last());
                assert forall|x: int| #![trigger s2[x]] 0 <= x < s2.len() implies exists|k: int|
                    0 <= k < s.len() && k != i && #[trigger] s[k] == s2[x] by {
                    if x == i {
                        assert(s[s.len() - 1] == s2[x]);
                    } else {
                        assert(s[x] == s2[x]);
                    }
                }
                assert forall|k: int| #![trigger s[k]] 0 <= k < s.len() && k != i implies exists|x: int|
                    0 <= x < s2.len() && #[trigger] s2[x] == s[k] by {
                    if k == s.len() - 1 {
                        if i < s.len() - 1 {
                            assert(s2[i as int] == s[k]);
                        }
                    } else {
                        assert(s2[k] == s[k]);
                    }
                }
                assert(unique_assoc_keys(s2)) by {
                    assert forall|x: int, y: int| 0 <= x < y < s2.len() implies (
                    #[trigger] s2[x]).0 != (#[trigger] s2[y]).0 by {
                        let kx = choose|k: int|
                            0 <= k < s.len() && k != i && #[trigger] s[k] == s2[x];
                        let ky = choose|k: int|
                            0 <= k < s.len() && k != i && #[trigger] s[k] == s2[y];
                        if kx == ky {
                            if x == i as int {
                                assert(s2[x] == s.last());
                            }
                        }
                    }
                }
                assert(!assoc_has_key(s2, key)) by {
                    if assoc_has_key(s2, key) {
                        let x = choose|x: int| 0 <= x < s2.len() && (#[trigger] s2[x]).0 == key;
                        let k = choose|k: int|
                            0 <= k < s.len() && k != i && #[trigger] s[k] == s2[x];
                    }
                }
                lemma_assoc_lookup_absent(s2, key);
                assert forall|k: u64| k != key implies #[trigger] assoc_lookup(s2, k)
                    == assoc_lookup(s, k) by {
                    lemma_assoc_lookup_frame(s2, s, k);
                }
                assert forall|x: int| 0 <= x < s2.len() implies s.contains(#[trigger] s2[x]) by {
                    let k = choose|k: int| 0 <= k < s.len() && k != i && #[trigger] s[k] == s2[x];
                    assert(s[k] == s2[x]);
                }
            }
        },
        None => {
            proof {
                lemma_assoc_lookup_absent(v@, key);
                assert(forall|x: int| 0 <= x < v@.len() ==> v@.contains(#[trigger] v@[x]));
            }
        },
    }
}

} // verus!
