//! In-core association maps used by the ledger.
//!
//! Balances are held as a vector of `(account, amount)` entries with
//! pairwise-distinct keys; allowances as a vector keyed by an
//! `(owner, spender)` pair. Lookup defaults to zero for a missing key,
//! matching a store that never wrote the key.

use vstd::prelude::*;

verus! {

/// No two balance entries share an account key.
pub open spec fn keys_unique(s: Seq<(String, u128)>) -> bool {
    forall|i: int, j: int| 0 <= i < j < s.len() ==> s[i].0@ != s[j].0@
}

/// Some entry carries the key `k`.
pub open spec fn has_key(s: Seq<(String, u128)>, k: Seq<char>) -> bool {
    exists|i: int| 0 <= i < s.len() && s[i].0@ == k
}

/// The amount recorded under `k`, zero when `k` is absent.
pub open spec fn amount_of(s: Seq<(String, u128)>, k: Seq<char>) -> u128
    decreases s.len(),
{
    if s.len() == 0 {
        0
    } else if s[0].0@ == k {
        s[0].1
    } else {
        amount_of(s.drop_first(), k)
    }
}

/// The sum of all recorded amounts, as a mathematical integer.
pub open spec fn sum_of(s: Seq<(String, u128)>) -> int
    decreases s.len(),
{
    if s.len() == 0 {
        0
    } else {
        s[0].1 + sum_of(s.drop_first())
    }
}

pub proof fn lemma_unique_drop_first(s: Seq<(String, u128)>)
    requires
        keys_unique(s),
        s.len() > 0,
    ensures
        keys_unique(s.drop_first()),
{
    assert forall|a: int, b: int|
        0 <= a < b < s.drop_first().len() implies s.drop_first()[a].0@ != s.drop_first()[b].0@ by {
        assert(s.drop_first()[a] == s[a + 1]);
        assert(s.drop_first()[b] == s[b + 1]);
    }
}

pub proof fn lemma_sum_nonneg(s: Seq<(String, u128)>)
    ensures
        sum_of(s) >= 0,
    decreases s.len(),
{
    if s.len() > 0 {
        lemma_sum_nonneg(s.drop_first());
    }
}

/// No single entry exceeds the sum of all entries.
pub proof fn lemma_amount_le_sum(s: Seq<(String, u128)>, k: Seq<char>)
    ensures
        amount_of(s, k) <= sum_of(s),
    decreases s.len(),
{
    if s.len() == 0 {
    } else if s[0].0@ == k {
        lemma_sum_nonneg(s.drop_first());
    } else {
        lemma_amount_le_sum(s.drop_first(), k);
        assert(s[0].1 >= 0);
    }
}

pub proof fn lemma_amount_absent(s: Seq<(String, u128)>, k: Seq<char>)
    requires
        forall|i: int| 0 <= i < s.len() ==> s[i].0@ != k,
    ensures
        amount_of(s, k) == 0,
    decreases s.len(),
{
    if s.len() > 0 {
        assert forall|i: int| 0 <= i < s.drop_first().len() implies s.drop_first()[i].0@ != k by {
            assert(s.drop_first()[i] == s[i + 1]);
        }
        lemma_amount_absent(s.drop_first(), k);
    }
}

pub proof fn lemma_amount_found(s: Seq<(String, u128)>, k: Seq<char>, i: int)
    requires
        keys_unique(s),
        0 <= i < s.len(),
        s[i].0@ == k,
    ensures
        amount_of(s, k) == s[i].1,
    decreases i,
{
    if i > 0 {
        assert(s[0].0@ != k);
        lemma_unique_drop_first(s);
        assert(s.drop_first()[i - 1] == s[i]);
        lemma_amount_found(s.drop_first(), k, i - 1);
    }
}

pub proof fn lemma_sum_update(s: Seq<(String, u128)>, i: int, x: (String, u128))
    requires
        0 <= i < s.len(),
    ensures
        sum_of(s.update(i, x)) == sum_of(s) - s[i].1 + x.1,
    decreases i,
{
    let t = s.update(i, x);
    if i == 0 {
        assert(t.drop_first() =~= s.drop_first());
        assert(t[0] == x);
    } else {
        assert(t.drop_first() =~= s.drop_first().update(i - 1, x));
        assert(s.drop_first()[i - 1] == s[i]);
        lemma_sum_update(s.drop_first(), i - 1, x);
        assert(t[0] == s[0]);
    }
}

pub proof fn lemma_sum_push(s: Seq<(String, u128)>, x: (String, u128))
    ensures
        sum_of(s.push(x)) == sum_of(s) + x.1,
    decreases s.len(),
{
    let t = s.push(x);
    if s.len() == 0 {
        assert(t[0] == x);
        assert(t.drop_first() =~= Seq::<(String, u128)>::empty());
        assert(sum_of(t.drop_first()) == 0);
        assert(sum_of(t) == x.1 + sum_of(t.drop_first()));
    } else {
        assert(t[0] == s[0]);
        assert(t.drop_first() =~= s.drop_first().push(x));
        lemma_sum_push(s.drop_first(), x);
        assert(sum_of(t) == s[0].1 + sum_of(t.drop_first()));
    }
}

/// Overwriting the entry at `i` with an equal key changes that key's
/// amount and nothing else.
pub proof fn lemma_amount_update(s: Seq<(String, u128)>, i: int, x: (String, u128))
    requires
        keys_unique(s),
        0 <= i < s.len(),
        x.0@ == s[i].0@,
    ensures
        keys_unique(s.update(i, x)),
        amount_of(s.update(i, x), x.0@) == x.1,
        forall|k: Seq<char>| k != x.0@ ==> amount_of(s.update(i, x), k) == amount_of(s, k),
{
    let t = s.update(i, x);
    assert forall|a: int, b: int| 0 <= a < b < t.len() implies t[a].0@ != t[b].0@ by {
        assert(t[a].0@ == s[a].0@);
        assert(t[b].0@ == s[b].0@);
    }
    lemma_amount_found(t, x.0@, i);
    assert forall|k: Seq<char>| k != x.0@ implies amount_of(t, k) == amount_of(s, k) by {
        if has_key(s, k) {
            let j = choose|j: int| 0 <= j < s.len() && s[j].0@ == k;
            assert(j != i);
            lemma_amount_found(s, k, j);
            assert(t[j] == s[j]);
            lemma_amount_found(t, k, j);
        } else {
            assert forall|j: int| 0 <= j < s.len() implies s[j].0@ != k by {
                if s[j].0@ == k {
                    assert(has_key(s, k));
                }
            }
            lemma_amount_absent(s, k);
            assert forall|j: int| 0 <= j < t.len() implies t[j].0@ != k by {
                if j != i {
                    assert(t[j] == s[j]);
                }
            }
            lemma_amount_absent(t, k);
        }
    }
}

/// Appending an entry under a fresh key records its amount and leaves
/// every other key's amount unchanged.
pub proof fn lemma_amount_push(s: Seq<(String, u128)>, x: (String, u128))
    requires
        keys_unique(s),
        forall|j: int| 0 <= j < s.len() ==> s[j].0@ != x.0@,
    ensures
        keys_unique(s.push(x)),
        amount_of(s.push(x), x.0@) == x.1,
        forall|k: Seq<char>| k != x.0@ ==> amount_of(s.push(x), k) == amount_of(s, k),
{
    let t = s.push(x);
    assert forall|a: int, b: int| 0 <= a < b < t.len() implies t[a].0@ != t[b].0@ by {
        if b == s.len() {
            assert(t[a] == s[a]);
            assert(t[b] == x);
        } else {
            assert(t[a] == s[a]);
            assert(t[b] == s[b]);
        }
    }
    assert(t[s.len() as int] == x);
    lemma_amount_found(t, x.0@, s.len() as int);
    assert forall|k: Seq<char>| k != x.0@ implies amount_of(t, k) == amount_of(s, k) by {
        if has_key(s, k) {
            let j = choose|j: int| 0 <= j < s.len() && s[j].0@ == k;
            lemma_amount_found(s, k, j);
            assert(t[j] == s[j]);
            lemma_amount_found(t, k, j);
        } else {
            assert forall|j: int| 0 <= j < s.len() implies s[j].0@ != k by {
                if s[j].0@ == k {
                    assert(has_key(s, k));
                }
            }
            lemma_amount_absent(s, k);
            assert forall|j: int| 0 <= j < t.len() implies t[j].0@ != k by {
                if j < s.len() {
                    assert(t[j] == s[j]);
                } else {
                    assert(t[j] == x);
                }
            }
            lemma_amount_absent(t, k);
        }
    }
}

/// No two allowance entries share an `(owner, spender)` key.
pub open spec fn pair_keys_unique(s: Seq<((String, String), u128)>) -> bool {
    forall|i: int, j: int|
        0 <= i < j < s.len() ==> !(s[i].0.0@ == s[j].0.0@ && s[i].0.1@ == s[j].0.1@)
}

/// Some entry carries the `(o, p)` key.
pub open spec fn has_pair_key(s: Seq<((String, String), u128)>, o: Seq<char>, p: Seq<char>) -> bool {
    exists|i: int| 0 <= i < s.len() && s[i].0.0@ == o && s[i].0.1@ == p
}

/// The amount recorded under `(o, p)`, zero when the pair is absent.
pub open spec fn allowance_of(s: Seq<((String, String), u128)>, o: Seq<char>, p: Seq<char>) -> u128
    decreases s.len(),
{
    if s.len() == 0 {
        0
    } else if s[0].0.0@ == o && s[0].0.1@ == p {
        s[0].1
    } else {
        allowance_of(s.drop_first(), o, p)
    }
}

pub proof fn lemma_pair_unique_drop_first(s: Seq<((String, String), u128)>)
    requires
        pair_keys_unique(s),
        s.len() > 0,
    ensures
        pair_keys_unique(s.drop_first()),
{
    assert forall|a: int, b: int|
        0 <= a < b < s.drop_first().len() implies !(s.drop_first()[a].0.0@ == s.drop_first()[b].0.0@
        && s.drop_first()[a].0.1@ == s.drop_first()[b].0.1@) by {
        assert(s.drop_first()[a] == s[a + 1]);
        assert(s.drop_first()[b] == s[b + 1]);
    }
}

pub proof fn lemma_allowance_absent(s: Seq<((String, String), u128)>, o: Seq<char>, p: Seq<char>)
    requires
        forall|i: int| 0 <= i < s.len() ==> !(s[i].0.0@ == o && s[i].0.1@ == p),
    ensures
        allowance_of(s, o, p) == 0,
    decreases s.len(),
{
    if s.len() > 0 {
        assert forall|i: int|
            0 <= i < s.drop_first().len() implies !(s.drop_first()[i].0.0@ == o
            && s.drop_first()[i].0.1@ == p) by {
            assert(s.drop_first()[i] == s[i + 1]);
        }
        lemma_allowance_absent(s.drop_first(), o, p);
    }
}

pub proof fn lemma_allowance_found(
    s: Seq<((String, String), u128)>,
    o: Seq<char>,
    p: Seq<char>,
    i: int,
)
    requires
        pair_keys_unique(s),
        0 <= i < s.len(),
        s[i].0.0@ == o,
        s[i].0.1@ == p,
    ensures
        allowance_of(s, o, p) == s[i].1,
    decreases i,
{
    if i > 0 {
        assert(!(s[0].0.0@ == o && s[0].0.1@ == p));
        lemma_pair_unique_drop_first(s);
        assert(s.drop_first()[i - 1] == s[i]);
        lemma_allowance_found(s.drop_first(), o, p, i - 1);
    }
}

/// Overwriting the entry at `i` with an equal pair key changes that
/// pair's allowance and nothing else.
pub proof fn lemma_allowance_update(
    s: Seq<((String, String), u128)>,
    i: int,
    x: ((String, String), u128),
)
    requires
        pair_keys_unique(s),
        0 <= i < s.len(),
        x.0.0@ == s[i].0.0@,
        x.0.1@ == s[i].0.1@,
    ensures
        pair_keys_unique(s.update(i, x)),
        allowance_of(s.update(i, x), x.0.0@, x.0.1@) == x.1,
        forall|a: Seq<char>, b: Seq<char>|
            !(a == x.0.0@ && b == x.0.1@) ==> allowance_of(s.update(i, x), a, b) == allowance_of(
                s,
                a,
                b,
            ),
{
    let t = s.update(i, x);
    assert forall|a: int, b: int|
        0 <= a < b < t.len() implies !(t[a].0.0@ == t[b].0.0@ && t[a].0.1@ == t[b].0.1@) by {
        assert(t[a].0.0@ == s[a].0.0@ && t[a].0.1@ == s[a].0.1@);
        assert(t[b].0.0@ == s[b].0.0@ && t[b].0.1@ == s[b].0.1@);
    }
    lemma_allowance_found(t, x.0.0@, x.0.1@, i);
    assert forall|a: Seq<char>, b: Seq<char>|
        !(a == x.0.0@ && b == x.0.1@) implies allowance_of(t, a, b) == allowance_of(s, a, b) by {
        if has_pair_key(s, a, b) {
            let j = choose|j: int| 0 <= j < s.len() && s[j].0.0@ == a && s[j].0.1@ == b;
            assert(j != i);
            lemma_allowance_found(s, a, b, j);
            assert(t[j] == s[j]);
            lemma_allowance_found(t, a, b, j);
        } else {
            assert forall|j: int| 0 <= j < s.len() implies !(s[j].0.0@ == a && s[j].0.1@ == b) by {
                if s[j].0.0@ == a && s[j].0.1@ == b {
                    assert(has_pair_key(s, a, b));
                }
            }
            lemma_allowance_absent(s, a, b);
            assert forall|j: int| 0 <= j < t.len() implies !(t[j].0.0@ == a && t[j].0.1@ == b) by {
                if j != i {
                    assert(t[j] == s[j]);
                }
            }
            lemma_allowance_absent(t, a, b);
        }
    }
}

/// Appending an entry under a fresh pair key records its allowance and
/// leaves every other pair unchanged.
pub proof fn lemma_allowance_push(s: Seq<((String, String), u128)>, x: ((String, String), u128))
    requires
        pair_keys_unique(s),
        forall|j: int| 0 <= j < s.len() ==> !(s[j].0.0@ == x.0.0@ && s[j].0.1@ == x.0.1@),
    ensures
        pair_keys_unique(s.push(x)),
        allowance_of(s.push(x), x.0.0@, x.0.1@) == x.1,
        forall|a: Seq<char>, b: Seq<char>|
            !(a == x.0.0@ && b == x.0.1@) ==> allowance_of(s.push(x), a, b) == allowance_of(
                s,
                a,
                b,
            ),
{
    let t = s.push(x);
    assert forall|a: int, b: int|
        0 <= a < b < t.len() implies !(t[a].0.0@ == t[b].0.0@ && t[a].0.1@ == t[b].0.1@) by {
        if b == s.len() {
            assert(t[a] == s[a]);
            assert(t[b] == x);
        } else {
            assert(t[a] == s[a]);
            assert(t[b] == s[b]);
        }
    }
    assert(t[s.len() as int] == x);
    lemma_allowance_found(t, x.0.0@, x.0.1@, s.len() as int);
    assert forall|a: Seq<char>, b: Seq<char>|
        !(a == x.0.0@ && b == x.0.1@) implies allowance_of(t, a, b) == allowance_of(s, a, b) by {
        if has_pair_key(s, a, b) {
            let j = choose|j: int| 0 <= j < s.len() && s[j].0.0@ == a && s[j].0.1@ == b;
            lemma_allowance_found(s, a, b, j);
            assert(t[j] == s[j]);
            lemma_allowance_found(t, a, b, j);
        } else {
            assert forall|j: int| 0 <= j < s.len() implies !(s[j].0.0@ == a && s[j].0.1@ == b) by {
                if s[j].0.0@ == a && s[j].0.1@ == b {
                    assert(has_pair_key(s, a, b));
                }
            }
            lemma_allowance_absent(s, a, b);
            assert forall|j: int| 0 <= j < t.len() implies !(t[j].0.0@ == a && t[j].0.1@ == b) by {
                if j < s.len() {
                    assert(t[j] == s[j]);
                } else {
                    assert(t[j] == x);
                }
            }
            lemma_allowance_absent(t, a, b);
        }
    }
}

/// Reads the allowance recorded under `(owner, spender)`, zero when absent.
pub fn lookup_allowance(
    entries: &Vec<((String, String), u128)>,
    owner: &String,
    spender: &String,
) -> (r: u128)
    ensures
        r == allowance_of(entries@, owner@, spender@),
{
    let n: usize = entries.len();
    let mut i: usize = 0;
    proof {
        assert(entries@.skip(0) =~= entries@);
    }
    while i < n
        invariant
            n == entries@.len(),
            i <= n,
            allowance_of(entries@, owner@, spender@) == allowance_of(
                entries@.skip(i as int),
                owner@,
                spender@,
            ),
        decreases n - i,
    {
        if entries[i].0.0 == *owner && entries[i].0.1 == *spender {
            proof {
                assert(entries@.skip(i as int)[0] == entries@[i as int]);
            }
            return entries[i].1;
        }
        proof {
            assert(entries@.skip(i as int)[0] == entries@[i as int]);
            assert(entries@.skip(i as int).drop_first() =~= entries@.skip(i as int + 1));
        }
        i = i + 1;
    }
    proof {
        assert(entries@.skip(n as int) =~= Seq::<((String, String), u128)>::empty());
    }
    0
}

/// Records `amount` under `(owner, spender)`, overwriting any earlier entry.
pub fn store_allowance(
    entries: &mut Vec<((String, String), u128)>,
    owner: &String,
    spender: &String,
    amount: u128,
)
    requires
        pair_keys_unique(old(entries)@),
    ensures
        pair_keys_unique(final(entries)@),
        allowance_of(final(entries)@, owner@, spender@) == amount,
        forall|a: Seq<char>, b: Seq<char>|
            !(a == owner@ && b == spender@) ==> allowance_of(final(entries)@, a, b)
                == allowance_of(old(entries)@, a, b),
{
    let n: usize = entries.len();
    let mut i: usize = 0;
    while i < n
        invariant
            n == entries@.len(),
            i <= n,
            entries@ == old(entries)@,
            pair_keys_unique(entries@),
            forall|j: int| 0 <= j < i ==> !(entries@[j].0.0@ == owner@ && entries@[j].0.1@
                == spender@),
        decreases n - i,
    {
        if entries[i].0.0 == *owner && entries[i].0.1 == *spender {
            let pair = ((owner.clone(), spender.clone()), amount);
            proof {
                lemma_allowance_update(entries@, i as int, pair);
            }
            entries[i] = pair;
            return;
        }
        i = i + 1;
    }
    let pair = ((owner.clone(), spender.clone()), amount);
    proof {
        lemma_allowance_absent(entries@, owner@, spender@);
        lemma_allowance_push(entries@, pair);
    }
    entries.push(pair);
}

/// Reads the amount recorded under `key`, zero when absent.
pub fn lookup_amount(entries: &Vec<(String, u128)>, key: &String) -> (r: u128)
    ensures
        r == amount_of(entries@, key@),
{
    let n: usize = entries.len();
    let mut i: usize = 0;
    proof {
        assert(entries@.skip(0) =~= entries@);
    }
    while i < n
        invariant
            n == entries@.len(),
            i <= n,
            amount_of(entries@, key@) == amount_of(entries@.skip(i as int), key@),
        decreases n - i,
    {
        if entries[i].0 == *key {
            proof {
                assert(entries@.skip(i as int)[0] == entries@[i as int]);
            }
            return entries[i].1;
        }
        proof {
            assert(entries@.skip(i as int)[0] == entries@[i as int]);
            assert(entries@.skip(i as int).drop_first() =~= entries@.skip(i as int + 1));
        }
        i = i + 1;
    }
    proof {
        assert(entries@.skip(n as int) =~= Seq::<(String, u128)>::empty());
    }
    0
}

/// Decides whether no two entries share an account key, so that an
/// unverified host can test the invariant on state it restored.
pub fn keys_are_unique(entries: &Vec<(String, u128)>) -> (b: bool)
    ensures
        b == keys_unique(entries@),
{
    let n: usize = entries.len();
    let mut i: usize = 0;
    while i < n
        invariant
            n == entries@.len(),
            i <= n,
            forall|a: int, c: int| 0 <= a < c < n && a < i ==> entries@[a].0@ != entries@[c].0@,
        decreases n - i,
    {
        let mut j: usize = i + 1;
        while j < n
            invariant
                n == entries@.len(),
                i < j <= n,
                forall|a: int, c: int| 0 <= a < c < n && a < i ==> entries@[a].0@ != entries@[c].0@,
                forall|c: int| i < c < j ==> entries@[i as int].0@ != entries@[c].0@,
            decreases n - j,
        {
            if entries[i].0 == entries[j].0 {
                return false;
            }
            j = j + 1;
        }
        i = i + 1;
    }
    true
}

/// Decides whether no two entries share an `(owner, spender)` key.
pub fn pair_keys_are_unique(entries: &Vec<((String, String), u128)>) -> (b: bool)
    ensures
        b == pair_keys_unique(entries@),
{
    let n: usize = entries.len();
    let mut i: usize = 0;
    while i < n
        invariant
            n == entries@.len(),
            i <= n,
            forall|a: int, c: int|
                0 <= a < c < n && a < i ==> !(entries@[a].0.0@ == entries@[c].0.0@
                    && entries@[a].0.1@ == entries@[c].0.1@),
        decreases n - i,
    {
        let mut j: usize = i + 1;
        while j < n
            invariant
                n == entries@.len(),
                i < j <= n,
                forall|a: int, c: int|
                    0 <= a < c < n && a < i ==> !(entries@[a].0.0@ == entries@[c].0.0@
                        && entries@[a].0.1@ == entries@[c].0.1@),
                forall|c: int|
                    i < c < j ==> !(entries@[i as int].0.0@ == entries@[c].0.0@
                        && entries@[i as int].0.1@ == entries@[c].0.1@),
            decreases n - j,
        {
            if entries[i].0.0 == entries[j].0.0 && entries[i].0.1 == entries[j].0.1 {
                return false;
            }
            j = j + 1;
        }
        i = i + 1;
    }
    true
}

/// Records `amount` under `key`, overwriting any earlier entry.
pub fn store_amount(entries: &mut Vec<(String, u128)>, key: &String, amount: u128)
    requires
        keys_unique(old(entries)@),
    ensures
        keys_unique(final(entries)@),
        amount_of(final(entries)@, key@) == amount,
        forall|k: Seq<char>|
            k != key@ ==> amount_of(final(entries)@, k) == amount_of(old(entries)@, k),
        sum_of(final(entries)@) == sum_of(old(entries)@) - amount_of(old(entries)@, key@)
            + amount,
{
    let n: usize = entries.len();
    let mut i: usize = 0;
    while i < n
        invariant
            n == entries@.len(),
            i <= n,
            entries@ == old(entries)@,
            keys_unique(entries@),
            forall|j: int| 0 <= j < i ==> entries@[j].0@ != key@,
        decreases n - i,
    {
        if entries[i].0 == *key {
            let pair = (key.clone(), amount);
            proof {
                lemma_amount_found(entries@, key@, i as int);
                lemma_sum_update(entries@, i as int, pair);
                lemma_amount_update(entries@, i as int, pair);
            }
            entries[i] = pair;
            return;
        }
        i = i + 1;
    }
    let pair = (key.clone(), amount);
    proof {
        lemma_amount_absent(entries@, key@);
        lemma_sum_push(entries@, pair);
        lemma_amount_push(entries@, pair);
    }
    entries.push(pair);
}

} // verus!
