//! The persistent mappings behind the ledger, each kept as a vector of
//! keyed entries, together with the spec-level lookup and summation
//! functions that the ledger's contracts are stated over.

use vstd::prelude::*;

verus! {

/// Identifier of an asset, chosen by the minting caller.
pub type TokenId = u64;

/// Identifier of an account holding assets.
pub type AccountId = u64;

/// An amount of an asset; arithmetic on it is always checked.
pub type Balance = u64;

/// One recorded holding: `account` holds `amount` of asset `asset`.
pub struct BalanceEntry {
    pub asset: TokenId,
    pub account: AccountId,
    pub amount: Balance,
}

/// Total issued amount of one asset.
pub struct SupplyEntry {
    pub asset: TokenId,
    pub supply: Balance,
}

/// Opaque descriptor blob of one asset.
pub struct UriEntry {
    pub asset: TokenId,
    pub uri: Vec<u8>,
}

/// One blanket delegation: may `operator` act for `owner`.
pub struct ApprovalEntry {
    pub owner: AccountId,
    pub operator: AccountId,
    pub approved: bool,
}

// ---------------------------------------------------------------------
// Spec-level lookups: the value recorded under a key, scanning from the
// most recently appended entry.
// ---------------------------------------------------------------------

pub open spec fn supply_lookup(s: Seq<SupplyEntry>, id: TokenId) -> Option<Balance>
    decreases s.len(),
{
    if s.len() == 0 {
        None
    } else if s.last().asset == id {
        Some(s.last().supply)
    } else {
        supply_lookup(s.drop_last(), id)
    }
}

pub open spec fn bal_lookup(s: Seq<BalanceEntry>, id: TokenId, who: AccountId) -> Option<Balance>
    decreases s.len(),
{
    if s.len() == 0 {
        None
    } else if s.last().asset == id && s.last().account == who {
        Some(s.last().amount)
    } else {
        bal_lookup(s.drop_last(), id, who)
    }
}

pub open spec fn uri_lookup(s: Seq<UriEntry>, id: TokenId) -> Option<Seq<u8>>
    decreases s.len(),
{
    if s.len() == 0 {
        None
    } else if s.last().asset == id {
        Some(s.last().uri@)
    } else {
        uri_lookup(s.drop_last(), id)
    }
}

pub open spec fn appr_lookup(s: Seq<ApprovalEntry>, owner: AccountId, operator: AccountId) -> Option<
    bool,
>
    decreases s.len(),
{
    if s.len() == 0 {
        None
    } else if s.last().owner == owner && s.last().operator == operator {
        Some(s.last().approved)
    } else {
        appr_lookup(s.drop_last(), owner, operator)
    }
}

// ---------------------------------------------------------------------
// The sum of all balances recorded for one asset.
// ---------------------------------------------------------------------

/// What one balance entry contributes to the total held of asset `id`.
pub open spec fn amount_for(e: BalanceEntry, id: TokenId) -> int {
    if e.asset == id {
        e.amount as int
    } else {
        0
    }
}

/// The sum, over all entries, of the amounts recorded for asset `id`.
pub open spec fn bal_sum(s: Seq<BalanceEntry>, id: TokenId) -> int
    decreases s.len(),
{
    if s.len() == 0 {
        0
    } else {
        bal_sum(s.drop_last(), id) + amount_for(s.last(), id)
    }
}

/// The recorded balance of `who` in asset `id`, with an absent record
/// read as zero.
pub open spec fn recorded_or_zero(s: Seq<BalanceEntry>, id: TokenId, who: AccountId) -> int {
    match bal_lookup(s, id, who) {
        Some(b) => b as int,
        None => 0,
    }
}

// ---------------------------------------------------------------------
// Key uniqueness: each mapping holds at most one entry per key.
// ---------------------------------------------------------------------

pub open spec fn supply_keys_unique(s: Seq<SupplyEntry>) -> bool {
    forall|i: int, j: int|
        0 <= i < s.len() && 0 <= j < s.len() && i != j ==> s[i].asset != s[j].asset
}

pub open spec fn bal_keys_unique(s: Seq<BalanceEntry>) -> bool {
    forall|i: int, j: int|
        0 <= i < s.len() && 0 <= j < s.len() && i != j ==> !(s[i].asset == s[j].asset
            && s[i].account == s[j].account)
}

pub open spec fn uri_keys_unique(s: Seq<UriEntry>) -> bool {
    forall|i: int, j: int|
        0 <= i < s.len() && 0 <= j < s.len() && i != j ==> s[i].asset != s[j].asset
}

pub open spec fn appr_keys_unique(s: Seq<ApprovalEntry>) -> bool {
    forall|i: int, j: int|
        0 <= i < s.len() && 0 <= j < s.len() && i != j ==> !(s[i].owner == s[j].owner
            && s[i].operator == s[j].operator)
}

// ---------------------------------------------------------------------
// Executable key searches. Each returns the index of the entry that the
// spec lookup reads (the latest entry under the key), and records that
// no later entry carries the same key.
// ---------------------------------------------------------------------

pub fn supply_index(v: &Vec<SupplyEntry>, id: TokenId) -> (r: Option<usize>)
    ensures
        (r is Some ==> r.unwrap() < v@.len() && v@[r.unwrap() as int].asset == id
            && supply_lookup(v@, id) == Some(v@[r.unwrap() as int].supply) && (forall|j: int|
            r.unwrap() < j < v@.len() ==> v@[j].asset != id)),
        (r is None ==> supply_lookup(v@, id) is None && (forall|j: int|
            0 <= j < v@.len() ==> v@[j].asset != id)),
{
    let mut i: usize = v.len();
    proof {
        assert(v@.subrange(0, v@.len() as int) =~= v@);
    }
    while i > 0
        invariant
            i <= v@.len(),
            supply_lookup(v@, id) == supply_lookup(v@.subrange(0, i as int), id),
            forall|j: int| i <= j < v@.len() ==> v@[j].asset != id,
        decreases i,
    {
        if v[i - 1].asset == id {
            proof {
                assert(v@.subrange(0, i as int).last() == v@[i - 1]);
            }
            return Some(i - 1);
        }
        proof {
            assert(v@.subrange(0, i as int).drop_last() =~= v@.subrange(0, i - 1));
        }
        i = i - 1;
    }
    None
}

pub fn bal_index(v: &Vec<BalanceEntry>, id: TokenId, who: AccountId) -> (r: Option<usize>)
    ensures
        (r is Some ==> r.unwrap() < v@.len() && v@[r.unwrap() as int].asset == id
            && v@[r.unwrap() as int].account == who && bal_lookup(v@, id, who) == Some(
            v@[r.unwrap() as int].amount,
        ) && (forall|j: int|
            r.unwrap() < j < v@.len() ==> !(v@[j].asset == id && v@[j].account == who))),
        (r is None ==> bal_lookup(v@, id, who) is None && (forall|j: int|
            0 <= j < v@.len() ==> !(v@[j].asset == id && v@[j].account == who))),
{
    let mut i: usize = v.len();
    proof {
        assert(v@.subrange(0, v@.len() as int) =~= v@);
    }
    while i > 0
        invariant
            i <= v@.len(),
            bal_lookup(v@, id, who) == bal_lookup(v@.subrange(0, i as int), id, who),
            forall|j: int| i <= j < v@.len() ==> !(v@[j].asset == id && v@[j].account == who),
        decreases i,
    {
        if v[i - 1].asset == id && v[i - 1].account == who {
            proof {
                assert(v@.subrange(0, i as int).last() == v@[i - 1]);
            }
            return Some(i - 1);
        }
        proof {
            assert(v@.subrange(0, i as int).drop_last() =~= v@.subrange(0, i - 1));
        }
        i = i - 1;
    }
    None
}

pub fn uri_index(v: &Vec<UriEntry>, id: TokenId) -> (r: Option<usize>)
    ensures
        (r is Some ==> r.unwrap() < v@.len() && v@[r.unwrap() as int].asset == id && uri_lookup(
            v@,
            id,
        ) == Some(v@[r.unwrap() as int].uri@) && (forall|j: int|
            r.unwrap() < j < v@.len() ==> v@[j].asset != id)),
        (r is None ==> uri_lookup(v@, id) is None && (forall|j: int|
            0 <= j < v@.len() ==> v@[j].asset != id)),
{
    let mut i: usize = v.len();
    proof {
        assert(v@.subrange(0, v@.len() as int) =~= v@);
    }
    while i > 0
        invariant
            i <= v@.len(),
            uri_lookup(v@, id) == uri_lookup(v@.subrange(0, i as int), id),
            forall|j: int| i <= j < v@.len() ==> v@[j].asset != id,
        decreases i,
    {
        if v[i - 1].asset == id {
            proof {
                assert(v@.subrange(0, i as int).last() == v@[i - 1]);
            }
            return Some(i - 1);
        }
        proof {
            assert(v@.subrange(0, i as int).drop_last() =~= v@.subrange(0, i - 1));
        }
        i = i - 1;
    }
    None
}

pub fn appr_index(v: &Vec<ApprovalEntry>, owner: AccountId, operator: AccountId) -> (r: Option<
    usize,
>)
    ensures
        (r is Some ==> r.unwrap() < v@.len() && v@[r.unwrap() as int].owner == owner
            && v@[r.unwrap() as int].operator == operator && appr_lookup(v@, owner, operator)
            == Some(v@[r.unwrap() as int].approved) && (forall|j: int|
            r.unwrap() < j < v@.len() ==> !(v@[j].owner == owner && v@[j].operator == operator))),
        (r is None ==> appr_lookup(v@, owner, operator) is None && (forall|j: int|
            0 <= j < v@.len() ==> !(v@[j].owner == owner && v@[j].operator == operator))),
{
    let mut i: usize = v.len();
    proof {
        assert(v@.subrange(0, v@.len() as int) =~= v@);
    }
    while i > 0
        invariant
            i <= v@.len(),
            appr_lookup(v@, owner, operator) == appr_lookup(
                v@.subrange(0, i as int),
                owner,
                operator,
            ),
            forall|j: int| i <= j < v@.len() ==> !(v@[j].owner == owner && v@[j].operator
                == operator),
        decreases i,
    {
        if v[i - 1].owner == owner && v[i - 1].operator == operator {
            proof {
                assert(v@.subrange(0, i as int).last() == v@[i - 1]);
            }
            return Some(i - 1);
        }
        proof {
            assert(v@.subrange(0, i as int).drop_last() =~= v@.subrange(0, i - 1));
        }
        i = i - 1;
    }
    None
}

// ---------------------------------------------------------------------
// How appending or replacing one entry changes the lookups and the sums.
// ---------------------------------------------------------------------

pub proof fn lemma_supply_push(s: Seq<SupplyEntry>, e: SupplyEntry)
    ensures
        supply_lookup(s.push(e), e.asset) == Some(e.supply),
        forall|x: TokenId| x != e.asset ==> supply_lookup(s.push(e), x) == supply_lookup(s, x),
{
    assert(s.push(e).drop_last() =~= s);
    assert(s.push(e).last() == e);
    assert forall|x: TokenId| x != e.asset implies supply_lookup(s.push(e), x) == supply_lookup(
        s,
        x,
    ) by {
        assert(supply_lookup(s.push(e), x) == supply_lookup(s.push(e).drop_last(), x));
    }
}

pub proof fn lemma_bal_push(s: Seq<BalanceEntry>, e: BalanceEntry)
    ensures
        bal_lookup(s.push(e), e.asset, e.account) == Some(e.amount),
        forall|x: TokenId, a: AccountId|
            !(x == e.asset && a == e.account) ==> bal_lookup(s.push(e), x, a) == bal_lookup(
                s,
                x,
                a,
            ),
{
    assert(s.push(e).drop_last() =~= s);
    assert(s.push(e).last() == e);
    assert forall|x: TokenId, a: AccountId| !(x == e.asset && a == e.account) implies bal_lookup(
        s.push(e),
        x,
        a,
    ) == bal_lookup(s, x, a) by {
        assert(bal_lookup(s.push(e), x, a) == bal_lookup(s.push(e).drop_last(), x, a));
    }
}

pub proof fn lemma_uri_push(s: Seq<UriEntry>, e: UriEntry)
    ensures
        uri_lookup(s.push(e), e.asset) == Some(e.uri@),
        forall|x: TokenId| x != e.asset ==> uri_lookup(s.push(e), x) == uri_lookup(s, x),
{
    assert(s.push(e).drop_last() =~= s);
    assert(s.push(e).last() == e);
    assert forall|x: TokenId| x != e.asset implies uri_lookup(s.push(e), x) == uri_lookup(
        s,
        x,
    ) by {
        assert(uri_lookup(s.push(e), x) == uri_lookup(s.push(e).drop_last(), x));
    }
}

pub proof fn lemma_appr_push(s: Seq<ApprovalEntry>, e: ApprovalEntry)
    ensures
        appr_lookup(s.push(e), e.owner, e.operator) == Some(e.approved),
        forall|o: AccountId, p: AccountId|
            !(o == e.owner && p == e.operator) ==> appr_lookup(s.push(e), o, p) == appr_lookup(
                s,
                o,
                p,
            ),
{
    assert(s.push(e).drop_last() =~= s);
    assert(s.push(e).last() == e);
    assert forall|o: AccountId, p: AccountId| !(o == e.owner && p == e.operator) implies
        appr_lookup(s.push(e), o, p) == appr_lookup(s, o, p) by {
        assert(appr_lookup(s.push(e), o, p) == appr_lookup(s.push(e).drop_last(), o, p));
    }
}

/// Replacing the latest entry under a key changes that key's lookup to
/// the new entry's value and no other key's lookup at all.
pub proof fn lemma_bal_update(s: Seq<BalanceEntry>, i: int, e: BalanceEntry)
    requires
        0 <= i < s.len(),
        e.asset == s[i].asset,
        e.account == s[i].account,
        forall|j: int|
            i < j < s.len() ==> !(s[j].asset == s[i].asset && s[j].account == s[i].account),
    ensures
        bal_lookup(s.update(i, e), e.asset, e.account) == Some(e.amount),
        forall|x: TokenId, a: AccountId|
            !(x == e.asset && a == e.account) ==> bal_lookup(s.update(i, e), x, a) == bal_lookup(
                s,
                x,
                a,
            ),
    decreases s.len(),
{
    let t = s.update(i, e);
    if i == s.len() - 1 {
        assert(t.last() == e);
        assert(t.drop_last() =~= s.drop_last());
        assert(s.last() == s[i]);
        assert forall|x: TokenId, a: AccountId| !(x == e.asset && a == e.account) implies
            bal_lookup(t, x, a) == bal_lookup(s, x, a) by {
            assert(bal_lookup(t, x, a) == bal_lookup(s.drop_last(), x, a));
            assert(bal_lookup(s, x, a) == bal_lookup(s.drop_last(), x, a));
        }
    } else {
        assert(t.last() == s.last());
        assert(t.drop_last() =~= s.drop_last().update(i, e));
        assert forall|j: int|
            i < j < s.drop_last().len() implies !(s.drop_last()[j].asset == s.drop_last()[i].asset
            && s.drop_last()[j].account == s.drop_last()[i].account) by {
            assert(s.drop_last()[j] == s[j]);
            assert(s.drop_last()[i] == s[i]);
        }
        assert(s.drop_last()[i] == s[i]);
        lemma_bal_update(s.drop_last(), i, e);
        assert(!(s.last().asset == s[i].asset && s.last().account == s[i].account));
        assert(bal_lookup(t, e.asset, e.account) == bal_lookup(t.drop_last(), e.asset, e.account));
        assert forall|x: TokenId, a: AccountId| !(x == e.asset && a == e.account) implies
            bal_lookup(t, x, a) == bal_lookup(s, x, a) by {
            if s.last().asset == x && s.last().account == a {
                assert(bal_lookup(t, x, a) == Some(s.last().amount));
                assert(bal_lookup(s, x, a) == Some(s.last().amount));
            } else {
                assert(bal_lookup(t, x, a) == bal_lookup(t.drop_last(), x, a));
                assert(bal_lookup(s, x, a) == bal_lookup(s.drop_last(), x, a));
            }
        }
    }
}

/// Same, for the blanket-approval registry.
pub proof fn lemma_appr_update(s: Seq<ApprovalEntry>, i: int, e: ApprovalEntry)
    requires
        0 <= i < s.len(),
        e.owner == s[i].owner,
        e.operator == s[i].operator,
        forall|j: int|
            i < j < s.len() ==> !(s[j].owner == s[i].owner && s[j].operator == s[i].operator),
    ensures
        appr_lookup(s.update(i, e), e.owner, e.operator) == Some(e.approved),
        forall|o: AccountId, p: AccountId|
            !(o == e.owner && p == e.operator) ==> appr_lookup(s.update(i, e), o, p) == appr_lookup(
                s,
                o,
                p,
            ),
    decreases s.len(),
{
    let t = s.update(i, e);
    if i == s.len() - 1 {
        assert(t.last() == e);
        assert(t.drop_last() =~= s.drop_last());
        assert(s.last() == s[i]);
        assert forall|o: AccountId, p: AccountId| !(o == e.owner && p == e.operator) implies
            appr_lookup(t, o, p) == appr_lookup(s, o, p) by {
            assert(appr_lookup(t, o, p) == appr_lookup(s.drop_last(), o, p));
            assert(appr_lookup(s, o, p) == appr_lookup(s.drop_last(), o, p));
        }
    } else {
        assert(t.last() == s.last());
        assert(t.drop_last() =~= s.drop_last().update(i, e));
        assert forall|j: int|
            i < j < s.drop_last().len() implies !(s.drop_last()[j].owner == s.drop_last()[i].owner
            && s.drop_last()[j].operator == s.drop_last()[i].operator) by {
            assert(s.drop_last()[j] == s[j]);
            assert(s.drop_last()[i] == s[i]);
        }
        assert(s.drop_last()[i] == s[i]);
        lemma_appr_update(s.drop_last(), i, e);
        assert(!(s.last().owner == s[i].owner && s.last().operator == s[i].operator));
        assert(appr_lookup(t, e.owner, e.operator) == appr_lookup(
            t.drop_last(),
            e.owner,
            e.operator,
        ));
        assert forall|o: AccountId, p: AccountId| !(o == e.owner && p == e.operator) implies
            appr_lookup(t, o, p) == appr_lookup(s, o, p) by {
            if s.last().owner == o && s.last().operator == p {
                assert(appr_lookup(t, o, p) == Some(s.last().approved));
                assert(appr_lookup(s, o, p) == Some(s.last().approved));
            } else {
                assert(appr_lookup(t, o, p) == appr_lookup(t.drop_last(), o, p));
                assert(appr_lookup(s, o, p) == appr_lookup(s.drop_last(), o, p));
            }
        }
    }
}

pub proof fn lemma_bal_sum_push(s: Seq<BalanceEntry>, e: BalanceEntry)
    ensures
        forall|x: TokenId| bal_sum(s.push(e), x) == bal_sum(s, x) + amount_for(e, x),
{
    assert(s.push(e).drop_last() =~= s);
    assert(s.push(e).last() == e);
    assert forall|x: TokenId| bal_sum(s.push(e), x) == bal_sum(s, x) + amount_for(e, x) by {
        assert(bal_sum(s.push(e), x) == bal_sum(s.push(e).drop_last(), x) + amount_for(e, x));
    }
}

pub proof fn lemma_bal_sum_update(s: Seq<BalanceEntry>, i: int, e: BalanceEntry)
    requires
        0 <= i < s.len(),
    ensures
        forall|x: TokenId|
            bal_sum(s.update(i, e), x) == bal_sum(s, x) + amount_for(e, x) - amount_for(s[i], x),
    decreases s.len(),
{
    let t = s.update(i, e);
    if i == s.len() - 1 {
        assert(t.last() == e);
        assert(t.drop_last() =~= s.drop_last());
        assert(s.last() == s[i]);
        assert forall|x: TokenId|
            bal_sum(t, x) == bal_sum(s, x) + amount_for(e, x) - amount_for(s[i], x) by {
            assert(bal_sum(t, x) == bal_sum(s.drop_last(), x) + amount_for(e, x));
            assert(bal_sum(s, x) == bal_sum(s.drop_last(), x) + amount_for(s[i], x));
        }
    } else {
        assert(t.last() == s.last());
        assert(t.drop_last() =~= s.drop_last().update(i, e));
        assert(s.drop_last()[i] == s[i]);
        lemma_bal_sum_update(s.drop_last(), i, e);
        assert forall|x: TokenId|
            bal_sum(t, x) == bal_sum(s, x) + amount_for(e, x) - amount_for(s[i], x) by {
            assert(bal_sum(t, x) == bal_sum(t.drop_last(), x) + amount_for(s.last(), x));
            assert(bal_sum(s, x) == bal_sum(s.drop_last(), x) + amount_for(s.last(), x));
            assert(bal_sum(s.drop_last().update(i, e), x) == bal_sum(s.drop_last(), x)
                + amount_for(e, x) - amount_for(s.drop_last()[i], x));
        }
    }
}

/// An asset no entry records has a zero balance sum.
pub proof fn lemma_bal_sum_absent(s: Seq<BalanceEntry>, id: TokenId)
    requires
        forall|j: int| 0 <= j < s.len() ==> s[j].asset != id,
    ensures
        bal_sum(s, id) == 0,
    decreases s.len(),
{
    if s.len() > 0 {
        assert forall|j: int| 0 <= j < s.drop_last().len() implies s.drop_last()[j].asset != id by {
            assert(s.drop_last()[j] == s[j]);
        }
        lemma_bal_sum_absent(s.drop_last(), id);
        assert(amount_for(s.last(), id) == 0);
    }
}

/// Every balance sum is non-negative.
pub proof fn lemma_bal_sum_nonneg(s: Seq<BalanceEntry>, id: TokenId)
    ensures
        bal_sum(s, id) >= 0,
    decreases s.len(),
{
    if s.len() > 0 {
        lemma_bal_sum_nonneg(s.drop_last(), id);
    }
}

/// One record's amount never exceeds its asset's balance sum.
pub proof fn lemma_bal_sum_lower(s: Seq<BalanceEntry>, i: int, id: TokenId)
    requires
        0 <= i < s.len(),
        s[i].asset == id,
    ensures
        s[i].amount <= bal_sum(s, id),
    decreases s.len(),
{
    if i == s.len() - 1 {
        lemma_bal_sum_nonneg(s.drop_last(), id);
        assert(s.last() == s[i]);
    } else {
        assert(s.drop_last()[i] == s[i]);
        lemma_bal_sum_lower(s.drop_last(), i, id);
    }
}

/// Two distinct records of one asset together never exceed its balance sum.
pub proof fn lemma_bal_sum_pair(s: Seq<BalanceEntry>, i: int, j: int, id: TokenId)
    requires
        0 <= i < j < s.len(),
        s[i].asset == id,
        s[j].asset == id,
    ensures
        s[i].amount + s[j].amount <= bal_sum(s, id),
    decreases s.len(),
{
    if j == s.len() - 1 {
        assert(s.drop_last()[i] == s[i]);
        assert(s.last() == s[j]);
        lemma_bal_sum_lower(s.drop_last(), i, id);
    } else {
        assert(s.drop_last()[i] == s[i]);
        assert(s.drop_last()[j] == s[j]);
        lemma_bal_sum_pair(s.drop_last(), i, j, id);
    }
}

/// A recorded balance value is some entry's amount field.
pub proof fn lemma_bal_lookup_some(s: Seq<BalanceEntry>, id: TokenId, who: AccountId)
    requires
        bal_lookup(s, id, who) is Some,
    ensures
        exists|j: int|
            0 <= j < s.len() && s[j].asset == id && s[j].account == who && s[j].amount
                == bal_lookup(s, id, who).unwrap(),
    decreases s.len(),
{
    if s.last().asset == id && s.last().account == who {
        assert(s[s.len() - 1].asset == id && s[s.len() - 1].account == who);
    } else {
        lemma_bal_lookup_some(s.drop_last(), id, who);
        let j = choose|j: int|
            0 <= j < s.drop_last().len() && s.drop_last()[j].asset == id
                && s.drop_last()[j].account == who && s.drop_last()[j].amount == bal_lookup(
                s.drop_last(),
                id,
                who,
            ).unwrap();
        assert(s[j].asset == id && s[j].account == who && s[j].amount == bal_lookup(
            s,
            id,
            who,
        ).unwrap());
    }
}

/// A recorded supply value is some entry's supply field.
pub proof fn lemma_supply_lookup_some(s: Seq<SupplyEntry>, id: TokenId)
    requires
        supply_lookup(s, id) is Some,
    ensures
        exists|j: int|
            0 <= j < s.len() && s[j].asset == id && s[j].supply == supply_lookup(s, id).unwrap(),
    decreases s.len(),
{
    if s.last().asset == id {
        assert(s[s.len() - 1].asset == id);
    } else {
        lemma_supply_lookup_some(s.drop_last(), id);
        let j = choose|j: int|
            0 <= j < s.drop_last().len() && s.drop_last()[j].asset == id && s.drop_last()[j].supply
                == supply_lookup(s.drop_last(), id).unwrap();
        assert(s[j].asset == id && s[j].supply == supply_lookup(s, id).unwrap());
    }
}

// ---------------------------------------------------------------------
// Executable writes: record a value under a key, replacing the existing
// entry or appending a fresh one.
// ---------------------------------------------------------------------

/// Record that `who` now holds `val` of asset `id`.
pub fn bal_set(v: &mut Vec<BalanceEntry>, id: TokenId, who: AccountId, val: Balance)
    ensures
        bal_lookup(final(v)@, id, who) == Some(val),
        forall|x: TokenId, a: AccountId|
            !(x == id && a == who) ==> bal_lookup(final(v)@, x, a) == bal_lookup(old(v)@, x, a),
        forall|x: TokenId|
            bal_sum(final(v)@, x) == bal_sum(old(v)@, x) + (if x == id {
                val - recorded_or_zero(old(v)@, id, who)
            } else {
                0
            }),
        bal_keys_unique(old(v)@) ==> bal_keys_unique(final(v)@),
        forall|j: int|
            0 <= j < final(v)@.len() ==> final(v)@[j].asset == id || (exists|k: int|
                0 <= k < old(v)@.len() && #[trigger] old(v)@[k].asset == final(v)@[j].asset),
{
    let e = BalanceEntry { asset: id, account: who, amount: val };
    match bal_index(v, id, who) {
        Some(i) => {
            proof {
                let t = v@.update(i as int, e);
                lemma_bal_update(v@, i as int, e);
                lemma_bal_sum_update(v@, i as int, e);
                if bal_keys_unique(v@) {
                    assert forall|a2: int, b2: int|
                        0 <= a2 < t.len() && 0 <= b2 < t.len() && a2 != b2 implies !(t[a2].asset
                        == t[b2].asset && t[a2].account == t[b2].account) by {
                        assert(t[a2].asset == v@[a2].asset && t[a2].account == v@[a2].account);
                        assert(t[b2].asset == v@[b2].asset && t[b2].account == v@[b2].account);
                    }
                }
                assert forall|j: int|
                    0 <= j < t.len() implies t[j].asset == id || (exists|k: int|
                    0 <= k < v@.len() && #[trigger] v@[k].asset == t[j].asset) by {
                    if j != i {
                        assert(v@[j].asset == t[j].asset);
                    }
                }
            }
            v[i] = e;
        },
        None => {
            proof {
                let t = v@.push(e);
                lemma_bal_push(v@, e);
                lemma_bal_sum_push(v@, e);
                if bal_keys_unique(v@) {
                    assert forall|a2: int, b2: int|
                        0 <= a2 < t.len() && 0 <= b2 < t.len() && a2 != b2 implies !(t[a2].asset
                        == t[b2].asset && t[a2].account == t[b2].account) by {
                        assert(t.last() == e);
                    }
                }
                assert forall|j: int|
                    0 <= j < t.len() implies t[j].asset == id || (exists|k: int|
                    0 <= k < v@.len() && #[trigger] v@[k].asset == t[j].asset) by {
                    if j < v@.len() {
                        assert(v@[j].asset == t[j].asset);
                    }
                }
            }
            v.push(e);
        },
    }
}

/// Record whether `operator` may act for `owner`.
pub fn appr_set(v: &mut Vec<ApprovalEntry>, owner: AccountId, operator: AccountId, approved: bool)
    ensures
        appr_lookup(final(v)@, owner, operator) == Some(approved),
        forall|o: AccountId, p: AccountId|
            !(o == owner && p == operator) ==> appr_lookup(final(v)@, o, p) == appr_lookup(
                old(v)@,
                o,
                p,
            ),
        appr_keys_unique(old(v)@) ==> appr_keys_unique(final(v)@),
{
    let e = ApprovalEntry { owner: owner, operator: operator, approved: approved };
    match appr_index(v, owner, operator) {
        Some(i) => {
            proof {
                let t = v@.update(i as int, e);
                lemma_appr_update(v@, i as int, e);
                if appr_keys_unique(v@) {
                    assert forall|a2: int, b2: int|
                        0 <= a2 < t.len() && 0 <= b2 < t.len() && a2 != b2 implies !(t[a2].owner
                        == t[b2].owner && t[a2].operator == t[b2].operator) by {
                        assert(t[a2].owner == v@[a2].owner && t[a2].operator == v@[a2].operator);
                        assert(t[b2].owner == v@[b2].owner && t[b2].operator == v@[b2].operator);
                    }
                }
            }
            v[i] = e;
        },
        None => {
            proof {
                let t = v@.push(e);
                lemma_appr_push(v@, e);
                if appr_keys_unique(v@) {
                    assert forall|a2: int, b2: int|
                        0 <= a2 < t.len() && 0 <= b2 < t.len() && a2 != b2 implies !(t[a2].owner
                        == t[b2].owner && t[a2].operator == t[b2].operator) by {
                        assert(t.last() == e);
                    }
                }
            }
            v.push(e);
        },
    }
}

/// A key the supply lookup misses is missing from every entry.
pub proof fn lemma_supply_lookup_none(s: Seq<SupplyEntry>, id: TokenId)
    requires
        supply_lookup(s, id) is None,
    ensures
        forall|j: int| 0 <= j < s.len() ==> s[j].asset != id,
    decreases s.len(),
{
    if s.len() > 0 {
        lemma_supply_lookup_none(s.drop_last(), id);
        assert forall|j: int| 0 <= j < s.len() implies s[j].asset != id by {
            if j < s.len() - 1 {
                assert(s.drop_last()[j] == s[j]);
            }
        }
    }
}

} // verus!
