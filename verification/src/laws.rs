//! Laws of the ledger that relate several operations or whole states,
//! stated over the same spec functions the operations' contracts use.

use crate::ledger::Pallet;
use crate::ledger::approval_set_post;
use crate::ledger::mint_ok_post;
use crate::store::AccountId;
use crate::store::Balance;
use crate::store::TokenId;
use crate::store::bal_lookup;
use crate::store::lemma_bal_lookup_some;
use crate::store::lemma_bal_sum_pair;
use crate::store::lemma_supply_lookup_some;
use vstd::prelude::*;

verus! {

/// Two ledger states are observably equal: every read-only accessor
/// answers the same on both. The event history is not part of it.
pub open spec fn obs_equiv(a: Pallet, b: Pallet) -> bool {
    &&& a.tokens_count == b.tokens_count
    &&& forall|x: TokenId| a.spec_supply(x) == b.spec_supply(x)
    &&& forall|x: TokenId| a.spec_uri(x) == b.spec_uri(x)
    &&& forall|x: TokenId, c: AccountId| a.spec_balance(x, c) == b.spec_balance(x, c)
    &&& forall|o: AccountId, p: AccountId| a.spec_approval(o, p) == b.spec_approval(o, p)
}

/// Supply conservation: in a well-formed ledger, the balances of a
/// minted asset sum exactly to its recorded total supply — so no
/// sequence of successful operations creates or destroys holdings.
pub proof fn lemma_supply_conservation(p: Pallet, id: TokenId)
    requires
        p.wf(),
        p.spec_supply(id) is Some,
    ensures
        p.asset_sum(id) == p.spec_supply(id).unwrap() as int,
{
    lemma_supply_lookup_some(p.total_supply@, id);
    let j = choose|j: int|
        0 <= j < p.total_supply@.len() && p.total_supply@[j].asset == id
            && p.total_supply@[j].supply == p.spec_supply(id).unwrap();
    assert(p.asset_sum(id) == p.total_supply@[j].supply as int);
}

/// Mint uniqueness: a successful mint of `id` leaves the token in
/// existence, so by `mint`'s contract every further mint of `id` fails
/// with `TokenAlreadyExists` and changes nothing.
pub proof fn lemma_mint_makes_token_exist(
    pre: Pallet,
    post: Pallet,
    to: AccountId,
    id: TokenId,
    amount: Balance,
    uri: Seq<u8>,
)
    requires
        amount != 0,
        mint_ok_post(pre, post, to, id, amount, uri),
    ensures
        post.spec_token_exists(id),
{
}

/// Overflow safety, sharpened: in a well-formed ledger, a transfer that
/// passes the other checks can never overflow the recipient, because the
/// sender's and recipient's balances both live inside the asset's total
/// supply, which itself fits the `Balance` type. The checked addition in
/// `transfer` therefore only ever fires its `Overflow` error on states no
/// sequence of operations can reach.
pub proof fn lemma_transfer_never_overflows(
    p: Pallet,
    id: TokenId,
    from: AccountId,
    to: AccountId,
    amount: Balance,
)
    requires
        p.wf(),
        p.spec_token_exists(id),
        from != to,
        p.bal_or_zero(id, from) >= amount,
    ensures
        p.bal_or_zero(id, to) + amount <= u64::MAX,
{
    lemma_supply_conservation(p, id);
    let b = p.balances@;
    if amount > 0 && p.spec_balance(id, to) is Some {
        lemma_bal_lookup_some(b, id, from);
        let i = choose|i: int|
            0 <= i < b.len() && b[i].asset == id && b[i].account == from && b[i].amount
                == bal_lookup(b, id, from).unwrap();
        lemma_bal_lookup_some(b, id, to);
        let j = choose|j: int|
            0 <= j < b.len() && b[j].asset == id && b[j].account == to && b[j].amount == bal_lookup(
                b,
                id,
                to,
            ).unwrap();
        if i < j {
            lemma_bal_sum_pair(b, i, j, id);
        } else {
            lemma_bal_sum_pair(b, j, i, id);
        }
    }
}

/// Approval idempotence: granting the same approval twice in a row
/// leaves the same observable state as granting it once.
pub proof fn lemma_set_approval_idempotent(
    start: Pallet,
    once: Pallet,
    twice: Pallet,
    owner: AccountId,
    operator: AccountId,
    approved: bool,
)
    requires
        approval_set_post(start, once, owner, operator, approved),
        approval_set_post(once, twice, owner, operator, approved),
    ensures
        obs_equiv(twice, once),
{
    assert forall|o: AccountId, p: AccountId|
        twice.spec_approval(o, p) == once.spec_approval(o, p) by {
        if !(o == owner && p == operator) {
            assert(twice.spec_approval(o, p) == once.spec_approval(o, p));
        }
    }
}

} // verus!
