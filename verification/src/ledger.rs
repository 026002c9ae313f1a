//! The ledger itself: the persisted state (four mappings and the mint
//! counter), the three mutating operations `mint`, `transfer` and
//! `set_approval_for_all`, and the read-only accessors. Every operation
//! is atomic: it either applies all of its writes or none.

use crate::store::AccountId;
use crate::store::ApprovalEntry;
use crate::store::Balance;
use crate::store::BalanceEntry;
use crate::store::SupplyEntry;
use crate::store::TokenId;
use crate::store::UriEntry;
use crate::store::appr_index;
use crate::store::appr_keys_unique;
use crate::store::appr_lookup;
use crate::store::appr_set;
use crate::store::bal_index;
use crate::store::bal_keys_unique;
use crate::store::bal_lookup;
use crate::store::bal_set;
use crate::store::bal_sum;
use crate::store::lemma_bal_push;
use crate::store::lemma_bal_sum_absent;
use crate::store::lemma_bal_sum_push;
use crate::store::lemma_supply_lookup_none;
use crate::store::lemma_supply_lookup_some;
use crate::store::lemma_supply_push;
use crate::store::lemma_uri_push;
use crate::store::recorded_or_zero;
use crate::store::supply_index;
use crate::store::supply_keys_unique;
use crate::store::supply_lookup;
use crate::store::uri_index;
use crate::store::uri_keys_unique;
use crate::store::uri_lookup;
use vstd::prelude::*;

verus! {

/// A typed failure of one of the ledger operations. Every error is
/// reported before any store write lands.
#[derive(Clone, Copy, Debug, PartialEq, Eq, Structural)]
pub enum Error {
    /// Setting Approval For Self
    SettingApprovalForSelf,
    /// Token Does Not Exist
    TokenDoesNotExist,
    /// Token Already Exists
    TokenAlreadyExists,
    /// Same Address
    SameAddress,
    /// Zero Amount
    ZeroAmount,
    /// Insufficient Balance For Transfer
    InsufficientBalanceForTransfer,
    /// Overflow
    Overflow,
}

/// The one domain event each successful operation emits.
#[derive(Clone, Copy, Debug, PartialEq, Eq, Structural)]
pub enum Event {
    TokenMinted { to: AccountId, id: TokenId, amount: Balance },
    ApprovalForAll { owner: AccountId, operator: AccountId, approved: bool },
    TokenTransferred { from: AccountId, to: AccountId, id: TokenId, amount: Balance },
}

/// The ledger state: balances, total supplies, descriptors and blanket
/// approvals, plus the monotonic mint counter and the emitted events.
pub struct Pallet {
    pub tokens_count: u128,
    pub total_supply: Vec<SupplyEntry>,
    pub token_uri: Vec<UriEntry>,
    pub balances: Vec<BalanceEntry>,
    pub operator_approvals: Vec<ApprovalEntry>,
    pub events: Vec<Event>,
}

impl Pallet {
    /// Total supply recorded for asset `id`, if it was ever minted.
    pub open spec fn spec_supply(self, id: TokenId) -> Option<Balance> {
        supply_lookup(self.total_supply@, id)
    }

    /// Descriptor blob recorded for asset `id`.
    pub open spec fn spec_uri(self, id: TokenId) -> Option<Seq<u8>> {
        uri_lookup(self.token_uri@, id)
    }

    /// Balance record of `who` in asset `id`.
    pub open spec fn spec_balance(self, id: TokenId, who: AccountId) -> Option<Balance> {
        bal_lookup(self.balances@, id, who)
    }

    /// Balance of `who` in asset `id`, an absent record read as zero.
    pub open spec fn bal_or_zero(self, id: TokenId, who: AccountId) -> int {
        recorded_or_zero(self.balances@, id, who)
    }

    /// Blanket-approval flag recorded for `(owner, operator)`.
    pub open spec fn spec_approval(self, owner: AccountId, operator: AccountId) -> Option<bool> {
        appr_lookup(self.operator_approvals@, owner, operator)
    }

    /// Sum of all balances recorded for asset `id`, over all accounts.
    pub open spec fn asset_sum(self, id: TokenId) -> int {
        bal_sum(self.balances@, id)
    }

    /// Whether asset `id` exists: it has a supply record of non-zero value.
    pub open spec fn spec_token_exists(self, id: TokenId) -> bool {
        match supply_lookup(self.total_supply@, id) {
            Some(supply) => supply != 0,
            None => false,
        }
    }

    /// Well-formedness, established by `new` and preserved by every
    /// operation: keys are unique, supplies are positive, balance and
    /// descriptor records belong to minted assets, and the balances of
    /// each minted asset sum exactly to its recorded supply.
    pub open spec fn wf(self) -> bool {
        &&& supply_keys_unique(self.total_supply@)
        &&& bal_keys_unique(self.balances@)
        &&& uri_keys_unique(self.token_uri@)
        &&& appr_keys_unique(self.operator_approvals@)
        &&& forall|i: int|
            0 <= i < self.total_supply@.len() ==> self.total_supply@[i].supply > 0
        &&& forall|i: int|
            0 <= i < self.balances@.len() ==> supply_lookup(
                self.total_supply@,
                #[trigger] self.balances@[i].asset,
            ) is Some
        &&& forall|i: int|
            0 <= i < self.token_uri@.len() ==> supply_lookup(
                self.total_supply@,
                #[trigger] self.token_uri@[i].asset,
            ) is Some
        &&& forall|i: int|
            0 <= i < self.total_supply@.len() ==> bal_sum(
                self.balances@,
                #[trigger] self.total_supply@[i].asset,
            ) == self.total_supply@[i].supply as int
    }

    /// A fresh ledger: no assets, no balances, no approvals, no events.
    pub fn new() -> (p: Pallet)
        ensures
            p.wf(),
            p.tokens_count == 0,
            forall|x: TokenId| p.spec_supply(x) is None,
            forall|x: TokenId| p.spec_uri(x) is None,
            forall|x: TokenId, a: AccountId| p.spec_balance(x, a) is None,
            forall|o: AccountId, q: AccountId| p.spec_approval(o, q) is None,
            p.events@ == Seq::<Event>::empty(),
    {
        let p = Pallet {
            tokens_count: 0,
            total_supply: Vec::new(),
            token_uri: Vec::new(),
            balances: Vec::new(),
            operator_approvals: Vec::new(),
            events: Vec::new(),
        };
        proof {
            assert(p.events@ =~= Seq::<Event>::empty());
        }
        p
    }

    /// The number of successful mints so far.
    pub fn get_tokens_count(&self) -> (r: u128)
        ensures
            r == self.tokens_count,
    {
        self.tokens_count
    }

    /// Total supply of asset `id`, `None` if it was never minted.
    pub fn get_total_supply(&self, id: TokenId) -> (r: Option<Balance>)
        ensures
            r == self.spec_supply(id),
    {
        match supply_index(&self.total_supply, id) {
            Some(i) => Some(self.total_supply[i].supply),
            None => None,
        }
    }

    /// Balance record of `who` in asset `id`, `None` if none was written.
    pub fn balance_of(&self, id: TokenId, who: AccountId) -> (r: Option<Balance>)
        ensures
            r == self.spec_balance(id, who),
    {
        match bal_index(&self.balances, id, who) {
            Some(i) => Some(self.balances[i].amount),
            None => None,
        }
    }

    /// Blanket-approval flag for `(owner, operator)`, `None` if never set.
    pub fn operator_approvals(&self, owner: AccountId, operator: AccountId) -> (r: Option<bool>)
        ensures
            r == self.spec_approval(owner, operator),
    {
        match appr_index(&self.operator_approvals, owner, operator) {
            Some(i) => Some(self.operator_approvals[i].approved),
            None => None,
        }
    }

    /// Descriptor blob of asset `id`, `None` if it was never minted.
    pub fn get_token_uri(&self, id: TokenId) -> (r: Option<Vec<u8>>)
        ensures
            r is Some ==> self.spec_uri(id) == Some(r.unwrap()@),
            r is None ==> self.spec_uri(id) is None,
    {
        match uri_index(&self.token_uri, id) {
            Some(i) => {
                let src = &self.token_uri[i].uri;
                let mut out: Vec<u8> = Vec::new();
                let mut k: usize = 0;
                while k < src.len()
                    invariant
                        k <= src@.len(),
                        out@ == src@.subrange(0, k as int),
                    decreases src@.len() - k,
                {
                    out.push(src[k]);
                    proof {
                        assert(out@ =~= src@.subrange(0, k + 1));
                    }
                    k = k + 1;
                }
                proof {
                    assert(out@ =~= src@);
                }
                Some(out)
            },
            None => None,
        }
    }

    /// Whether asset `id` exists. An asset with no supply record does
    /// not exist; a recorded supply of zero counts as non-existent too.
    pub fn token_exists(&self, id: TokenId) -> (r: bool)
        ensures
            r == self.spec_token_exists(id),
    {
        match self.get_total_supply(id) {
            Some(supply) => supply != 0,
            None => false,
        }
    }
}

/// What a successful mint leaves behind: the fresh asset's supply,
/// descriptor and single balance record, a counter one higher, one
/// event, and every other record untouched.
pub open spec fn mint_ok_post(
    pre: Pallet,
    post: Pallet,
    to: AccountId,
    id: TokenId,
    amount: Balance,
    uri: Seq<u8>,
) -> bool {
    &&& post.tokens_count == pre.tokens_count + 1
    &&& post.spec_supply(id) == Some(amount)
    &&& post.spec_uri(id) == Some(uri)
    &&& post.spec_balance(id, to) == Some(amount)
    &&& forall|x: TokenId| x != id ==> post.spec_supply(x) == pre.spec_supply(x)
    &&& forall|x: TokenId| x != id ==> post.spec_uri(x) == pre.spec_uri(x)
    &&& forall|x: TokenId, a: AccountId|
        !(x == id && a == to) ==> post.spec_balance(x, a) == pre.spec_balance(x, a)
    &&& post.operator_approvals == pre.operator_approvals
    &&& post.events@ == pre.events@.push((Event::TokenMinted { to: to, id: id, amount: amount }))
}

/// What a successful transfer does to the balance records, `from` and
/// `to` distinct: the sender's record loses `amount`, the recipient's
/// gains it (created if `amount` is positive and none existed), and
/// nothing else changes.
pub open spec fn transfer_move_post(
    pre: Pallet,
    post: Pallet,
    from: AccountId,
    to: AccountId,
    id: TokenId,
    amount: Balance,
) -> bool {
    &&& post.spec_balance(id, from) == (if pre.spec_balance(id, from) is Some {
        Some((pre.bal_or_zero(id, from) - amount) as Balance)
    } else {
        Option::<Balance>::None
    })
    &&& post.spec_balance(id, to) == (if pre.spec_balance(id, to) is Some || amount > 0 {
        Some((pre.bal_or_zero(id, to) + amount) as Balance)
    } else {
        Option::<Balance>::None
    })
    &&& forall|x: TokenId, a: AccountId|
        !(x == id && (a == from || a == to)) ==> post.spec_balance(x, a) == pre.spec_balance(x, a)
    &&& post.total_supply == pre.total_supply
    &&& post.token_uri == pre.token_uri
    &&& post.operator_approvals == pre.operator_approvals
    &&& post.tokens_count == pre.tokens_count
}

/// A successful public transfer: the balance move plus its one event.
pub open spec fn transfer_ok_post(
    pre: Pallet,
    post: Pallet,
    from: AccountId,
    to: AccountId,
    id: TokenId,
    amount: Balance,
) -> bool {
    &&& transfer_move_post(pre, post, from, to, id, amount)
    &&& post.events@ == pre.events@.push(
        (Event::TokenTransferred { from: from, to: to, id: id, amount: amount }),
    )
}

/// What writing one blanket-approval flag leaves behind: the one flag
/// set, and everything else untouched.
pub open spec fn approval_store_post(
    pre: Pallet,
    post: Pallet,
    owner: AccountId,
    operator: AccountId,
    approved: bool,
) -> bool {
    &&& post.spec_approval(owner, operator) == Some(approved)
    &&& forall|o: AccountId, p: AccountId|
        !(o == owner && p == operator) ==> post.spec_approval(o, p) == pre.spec_approval(o, p)
    &&& post.total_supply == pre.total_supply
    &&& post.token_uri == pre.token_uri
    &&& post.balances == pre.balances
    &&& post.tokens_count == pre.tokens_count
}

/// A successful public approval update: the flag write plus its event.
pub open spec fn approval_set_post(
    pre: Pallet,
    post: Pallet,
    owner: AccountId,
    operator: AccountId,
    approved: bool,
) -> bool {
    &&& approval_store_post(pre, post, owner, operator, approved)
    &&& post.events@ == pre.events@.push(
        (Event::ApprovalForAll { owner: owner, operator: operator, approved: approved }),
    )
}

impl Pallet {
    /// Create asset `id`, issuing `amount` of it to `to` with descriptor
    /// `uri`. Fails if `id` was already minted, if `amount` is zero, or
    /// if the mint counter cannot grow; on failure nothing changes.
    pub fn mint(
        &mut self,
        to: AccountId,
        id: TokenId,
        amount: Balance,
        uri: Vec<u8>,
    ) -> (r: Result<(), Error>)
        requires
            old(self).wf(),
        ensures
            final(self).wf(),
            old(self).spec_token_exists(id) ==> r == Err::<(), Error>(Error::TokenAlreadyExists)
                && *final(self) == *old(self),
            !old(self).spec_token_exists(id) && amount == 0 ==> r == Err::<(), Error>(
                Error::ZeroAmount,
            ) && *final(self) == *old(self),
            !old(self).spec_token_exists(id) && amount != 0 && old(self).tokens_count == u128::MAX
                ==> r == Err::<(), Error>(Error::Overflow) && *final(self) == *old(self),
            !old(self).spec_token_exists(id) && amount != 0 && old(self).tokens_count < u128::MAX
                ==> r == Ok::<(), Error>(()) && mint_ok_post(
                *old(self),
                *final(self),
                to,
                id,
                amount,
                uri@,
            ),
    {
        let ghost uri_snap: Seq<u8> = uri@;
        if self.token_exists(id) {
            return Err(Error::TokenAlreadyExists);
        }
        if amount == 0 {
            return Err(Error::ZeroAmount);
        }
        if self.tokens_count == u128::MAX {
            return Err(Error::Overflow);
        }
        proof {
            let s0 = self.total_supply@;
            let b0 = self.balances@;
            let u0 = self.token_uri@;
            // the asset is fresh: no supply, balance or descriptor record names it
            if supply_lookup(s0, id) is Some {
                lemma_supply_lookup_some(s0, id);
                let j = choose|j: int|
                    0 <= j < s0.len() && s0[j].asset == id && s0[j].supply == supply_lookup(
                        s0,
                        id,
                    ).unwrap();
                assert(s0[j].supply > 0);
                assert(false);
            }
            lemma_supply_lookup_none(s0, id);
            assert forall|j: int| 0 <= j < b0.len() implies b0[j].asset != id by {
                assert(supply_lookup(s0, b0[j].asset) is Some);
            }
            assert forall|j: int| 0 <= j < u0.len() implies u0[j].asset != id by {
                assert(supply_lookup(s0, u0[j].asset) is Some);
            }
            lemma_bal_sum_absent(b0, id);
        }
        self.total_supply.push(SupplyEntry { asset: id, supply: amount });
        self.token_uri.push(UriEntry { asset: id, uri });
        self.balances.push(BalanceEntry { asset: id, account: to, amount });
        self.tokens_count = self.tokens_count + 1;
        self.events.push(Event::TokenMinted { to, id, amount });
        proof {
            let s0 = old(self).total_supply@;
            let b0 = old(self).balances@;
            let u0 = old(self).token_uri@;
            let s1 = self.total_supply@;
            let b1 = self.balances@;
            let u1 = self.token_uri@;
            let se = SupplyEntry { asset: id, supply: amount };
            let be = BalanceEntry { asset: id, account: to, amount: amount };
            assert(s1 == s0.push(se));
            assert(b1 == b0.push(be));
            assert(u1.last().asset == id && u1.last().uri@ == uri_snap);
            lemma_supply_push(s0, se);
            lemma_bal_push(b0, be);
            lemma_bal_sum_push(b0, be);
            lemma_uri_push(u0, u1.last());
            assert(u1 == u0.push(u1.last()));
            // key uniqueness of the three extended stores
            assert forall|i2: int, j2: int|
                0 <= i2 < s1.len() && 0 <= j2 < s1.len() && i2 != j2 implies s1[i2].asset
                != s1[j2].asset by {
                assert(s1.last() == se);
            }
            assert forall|i2: int, j2: int|
                0 <= i2 < b1.len() && 0 <= j2 < b1.len() && i2 != j2 implies !(b1[i2].asset
                == b1[j2].asset && b1[i2].account == b1[j2].account) by {
                assert(b1.last() == be);
            }
            assert forall|i2: int, j2: int|
                0 <= i2 < u1.len() && 0 <= j2 < u1.len() && i2 != j2 implies u1[i2].asset
                != u1[j2].asset by {
                if i2 < u0.len() {
                    assert(u1[i2] == u0[i2]);
                }
                if j2 < u0.len() {
                    assert(u1[j2] == u0[j2]);
                }
            }
            // every balance and descriptor record still names a minted asset
            assert forall|j: int|
                0 <= j < b1.len() implies supply_lookup(s1, #[trigger] b1[j].asset) is Some by {
                if j < b0.len() {
                    assert(b1[j] == b0[j]);
                    assert(supply_lookup(s0, b0[j].asset) is Some);
                    assert(b0[j].asset != id);
                } else {
                    assert(b1[j] == be);
                }
            }
            assert forall|j: int|
                0 <= j < u1.len() implies supply_lookup(s1, #[trigger] u1[j].asset) is Some by {
                if j < u0.len() {
                    assert(u1[j] == u0[j]);
                    assert(supply_lookup(s0, u0[j].asset) is Some);
                    assert(u0[j].asset != id);
                } else {
                    assert(u1[j].asset == id);
                }
            }
            // each minted asset's balances still sum to its supply
            assert forall|k: int|
                0 <= k < s1.len() implies bal_sum(b1, #[trigger] s1[k].asset) == s1[k].supply
                    as int by {
                if k < s0.len() {
                    assert(s1[k] == s0[k]);
                    assert(s0[k].asset != id);
                    assert(bal_sum(b0, s0[k].asset) == s0[k].supply as int);
                    assert(bal_sum(b1, s0[k].asset) == bal_sum(b0, s0[k].asset));
                } else {
                    assert(s1[k] == se);
                    assert(bal_sum(b0, id) == 0);
                    assert(bal_sum(b1, id) == amount as int);
                }
            }
        }
        Ok(())
    }

    /// Move `amount` of asset `id` from `from` to `to`, with no
    /// validation beyond the checked arithmetic itself: an absent
    /// balance record is read as zero, so a sender with no record can
    /// only move a zero amount. Both writes land or neither does.
    pub fn _transfer(
        &mut self,
        from: AccountId,
        to: AccountId,
        id: TokenId,
        amount: Balance,
    ) -> (r: Result<(), Error>)
        requires
            old(self).wf(),
        ensures
            final(self).wf(),
            old(self).bal_or_zero(id, from) < amount ==> r == Err::<(), Error>(
                Error::InsufficientBalanceForTransfer,
            ) && *final(self) == *old(self),
            old(self).bal_or_zero(id, from) >= amount && from == to ==> r == Ok::<(), Error>(())
                && *final(self) == *old(self),
            old(self).bal_or_zero(id, from) >= amount && from != to && old(self).bal_or_zero(
                id,
                to,
            ) + amount > u64::MAX ==> r == Err::<(), Error>(Error::Overflow) && *final(self)
                == *old(self),
            old(self).bal_or_zero(id, from) >= amount && from != to && old(self).bal_or_zero(
                id,
                to,
            ) + amount <= u64::MAX ==> r == Ok::<(), Error>(()) && transfer_move_post(
                *old(self),
                *final(self),
                from,
                to,
                id,
                amount,
            ) && final(self).events == old(self).events,
    {
        let from_idx = bal_index(&self.balances, id, from);
        let b0: Balance = match from_idx {
            Some(i) => self.balances[i].amount,
            None => 0,
        };
        if b0 < amount {
            return Err(Error::InsufficientBalanceForTransfer);
        }
        if from == to {
            // the debit and the credit would cancel; nothing moves
            return Ok(());
        }
        let to_idx = bal_index(&self.balances, id, to);
        let t0: Balance = match to_idx {
            Some(j) => self.balances[j].amount,
            None => 0,
        };
        if t0 > u64::MAX - amount {
            return Err(Error::Overflow);
        }
        proof {
            // whenever a write happens below, the asset is minted: either
            // the sender or the recipient already has a balance record
            if from_idx is Some {
                assert(supply_lookup(
                    self.total_supply@,
                    self.balances@[from_idx.unwrap() as int].asset,
                ) is Some);
                assert(supply_lookup(self.total_supply@, id) is Some);
            }
            if to_idx is Some {
                assert(supply_lookup(
                    self.total_supply@,
                    self.balances@[to_idx.unwrap() as int].asset,
                ) is Some);
                assert(supply_lookup(self.total_supply@, id) is Some);
            }
        }
        if from_idx.is_some() {
            bal_set(&mut self.balances, id, from, b0 - amount);
        }
        let ghost bmid = self.balances@;
        if to_idx.is_some() || amount > 0 {
            bal_set(&mut self.balances, id, to, t0 + amount);
        }
        proof {
            let pre = *old(self);
            let b0v = pre.balances@;
            let b2v = self.balances@;
            let s0 = pre.total_supply@;
            assert(recorded_or_zero(b0v, id, from) == b0 as int);
            assert(bal_lookup(bmid, id, to) == bal_lookup(b0v, id, to));
            assert(recorded_or_zero(bmid, id, to) == t0 as int);
            // the debit and the credit cancel in every asset's sum
            assert forall|x: TokenId| bal_sum(b2v, x) == bal_sum(b0v, x) by {
                assert(bal_sum(b2v, x) == bal_sum(bmid, x) + (if x == id {
                    (t0 + amount) - t0
                } else {
                    0
                }) || b2v == bmid);
                assert(bal_sum(bmid, x) == bal_sum(b0v, x) + (if x == id {
                    (b0 - amount) - b0
                } else {
                    0
                }) || bmid == b0v);
                if to_idx is None && amount == 0 {
                    assert(b2v == bmid);
                }
                if from_idx is None {
                    assert(bmid == b0v);
                    assert(amount == 0);
                }
            }
            // every record still names a minted asset
            assert forall|j: int|
                0 <= j < b2v.len() implies supply_lookup(s0, #[trigger] b2v[j].asset) is Some by {
                let a2 = b2v[j].asset;
                if a2 == id {
                    if from_idx is None && to_idx is None && amount == 0 {
                        assert(b2v == b0v);
                        assert(supply_lookup(s0, b0v[j].asset) is Some);
                    }
                } else {
                    if exists|k1: int| 0 <= k1 < bmid.len() && #[trigger] bmid[k1].asset == a2 {
                        let k1 = choose|k1: int|
                            0 <= k1 < bmid.len() && #[trigger] bmid[k1].asset == a2;
                        if exists|k0: int| 0 <= k0 < b0v.len() && #[trigger] b0v[k0].asset == a2 {
                            let k0 = choose|k0: int|
                                0 <= k0 < b0v.len() && #[trigger] b0v[k0].asset == a2;
                            assert(supply_lookup(s0, b0v[k0].asset) is Some);
                        } else {
                            assert(bmid == b0v || (bmid[k1].asset == id || (exists|k0: int|
                                0 <= k0 < b0v.len() && #[trigger] b0v[k0].asset == bmid[k1].asset)));
                            assert(false);
                        }
                    } else {
                        assert(b2v == bmid || (b2v[j].asset == id || (exists|k1: int|
                            0 <= k1 < bmid.len() && #[trigger] bmid[k1].asset == b2v[j].asset)));
                        assert(false);
                    }
                }
            }
            // each minted asset's balances still sum to its supply
            assert forall|k: int|
                0 <= k < s0.len() implies bal_sum(b2v, #[trigger] s0[k].asset) == s0[k].supply
                    as int by {
                assert(bal_sum(b0v, s0[k].asset) == s0[k].supply as int);
            }
        }
        Ok(())
    }

    /// Transfer `amount` of asset `id` from the authenticated caller
    /// `who` to `to`. Rejects a zero amount, a self-transfer, an asset
    /// never minted, an amount above the caller's balance, and an
    /// addition that would overflow the recipient; on any failure
    /// nothing changes.
    pub fn transfer(
        &mut self,
        who: AccountId,
        to: AccountId,
        id: TokenId,
        amount: Balance,
    ) -> (r: Result<(), Error>)
        requires
            old(self).wf(),
        ensures
            final(self).wf(),
            amount == 0 ==> r == Err::<(), Error>(Error::ZeroAmount) && *final(self) == *old(self),
            amount != 0 && to == who ==> r == Err::<(), Error>(Error::SameAddress) && *final(self)
                == *old(self),
            amount != 0 && to != who && !old(self).spec_token_exists(id) ==> r == Err::<(), Error>(
                Error::TokenDoesNotExist,
            ) && *final(self) == *old(self),
            amount != 0 && to != who && old(self).spec_token_exists(id) && old(self).bal_or_zero(
                id,
                who,
            ) < amount ==> r == Err::<(), Error>(Error::InsufficientBalanceForTransfer)
                && *final(self) == *old(self),
            amount != 0 && to != who && old(self).spec_token_exists(id) && old(self).bal_or_zero(
                id,
                who,
            ) >= amount && old(self).bal_or_zero(id, to) + amount > u64::MAX ==> r == Err::<
                (),
                Error,
            >(Error::Overflow) && *final(self) == *old(self),
            amount != 0 && to != who && old(self).spec_token_exists(id) && old(self).bal_or_zero(
                id,
                who,
            ) >= amount && old(self).bal_or_zero(id, to) + amount <= u64::MAX ==> r == Ok::<
                (),
                Error,
            >(()) && transfer_ok_post(*old(self), *final(self), who, to, id, amount),
    {
        if amount == 0 {
            return Err(Error::ZeroAmount);
        }
        if to == who {
            return Err(Error::SameAddress);
        }
        if !self.token_exists(id) {
            return Err(Error::TokenDoesNotExist);
        }
        match self._transfer(who, to, id, amount) {
            Err(e) => Err(e),
            Ok(()) => {
                self.events.push(Event::TokenTransferred { from: who, to, id, amount });
                Ok(())
            },
        }
    }

    /// Write the blanket-approval flag for `(owner, operator)`,
    /// overwriting any earlier value, with no validation.
    pub fn _set_approval_for_all(
        &mut self,
        owner: AccountId,
        operator: AccountId,
        approved: bool,
    ) -> (r: Result<(), Error>)
        requires
            old(self).wf(),
        ensures
            final(self).wf(),
            r == Ok::<(), Error>(()),
            approval_store_post(*old(self), *final(self), owner, operator, approved),
            final(self).events == old(self).events,
    {
        appr_set(&mut self.operator_approvals, owner, operator, approved);
        Ok(())
    }

    /// Let the authenticated caller `owner` grant or revoke `operator`'s
    /// right to act on its behalf. Rejects naming oneself as operator;
    /// on failure nothing changes.
    pub fn set_approval_for_all(
        &mut self,
        owner: AccountId,
        operator: AccountId,
        approved: bool,
    ) -> (r: Result<(), Error>)
        requires
            old(self).wf(),
        ensures
            final(self).wf(),
            owner == operator ==> r == Err::<(), Error>(Error::SettingApprovalForSelf)
                && *final(self) == *old(self),
            owner != operator ==> r == Ok::<(), Error>(()) && approval_set_post(
                *old(self),
                *final(self),
                owner,
                operator,
                approved,
            ),
    {
        if owner == operator {
            return Err(Error::SettingApprovalForSelf);
        }
        match self._set_approval_for_all(owner, operator, approved) {
            Err(e) => Err(e),
            Ok(()) => {
                self.events.push(Event::ApprovalForAll { owner, operator, approved });
                Ok(())
            },
        }
    }
}

} // verus!
