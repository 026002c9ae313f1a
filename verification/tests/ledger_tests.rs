use nft::Error;
use nft::Event;
use nft::Pallet;

#[test]
fn fresh_ledger_reads_empty() {
    let p = Pallet::new();
    assert_eq!(p.get_tokens_count(), 0);
    assert_eq!(p.get_total_supply(7), None);
    assert_eq!(p.balance_of(7, 1), None);
    assert_eq!(p.get_token_uri(7), None);
    assert_eq!(p.operator_approvals(1, 2), None);
    assert_eq!(p.events.len(), 0);
}

#[test]
fn mint_creates_asset() {
    let mut p = Pallet::new();
    assert_eq!(p.mint(1, 7, 100, vec![0x61]), Ok(()));
    assert_eq!(p.get_total_supply(7), Some(100));
    assert_eq!(p.balance_of(7, 1), Some(100));
    assert_eq!(p.get_tokens_count(), 1);
    assert!(p.token_exists(7));
}

#[test]
fn mint_sets_descriptor() {
    let mut p = Pallet::new();
    assert_eq!(p.mint(1, 7, 100, vec![1, 2, 3]), Ok(()));
    assert_eq!(p.get_token_uri(7), Some(vec![1, 2, 3]));
    assert_eq!(p.get_token_uri(8), None);
}

#[test]
fn mint_emits_event() {
    let mut p = Pallet::new();
    assert_eq!(p.mint(1, 7, 100, vec![]), Ok(()));
    assert_eq!(p.events.len(), 1);
    assert!(p.events[0] == Event::TokenMinted { to: 1, id: 7, amount: 100 });
}

#[test]
fn mint_zero_amount_fails() {
    let mut p = Pallet::new();
    assert_eq!(p.mint(1, 7, 0, vec![]), Err(Error::ZeroAmount));
    assert_eq!(p.get_total_supply(7), None);
    assert_eq!(p.get_tokens_count(), 0);
    assert_eq!(p.events.len(), 0);
}

#[test]
fn second_mint_of_same_asset_fails() {
    let mut p = Pallet::new();
    assert_eq!(p.mint(1, 7, 100, vec![9]), Ok(()));
    assert_eq!(p.mint(2, 7, 55, vec![8]), Err(Error::TokenAlreadyExists));
    assert_eq!(p.get_total_supply(7), Some(100));
    assert_eq!(p.balance_of(7, 1), Some(100));
    assert_eq!(p.balance_of(7, 2), None);
    assert_eq!(p.get_token_uri(7), Some(vec![9]));
    assert_eq!(p.get_tokens_count(), 1);
}

#[test]
fn mint_counter_counts_each_asset() {
    let mut p = Pallet::new();
    assert_eq!(p.mint(1, 7, 100, vec![]), Ok(()));
    assert_eq!(p.mint(1, 8, 10, vec![]), Ok(()));
    assert_eq!(p.get_tokens_count(), 2);
    assert_eq!(p.get_total_supply(7), Some(100));
    assert_eq!(p.get_total_supply(8), Some(10));
}

#[test]
fn transfer_moves_balance() {
    let mut p = Pallet::new();
    assert_eq!(p.mint(1, 7, 100, vec![]), Ok(()));
    assert_eq!(p.transfer(1, 2, 7, 30), Ok(()));
    assert_eq!(p.balance_of(7, 1), Some(70));
    assert_eq!(p.balance_of(7, 2), Some(30));
    assert_eq!(p.get_total_supply(7), Some(100));
}

#[test]
fn transfer_beyond_balance_fails() {
    let mut p = Pallet::new();
    assert_eq!(p.mint(1, 7, 100, vec![]), Ok(()));
    assert_eq!(p.transfer(1, 2, 7, 30), Ok(()));
    assert_eq!(p.transfer(1, 2, 7, 80), Err(Error::InsufficientBalanceForTransfer));
    assert_eq!(p.balance_of(7, 1), Some(70));
    assert_eq!(p.balance_of(7, 2), Some(30));
    assert_eq!(p.get_total_supply(7), Some(100));
}

#[test]
fn transfer_zero_amount_fails() {
    let mut p = Pallet::new();
    assert_eq!(p.mint(1, 7, 100, vec![]), Ok(()));
    assert_eq!(p.transfer(1, 2, 7, 0), Err(Error::ZeroAmount));
    assert_eq!(p.balance_of(7, 1), Some(100));
}

#[test]
fn transfer_to_self_fails() {
    let mut p = Pallet::new();
    assert_eq!(p.mint(1, 7, 100, vec![]), Ok(()));
    assert_eq!(p.transfer(1, 1, 7, 10), Err(Error::SameAddress));
    assert_eq!(p.balance_of(7, 1), Some(100));
}

#[test]
fn transfer_of_unknown_asset_fails() {
    let mut p = Pallet::new();
    assert_eq!(p.mint(1, 7, 100, vec![]), Ok(()));
    assert_eq!(p.transfer(1, 2, 9, 10), Err(Error::TokenDoesNotExist));
    assert_eq!(p.balance_of(9, 1), None);
    assert_eq!(p.balance_of(9, 2), None);
}

#[test]
fn transfer_emits_event() {
    let mut p = Pallet::new();
    assert_eq!(p.mint(1, 7, 100, vec![]), Ok(()));
    assert_eq!(p.transfer(1, 2, 7, 30), Ok(()));
    assert_eq!(p.events.len(), 2);
    assert!(p.events[1] == Event::TokenTransferred { from: 1, to: 2, id: 7, amount: 30 });
}

#[test]
fn transfer_of_whole_balance_leaves_zero_record() {
    let mut p = Pallet::new();
    assert_eq!(p.mint(1, 7, 100, vec![]), Ok(()));
    assert_eq!(p.transfer(1, 2, 7, 100), Ok(()));
    assert_eq!(p.balance_of(7, 1), Some(0));
    assert_eq!(p.balance_of(7, 2), Some(100));
    assert_eq!(p.transfer(1, 2, 7, 1), Err(Error::InsufficientBalanceForTransfer));
}

#[test]
fn transfers_conserve_supply() {
    let mut p = Pallet::new();
    assert_eq!(p.mint(1, 7, 100, vec![]), Ok(()));
    assert_eq!(p.transfer(1, 2, 7, 30), Ok(()));
    assert_eq!(p.transfer(1, 3, 7, 20), Ok(()));
    assert_eq!(p.transfer(2, 3, 7, 5), Ok(()));
    let held: u64 = p.balance_of(7, 1).unwrap() + p.balance_of(7, 2).unwrap()
        + p.balance_of(7, 3).unwrap();
    assert_eq!(held, p.get_total_supply(7).unwrap());
    assert_eq!(p.balance_of(7, 1), Some(50));
    assert_eq!(p.balance_of(7, 2), Some(25));
    assert_eq!(p.balance_of(7, 3), Some(25));
}

#[test]
fn largest_amount_moves_without_wrapping() {
    let mut p = Pallet::new();
    assert_eq!(p.mint(1, 7, u64::MAX, vec![]), Ok(()));
    assert_eq!(p.transfer(1, 2, 7, u64::MAX), Ok(()));
    assert_eq!(p.balance_of(7, 1), Some(0));
    assert_eq!(p.balance_of(7, 2), Some(u64::MAX));
    assert_eq!(p.get_total_supply(7), Some(u64::MAX));
}

#[test]
fn move_helper_self_transfer_changes_nothing() {
    let mut p = Pallet::new();
    assert_eq!(p.mint(1, 7, 100, vec![]), Ok(()));
    assert_eq!(p._transfer(1, 1, 7, 40), Ok(()));
    assert_eq!(p.balance_of(7, 1), Some(100));
    assert_eq!(p.events.len(), 1);
}

#[test]
fn move_helper_treats_absent_sender_as_zero() {
    let mut p = Pallet::new();
    assert_eq!(p._transfer(1, 2, 9, 5), Err(Error::InsufficientBalanceForTransfer));
    assert_eq!(p._transfer(1, 2, 9, 0), Ok(()));
    assert_eq!(p.balance_of(9, 1), None);
    assert_eq!(p.balance_of(9, 2), None);
}

#[test]
fn approval_can_be_granted_and_revoked() {
    let mut p = Pallet::new();
    assert_eq!(p.operator_approvals(1, 2), None);
    assert_eq!(p.set_approval_for_all(1, 2, true), Ok(()));
    assert_eq!(p.operator_approvals(1, 2), Some(true));
    assert_eq!(p.set_approval_for_all(1, 2, false), Ok(()));
    assert_eq!(p.operator_approvals(1, 2), Some(false));
    assert_eq!(p.operator_approvals(2, 1), None);
}

#[test]
fn approval_for_self_fails() {
    let mut p = Pallet::new();
    assert_eq!(p.set_approval_for_all(1, 1, true), Err(Error::SettingApprovalForSelf));
    assert_eq!(p.operator_approvals(1, 1), None);
    assert_eq!(p.events.len(), 0);
}

#[test]
fn approval_granted_twice_reads_the_same() {
    let mut p = Pallet::new();
    assert_eq!(p.set_approval_for_all(1, 2, true), Ok(()));
    let once = p.operator_approvals(1, 2);
    assert_eq!(p.set_approval_for_all(1, 2, true), Ok(()));
    assert_eq!(p.operator_approvals(1, 2), once);
    assert_eq!(p.operator_approvals(1, 2), Some(true));
    assert_eq!(p.get_tokens_count(), 0);
}

#[test]
fn approval_emits_event() {
    let mut p = Pallet::new();
    assert_eq!(p.set_approval_for_all(1, 2, true), Ok(()));
    assert_eq!(p.events.len(), 1);
    assert!(p.events[0] == Event::ApprovalForAll { owner: 1, operator: 2, approved: true });
}

#[test]
fn assets_are_independent() {
    let mut p = Pallet::new();
    assert_eq!(p.mint(1, 7, 100, vec![7]), Ok(()));
    assert_eq!(p.mint(2, 8, 50, vec![8]), Ok(()));
    assert_eq!(p.transfer(1, 2, 7, 10), Ok(()));
    assert_eq!(p.balance_of(7, 1), Some(90));
    assert_eq!(p.balance_of(7, 2), Some(10));
    assert_eq!(p.balance_of(8, 2), Some(50));
    assert_eq!(p.balance_of(8, 1), None);
    assert_eq!(p.get_total_supply(7), Some(100));
    assert_eq!(p.get_total_supply(8), Some(50));
    assert_eq!(p.get_token_uri(7), Some(vec![7]));
    assert_eq!(p.get_token_uri(8), Some(vec![8]));
}
