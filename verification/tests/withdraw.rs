use appchain_anchor::near_fungible_tokens::NearFungibleTokenManager;
use appchain_anchor::types::{AnchorEvent, BridgingState, FtTransferOutcome, NearFungibleToken, NearFungibleTokenMetadata};
use appchain_anchor::AppchainAnchor;

const SENDER: &str = "0xcdcdcdcdcdcdcdcdcdcdcdcdcdcdcdcdcdcdcdcdcdcdcdcdcdcdcdcdcdcdcdcd";

/// An anchor with one registered token "USDC" holding a locked balance of
/// 100 indivisible units.
fn anchor_with_locked_usdc() -> AppchainAnchor {
    let mut anchor = AppchainAnchor::new(
        "testchain".to_string(),
        "registry.near".to_string(),
        "owner.near".to_string(),
        "oct.near".to_string(),
    );
    anchor
        .register_near_fungible_token(
            "USDC".to_string(),
            "USD Coin".to_string(),
            1,
            "usdc.near".to_string(),
            1,
        )
        .unwrap();
    anchor.near_fungible_tokens.insert(&NearFungibleToken {
        metadata: NearFungibleTokenMetadata {
            symbol: "USDC".to_string(),
            name: "USD Coin".to_string(),
            decimals: 1,
        },
        contract_account: "usdc.near".to_string(),
        price_in_usd: 1,
        locked_balance: 100,
        bridging_state: BridgingState::Active,
    });
    anchor
}

fn locked_balance(anchor: &AppchainAnchor, symbol: &str) -> u128 {
    anchor
        .near_fungible_tokens
        .get(&symbol.to_string())
        .unwrap()
        .locked_balance
}

#[test]
fn unlock_of_registered_symbol_issues_transfer() {
    let anchor = anchor_with_locked_usdc();
    let action = anchor
        .unlock_near_fungible_token(
            SENDER.to_string(),
            "USDC".to_string(),
            "bob.near".to_string(),
            30,
            7,
        )
        .expect("a transfer instruction");
    assert_eq!(action.contract_account, "usdc.near");
    assert_eq!(action.receiver_id, "bob.near");
    assert_eq!(action.amount, 30);
}

#[test]
fn unlock_of_unknown_symbol_is_silent_noop() {
    let anchor = anchor_with_locked_usdc();
    let action = anchor.unlock_near_fungible_token(
        SENDER.to_string(),
        "NOPE".to_string(),
        "bob.near".to_string(),
        30,
        7,
    );
    assert!(action.is_none());
    assert_eq!(anchor.anchor_event_histories.end_index, 0);
}

#[test]
fn successful_transfer_unlocks_and_logs_nonce() {
    let mut anchor = anchor_with_locked_usdc();
    anchor.resolve_fungible_token_transfer(
        "USDC".to_string(),
        SENDER.to_string(),
        "bob.near".to_string(),
        30,
        7,
        FtTransferOutcome::Successful,
    );
    assert_eq!(locked_balance(&anchor, "USDC"), 70);
    let log = anchor.anchor_event_histories.range(0, u64::MAX);
    assert_eq!(log.len(), 1);
    match &log[0].event {
        AnchorEvent::NearFungibleTokenUnlocked {
            symbol,
            sender_id_in_appchain,
            receiver_id_in_near,
            amount,
            appchain_message_nonce,
        } => {
            assert_eq!(symbol, "USDC");
            assert_eq!(sender_id_in_appchain, SENDER);
            assert_eq!(receiver_id_in_near, "bob.near");
            assert_eq!(*amount, 30);
            assert_eq!(*appchain_message_nonce, 7);
        }
        _ => panic!("expected an Unlocked event"),
    }
}

#[test]
fn failed_transfer_keeps_balance_and_logs_reason() {
    let mut anchor = anchor_with_locked_usdc();
    anchor.resolve_fungible_token_transfer(
        "USDC".to_string(),
        SENDER.to_string(),
        "bob.near".to_string(),
        30,
        7,
        FtTransferOutcome::Failed,
    );
    assert_eq!(locked_balance(&anchor, "USDC"), 100);
    let log = anchor.anchor_event_histories.range(0, u64::MAX);
    assert_eq!(log.len(), 1);
    match &log[0].event {
        AnchorEvent::FailedToUnlockNearFungibleToken {
            symbol,
            sender_id_in_appchain,
            receiver_id_in_near,
            amount,
            appchain_message_nonce,
            reason,
        } => {
            assert_eq!(symbol, "USDC");
            assert_eq!(sender_id_in_appchain, SENDER);
            assert_eq!(receiver_id_in_near, "bob.near");
            assert_eq!(*amount, 30);
            assert_eq!(*appchain_message_nonce, 7);
            assert!(!reason.is_empty());
        }
        _ => panic!("expected a FailedToUnlock event"),
    }
}

#[test]
fn unlock_confirmation_clamps_at_zero() {
    let mut anchor = anchor_with_locked_usdc();
    anchor.resolve_fungible_token_transfer(
        "USDC".to_string(),
        SENDER.to_string(),
        "bob.near".to_string(),
        150,
        8,
        FtTransferOutcome::Successful,
    );
    assert_eq!(locked_balance(&anchor, "USDC"), 0);
}

#[test]
fn outcome_is_applied_exactly_once_per_request() {
    // One issued transfer, one delivered outcome, one ledger mutation: the
    // driver delivers the outcome to a single resolve invocation, and only
    // that invocation touches the balance.
    let mut anchor = anchor_with_locked_usdc();
    let action = anchor
        .unlock_near_fungible_token(
            SENDER.to_string(),
            "USDC".to_string(),
            "bob.near".to_string(),
            30,
            9,
        )
        .expect("a transfer instruction");
    // Issuing the transfer itself changes nothing.
    assert_eq!(locked_balance(&anchor, "USDC"), 100);
    assert_eq!(anchor.anchor_event_histories.end_index, 0);
    let mut deliveries: u32 = 0;
    let outcome = FtTransferOutcome::Successful;
    if deliveries == 0 {
        anchor.resolve_fungible_token_transfer(
            "USDC".to_string(),
            SENDER.to_string(),
            action.receiver_id.clone(),
            action.amount,
            9,
            outcome,
        );
        deliveries += 1;
    }
    assert_eq!(deliveries, 1);
    assert_eq!(locked_balance(&anchor, "USDC"), 70);
    assert_eq!(anchor.anchor_event_histories.end_index, 1);
}

#[test]
fn resolve_for_unregistered_symbol_logs_but_keeps_ledger() {
    let mut anchor = anchor_with_locked_usdc();
    anchor.resolve_fungible_token_transfer(
        "GONE".to_string(),
        SENDER.to_string(),
        "bob.near".to_string(),
        30,
        10,
        FtTransferOutcome::Successful,
    );
    assert_eq!(locked_balance(&anchor, "USDC"), 100);
    assert_eq!(anchor.anchor_event_histories.end_index, 1);
}
