use appchain_anchor::near_fungible_tokens::{NearFungibleTokenManager, NearFungibleTokens};
use appchain_anchor::types::{BridgingState, NearFungibleToken, NearFungibleTokenMetadata, RegistryError};
use appchain_anchor::AppchainAnchor;

fn fresh_anchor() -> AppchainAnchor {
    AppchainAnchor::new(
        "testchain".to_string(),
        "registry.near".to_string(),
        "owner.near".to_string(),
        "oct.near".to_string(),
    )
}

fn sample_token(symbol: &str, contract: &str, decimals: u8, price: u128) -> NearFungibleToken {
    NearFungibleToken {
        metadata: NearFungibleTokenMetadata {
            symbol: symbol.to_string(),
            name: symbol.to_string(),
            decimals,
        },
        contract_account: contract.to_string(),
        price_in_usd: price,
        locked_balance: 0,
        bridging_state: BridgingState::Active,
    }
}

#[test]
fn new_anchor_is_empty() {
    let anchor = fresh_anchor();
    assert_eq!(anchor.appchain_id, "testchain");
    assert_eq!(anchor.owner, "owner.near");
    assert_eq!(anchor.oct_token.contract_account, "oct.near");
    assert_eq!(anchor.oct_token.price_in_usd, 0);
    assert_eq!(anchor.total_staked_oct, 0);
    assert!(anchor.near_fungible_tokens.to_vec().is_empty());
    assert_eq!(anchor.anchor_event_histories.start_index, 0);
    assert_eq!(anchor.anchor_event_histories.end_index, 0);
    assert_eq!(
        anchor
            .protocol_settings
            .maximum_market_value_percent_of_near_fungible_tokens,
        33
    );
}

#[test]
fn register_then_query() {
    let mut anchor = fresh_anchor();
    let r = anchor.register_near_fungible_token(
        "USDC".to_string(),
        "USD Coin".to_string(),
        6,
        "usdc.near".to_string(),
        1_000_000,
    );
    assert!(r.is_ok());
    assert!(anchor.near_fungible_tokens.contains(&"USDC".to_string()));
    let token = anchor
        .near_fungible_tokens
        .get(&"USDC".to_string())
        .expect("registered token");
    assert_eq!(token.metadata.symbol, "USDC");
    assert_eq!(token.metadata.name, "USD Coin");
    assert_eq!(token.metadata.decimals, 6);
    assert_eq!(token.contract_account, "usdc.near");
    assert_eq!(token.price_in_usd, 1_000_000);
    assert_eq!(token.locked_balance, 0);
    assert!(matches!(token.bridging_state, BridgingState::Active));
}

#[test]
fn register_twice_fails() {
    let mut anchor = fresh_anchor();
    anchor
        .register_near_fungible_token(
            "USDC".to_string(),
            "USD Coin".to_string(),
            6,
            "usdc.near".to_string(),
            1,
        )
        .unwrap();
    let r = anchor.register_near_fungible_token(
        "USDC".to_string(),
        "Other".to_string(),
        2,
        "other.near".to_string(),
        7,
    );
    assert_eq!(r, Err(RegistryError::AlreadyRegistered));
    let token = anchor.near_fungible_tokens.get(&"USDC".to_string()).unwrap();
    assert_eq!(token.metadata.name, "USD Coin");
    assert_eq!(token.contract_account, "usdc.near");
}

#[test]
fn change_metadata_keeps_price_and_balance() {
    let mut anchor = fresh_anchor();
    anchor
        .register_near_fungible_token(
            "USDC".to_string(),
            "USD Coin".to_string(),
            6,
            "usdc.near".to_string(),
            5,
        )
        .unwrap();
    let r = anchor.change_near_fungible_token_metadata(
        "USDC".to_string(),
        "USD Coin v2".to_string(),
        8,
        "usdc-v2.near".to_string(),
    );
    assert!(r.is_ok());
    let token = anchor.near_fungible_tokens.get(&"USDC".to_string()).unwrap();
    assert_eq!(token.metadata.name, "USD Coin v2");
    assert_eq!(token.metadata.decimals, 8);
    assert_eq!(token.contract_account, "usdc-v2.near");
    assert_eq!(token.price_in_usd, 5);
    assert_eq!(token.locked_balance, 0);
}

#[test]
fn change_metadata_of_unknown_symbol_fails() {
    let mut anchor = fresh_anchor();
    let r = anchor.change_near_fungible_token_metadata(
        "NOPE".to_string(),
        "n".to_string(),
        0,
        "n.near".to_string(),
    );
    assert_eq!(r, Err(RegistryError::UnknownAsset));
}

#[test]
fn set_price_of_known_and_unknown_token() {
    let mut anchor = fresh_anchor();
    anchor
        .register_near_fungible_token(
            "USDC".to_string(),
            "USD Coin".to_string(),
            6,
            "usdc.near".to_string(),
            1,
        )
        .unwrap();
    assert!(anchor
        .set_price_of_near_fungible_token("USDC".to_string(), 42)
        .is_ok());
    assert_eq!(
        anchor
            .near_fungible_tokens
            .get(&"USDC".to_string())
            .unwrap()
            .price_in_usd,
        42
    );
    assert_eq!(
        anchor.set_price_of_near_fungible_token("NOPE".to_string(), 42),
        Err(RegistryError::UnknownAsset)
    );
}

#[test]
fn open_and_close_bridging() {
    let mut anchor = fresh_anchor();
    anchor
        .register_near_fungible_token(
            "USDC".to_string(),
            "USD Coin".to_string(),
            6,
            "usdc.near".to_string(),
            1,
        )
        .unwrap();
    assert!(anchor
        .close_bridging_of_near_fungible_token("USDC".to_string())
        .is_ok());
    assert!(matches!(
        anchor
            .near_fungible_tokens
            .get(&"USDC".to_string())
            .unwrap()
            .bridging_state,
        BridgingState::Closed
    ));
    assert!(anchor
        .open_bridging_of_near_fungible_token("USDC".to_string())
        .is_ok());
    assert!(matches!(
        anchor
            .near_fungible_tokens
            .get(&"USDC".to_string())
            .unwrap()
            .bridging_state,
        BridgingState::Active
    ));
    assert_eq!(
        anchor.close_bridging_of_near_fungible_token("NOPE".to_string()),
        Err(RegistryError::UnknownAsset)
    );
}

#[test]
fn insert_replaces_record_of_same_symbol() {
    let mut tokens = NearFungibleTokens::new();
    tokens.insert(&sample_token("A", "a.near", 2, 10));
    tokens.insert(&sample_token("B", "b.near", 2, 20));
    let mut replacement = sample_token("A", "a-new.near", 3, 30);
    replacement.locked_balance = 5;
    tokens.insert(&replacement);
    let all = tokens.to_vec();
    assert_eq!(all.len(), 2);
    assert_eq!(all[0].metadata.symbol, "A");
    assert_eq!(all[0].contract_account, "a-new.near");
    assert_eq!(all[0].locked_balance, 5);
    assert_eq!(all[1].metadata.symbol, "B");
}

#[test]
fn get_by_contract_account_finds_first_match() {
    let mut tokens = NearFungibleTokens::new();
    tokens.insert(&sample_token("A", "shared.near", 2, 10));
    tokens.insert(&sample_token("B", "shared.near", 2, 20));
    tokens.insert(&sample_token("C", "c.near", 2, 30));
    let found = tokens
        .get_by_contract_account(&"shared.near".to_string())
        .unwrap();
    assert_eq!(found.metadata.symbol, "A");
    let c = tokens.get_by_contract_account(&"c.near".to_string()).unwrap();
    assert_eq!(c.metadata.symbol, "C");
    assert!(tokens
        .get_by_contract_account(&"missing.near".to_string())
        .is_none());
}

#[test]
fn set_price_of_oct_token_changes_only_the_price() {
    let mut anchor = fresh_anchor();
    anchor.set_price_of_oct_token(3_000_000);
    assert_eq!(anchor.oct_token.price_in_usd, 3_000_000);
    assert_eq!(anchor.oct_token.contract_account, "oct.near");
}
