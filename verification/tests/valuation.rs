use appchain_anchor::near_fungible_tokens::NearFungibleTokens;
use appchain_anchor::types::{BridgingState, NearFungibleToken, NearFungibleTokenMetadata};
use appchain_anchor::AppchainAnchor;

fn token(symbol: &str, decimals: u8, price: u128, locked: u128) -> NearFungibleToken {
    NearFungibleToken {
        metadata: NearFungibleTokenMetadata {
            symbol: symbol.to_string(),
            name: symbol.to_string(),
            decimals,
        },
        contract_account: format!("{}.near", symbol.to_lowercase()),
        price_in_usd: price,
        locked_balance: locked,
        bridging_state: BridgingState::Active,
    }
}

#[test]
fn market_value_truncates_whole_tokens() {
    let mut tokens = NearFungibleTokens::new();
    tokens.insert(&token("A", 1, 3, 0));
    // 199 units at one decimal are 19 whole tokens; 19 * 3 = 57.
    assert_eq!(tokens.get_market_value_of(&"A".to_string(), 199), 57);
    // Less than one whole token is worth nothing.
    assert_eq!(tokens.get_market_value_of(&"A".to_string(), 9), 0);
}

#[test]
fn market_value_of_unknown_symbol_is_zero() {
    let tokens = NearFungibleTokens::new();
    assert_eq!(tokens.get_market_value_of(&"A".to_string(), 1_000_000), 0);
}

#[test]
fn market_value_with_oversized_decimals_is_zero() {
    // With 40 decimals no representable amount reaches one whole token.
    let mut tokens = NearFungibleTokens::new();
    tokens.insert(&token("HUGE", 40, 1_000_000, 0));
    assert_eq!(
        tokens.get_market_value_of(&"HUGE".to_string(), u128::MAX),
        0
    );
}

#[test]
fn total_market_value_sums_over_all_tokens() {
    let mut tokens = NearFungibleTokens::new();
    tokens.insert(&token("A", 1, 3, 199)); // 19 * 3 = 57
    tokens.insert(&token("B", 0, 2, 5)); // 5 * 2 = 10
    tokens.insert(&token("C", 2, 1000, 0)); // 0
    assert_eq!(tokens.total_market_value(), 67);
}

#[test]
fn total_market_value_of_empty_registry_is_zero() {
    let tokens = NearFungibleTokens::new();
    assert_eq!(tokens.total_market_value(), 0);
}

#[test]
fn checked_total_reports_unrepresentable_sums() {
    let mut tokens = NearFungibleTokens::new();
    tokens.insert(&token("A", 0, 1, u128::MAX));
    tokens.insert(&token("B", 0, 1, u128::MAX));
    assert_eq!(tokens.checked_total_market_value(), None);
    let mut small = NearFungibleTokens::new();
    small.insert(&token("A", 0, 2, 21));
    assert_eq!(small.checked_total_market_value(), Some(42));
}

#[test]
fn checked_staked_value_reports_unrepresentable_products() {
    let mut anchor = AppchainAnchor::new(
        "testchain".to_string(),
        "registry.near".to_string(),
        "owner.near".to_string(),
        "oct.near".to_string(),
    );
    anchor.total_staked_oct = u128::MAX;
    anchor.set_price_of_oct_token(u128::MAX);
    assert_eq!(anchor.checked_staked_oct_market_value(), None);
}

#[test]
fn staked_oct_market_value_uses_18_decimals() {
    let mut anchor = AppchainAnchor::new(
        "testchain".to_string(),
        "registry.near".to_string(),
        "owner.near".to_string(),
        "oct.near".to_string(),
    );
    anchor.total_staked_oct = 2_500_000_000_000_000_000; // 2.5 whole OCT
    anchor.set_price_of_oct_token(4);
    // 2 whole OCT (truncating) at 4 USD each.
    assert_eq!(anchor.get_market_value_of_staked_oct_token(), 8);
}
