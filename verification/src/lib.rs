//! Asset-bridging settlement engine for anchoring an appchain to the NEAR
//! settlement ledger.
//!
//! The engine keeps a registry of bridgeable NEP-141 tokens, locks deposited
//! amounts under a collateralization cap derived from the staked OCT value,
//! issues unlock transfers for authenticated withdrawal messages, and applies
//! the asynchronous transfer outcomes to the locked-asset ledger while
//! recording every settlement outcome in an append-only event history.
//!
//! Everything that needs the chain runtime — reading the caller's identity,
//! persisting state, issuing the asynchronous transfer call and delivering
//! its outcome — stays outside this crate; the engine works on plain values
//! and returns the actions to perform.

pub mod anchor_event_histories;
pub mod deposit_message;
pub mod near_fungible_tokens;
pub mod types;
pub mod valuation;

use vstd::prelude::*;
use crate::anchor_event_histories::AnchorEventHistories;
use crate::near_fungible_tokens::NearFungibleTokens;
use crate::types::{AnchorEvent, AnchorSettings, OctToken, ProtocolSettings};

verus! {

/// The number of indivisible units of one OCT token (18 decimals).
pub const OCT_DECIMALS_VALUE: u128 = 1_000_000_000_000_000_000;

/// The anchor of one appchain: the state that the settlement engine owns.
pub struct AppchainAnchor {
    /// The id of the corresponding appchain.
    pub appchain_id: String,
    /// The account of the appchain registry contract.
    pub appchain_registry: String,
    /// The owner account, which governs the asset registry.
    pub owner: String,
    /// The info of the OCT token.
    pub oct_token: OctToken,
    /// The total staked amount of OCT, in indivisible units, maintained by
    /// the external staking subsystem and read here as collateral.
    pub total_staked_oct: u128,
    /// The NEP-141 tokens data.
    pub near_fungible_tokens: NearFungibleTokens,
    /// The anchor settings for the appchain.
    pub anchor_settings: AnchorSettings,
    /// The protocol settings for the appchain anchor.
    pub protocol_settings: ProtocolSettings,
    /// The anchor events data.
    pub anchor_event_histories: AnchorEventHistories,
}

/// The USD value of the staked OCT collateral: whole tokens (truncating)
/// times the OCT price.
pub open spec fn spec_staked_oct_market_value(a: AppchainAnchor) -> int {
    (a.total_staked_oct as int) / (OCT_DECIMALS_VALUE as int) * (a.oct_token.price_in_usd as int)
}

/// The collateral cap: the staked value scaled by the configured percent,
/// truncating.
pub open spec fn spec_cap_value(a: AppchainAnchor) -> int {
    spec_staked_oct_market_value(a)
        * (a.protocol_settings.maximum_market_value_percent_of_near_fungible_tokens as int) / 100
}

/// The central risk control: the total valuation of locked tokens stays
/// within the collateral cap.
pub open spec fn spec_collateral_cap_invariant(a: AppchainAnchor) -> bool {
    crate::valuation::spec_total_market_value(a.near_fungible_tokens.tokens@) <= spec_cap_value(a)
}

/// Whether `pre` and `post` agree on everything except the fungible-token
/// registry and the event history.
pub open spec fn spec_same_static_state(pre: AppchainAnchor, post: AppchainAnchor) -> bool {
    &&& post.appchain_id == pre.appchain_id
    &&& post.appchain_registry == pre.appchain_registry
    &&& post.owner == pre.owner
    &&& post.oct_token.contract_account == pre.oct_token.contract_account
    &&& post.oct_token.price_in_usd == pre.oct_token.price_in_usd
    &&& post.total_staked_oct == pre.total_staked_oct
    &&& post.anchor_settings.token_price_maintainer_account
        == pre.anchor_settings.token_price_maintainer_account
    &&& post.protocol_settings.maximum_market_value_percent_of_near_fungible_tokens
        == pre.protocol_settings.maximum_market_value_percent_of_near_fungible_tokens
}

impl AppchainAnchor {
    /// Well-formedness of the whole anchor state.
    pub open spec fn wf(&self) -> bool {
        &&& self.near_fungible_tokens.wf()
        &&& self.anchor_event_histories.wf()
    }

    /// Creates the anchor of a fresh appchain: an empty asset registry, an
    /// empty event history, no stake and no prices yet.
    pub fn new(
        appchain_id: String,
        appchain_registry: String,
        owner: String,
        oct_token_contract_account: String,
    ) -> (r: Self)
        ensures
            r.wf(),
            r.appchain_id == appchain_id,
            r.appchain_registry == appchain_registry,
            r.owner == owner,
            r.oct_token.contract_account == oct_token_contract_account,
            r.oct_token.price_in_usd == 0,
            r.total_staked_oct == 0,
            r.near_fungible_tokens.tokens@ =~= Seq::<types::NearFungibleToken>::empty(),
            r.anchor_settings.token_price_maintainer_account@ =~= Seq::<char>::empty(),
            r.protocol_settings.maximum_market_value_percent_of_near_fungible_tokens == 33,
            r.anchor_event_histories.start_index == 0,
            r.anchor_event_histories.end_index == 0,
            r.anchor_event_histories.histories@
                =~= Seq::<anchor_event_histories::AnchorEventRecord>::empty(),
    {
        AppchainAnchor {
            appchain_id,
            appchain_registry,
            owner,
            oct_token: OctToken {
                contract_account: oct_token_contract_account,
                price_in_usd: 0,
            },
            total_staked_oct: 0,
            near_fungible_tokens: NearFungibleTokens::new(),
            anchor_settings: AnchorSettings { token_price_maintainer_account: String::new() },
            protocol_settings: ProtocolSettings::default(),
            anchor_event_histories: AnchorEventHistories::new(),
        }
    }

    /// Sets the price (in USD) of the OCT token. The identity check — only
    /// the price maintainer may call this — is the caller's duty.
    pub fn set_price_of_oct_token(&mut self, price: u128)
        ensures
            final(self).oct_token.price_in_usd == price,
            final(self).oct_token.contract_account == old(self).oct_token.contract_account,
            final(self).appchain_id == old(self).appchain_id,
            final(self).appchain_registry == old(self).appchain_registry,
            final(self).owner == old(self).owner,
            final(self).total_staked_oct == old(self).total_staked_oct,
            final(self).near_fungible_tokens == old(self).near_fungible_tokens,
            final(self).anchor_settings == old(self).anchor_settings,
            final(self).protocol_settings == old(self).protocol_settings,
            final(self).anchor_event_histories == old(self).anchor_event_histories,
    {
        self.oct_token.price_in_usd = price;
    }

    /// Computes the USD value of the staked OCT collateral, or `None` when
    /// it exceeds `u128::MAX`.
    pub fn checked_staked_oct_market_value(&self) -> (r: Option<u128>)
        ensures
            match r {
                Some(v) => v == spec_staked_oct_market_value(*self),
                None => spec_staked_oct_market_value(*self) > u128::MAX,
            },
    {
        let quotient: u128 = self.total_staked_oct / OCT_DECIMALS_VALUE;
        quotient.checked_mul(self.oct_token.price_in_usd)
    }

    /// The USD value of the staked OCT collateral.
    pub fn get_market_value_of_staked_oct_token(&self) -> (r: u128)
        requires
            spec_staked_oct_market_value(*self) <= u128::MAX,
        ensures
            r == spec_staked_oct_market_value(*self),
    {
        match self.checked_staked_oct_market_value() {
            Some(v) => v,
            None => {
                proof {
                    assert(false);
                }
                0
            },
        }
    }

    /// Appends a settlement outcome to the event history.
    pub fn append_anchor_event(&mut self, anchor_event: AnchorEvent)
        requires
            old(self).wf(),
            old(self).anchor_event_histories.end_index < u64::MAX,
        ensures
            final(self).wf(),
            spec_same_static_state(*old(self), *final(self)),
            final(self).near_fungible_tokens == old(self).near_fungible_tokens,
            final(self).anchor_event_histories.start_index == old(
                self,
            ).anchor_event_histories.start_index,
            final(self).anchor_event_histories.end_index == old(
                self,
            ).anchor_event_histories.end_index + 1,
            final(self).anchor_event_histories.histories@ == old(
                self,
            ).anchor_event_histories.histories@.push(
                anchor_event_histories::AnchorEventRecord {
                    index: old(self).anchor_event_histories.end_index,
                    event: anchor_event,
                },
            ),
    {
        self.anchor_event_histories.append(anchor_event);
    }
}

} // verus!
