//! Shared data types of the settlement engine.

use vstd::prelude::*;

verus! {

/// Whether a registered token currently accepts bridging deposits.
#[derive(Clone, Copy, PartialEq, Eq, Structural, Debug)]
pub enum BridgingState {
    /// Deposits of the token can be locked.
    Active,
    /// Deposits of the token are rejected and returned.
    Closed,
}

/// Descriptive metadata of a registered NEP-141 token.
#[verifier::ext_equal]
pub struct NearFungibleTokenMetadata {
    /// The unique key of the token in the registry.
    pub symbol: String,
    /// The display name of the token.
    pub name: String,
    /// The decimal precision of the token's indivisible unit.
    pub decimals: u8,
}

/// One registered bridgeable token together with its locked-asset record.
#[verifier::ext_equal]
pub struct NearFungibleToken {
    /// The descriptive metadata of the token.
    pub metadata: NearFungibleTokenMetadata,
    /// The account of the token's own contract on the settlement ledger.
    pub contract_account: String,
    /// The price of one whole token, in USD fixed-point units.
    pub price_in_usd: u128,
    /// The amount of indivisible units currently locked in this contract.
    pub locked_balance: u128,
    /// Whether bridging of the token is currently open.
    pub bridging_state: BridgingState,
}

impl NearFungibleToken {
    /// Builds an identical copy of the record.
    pub fn duplicate(&self) -> (r: Self)
        ensures
            r == *self,
    {
        NearFungibleToken {
            metadata: NearFungibleTokenMetadata {
                symbol: self.metadata.symbol.clone(),
                name: self.metadata.name.clone(),
                decimals: self.metadata.decimals,
            },
            contract_account: self.contract_account.clone(),
            price_in_usd: self.price_in_usd,
            locked_balance: self.locked_balance,
            bridging_state: self.bridging_state,
        }
    }
}

/// The info of the OCT token backing the collateral valuation.
pub struct OctToken {
    /// The account of the OCT token contract.
    pub contract_account: String,
    /// The price of one whole OCT token, in USD fixed-point units.
    pub price_in_usd: u128,
}

/// The anchor settings for the appchain.
pub struct AnchorSettings {
    /// The only account allowed to maintain token prices.
    pub token_price_maintainer_account: String,
}

/// The protocol settings for the appchain anchor.
pub struct ProtocolSettings {
    /// The cap, in percent of the staked collateral value, on the total USD
    /// valuation of locked NEP-141 tokens.
    pub maximum_market_value_percent_of_near_fungible_tokens: u16,
}

impl Default for ProtocolSettings {
    /// The default collateral cap is one third of the staked value.
    fn default() -> (r: Self)
        ensures
            r.maximum_market_value_percent_of_near_fungible_tokens == 33,
    {
        ProtocolSettings { maximum_market_value_percent_of_near_fungible_tokens: 33 }
    }
}

/// One settlement outcome recorded in the event history.
pub enum AnchorEvent {
    /// A deposit was accepted and the amount locked.
    NearFungibleTokenLocked {
        /// The symbol of the locked token.
        symbol: String,
        /// The account that sent the deposit on the settlement ledger.
        sender_id_in_near: String,
        /// The destination account on the appchain.
        receiver_id_in_appchain: String,
        /// The locked amount, in indivisible units.
        amount: u128,
    },
    /// A withdrawal transfer succeeded and the amount was unlocked.
    NearFungibleTokenUnlocked {
        /// The symbol of the unlocked token.
        symbol: String,
        /// The account that burnt the bridged amount on the appchain.
        sender_id_in_appchain: String,
        /// The account that received the transfer on the settlement ledger.
        receiver_id_in_near: String,
        /// The unlocked amount, in indivisible units.
        amount: u128,
        /// The sequence number of the authenticated withdrawal message.
        appchain_message_nonce: u32,
    },
    /// A withdrawal transfer failed; the ledger is unchanged.
    FailedToUnlockNearFungibleToken {
        /// The symbol of the token whose transfer failed.
        symbol: String,
        /// The account that burnt the bridged amount on the appchain.
        sender_id_in_appchain: String,
        /// The intended receiver of the failed transfer.
        receiver_id_in_near: String,
        /// The amount of the failed transfer, in indivisible units.
        amount: u128,
        /// The sequence number of the authenticated withdrawal message.
        appchain_message_nonce: u32,
        /// A human-readable description of the failure.
        reason: String,
    },
}

impl AnchorEvent {
    /// Builds an identical copy of the event.
    pub fn duplicate(&self) -> (r: Self)
        ensures
            r == *self,
    {
        match self {
            AnchorEvent::NearFungibleTokenLocked {
                symbol,
                sender_id_in_near,
                receiver_id_in_appchain,
                amount,
            } => AnchorEvent::NearFungibleTokenLocked {
                symbol: symbol.clone(),
                sender_id_in_near: sender_id_in_near.clone(),
                receiver_id_in_appchain: receiver_id_in_appchain.clone(),
                amount: *amount,
            },
            AnchorEvent::NearFungibleTokenUnlocked {
                symbol,
                sender_id_in_appchain,
                receiver_id_in_near,
                amount,
                appchain_message_nonce,
            } => AnchorEvent::NearFungibleTokenUnlocked {
                symbol: symbol.clone(),
                sender_id_in_appchain: sender_id_in_appchain.clone(),
                receiver_id_in_near: receiver_id_in_near.clone(),
                amount: *amount,
                appchain_message_nonce: *appchain_message_nonce,
            },
            AnchorEvent::FailedToUnlockNearFungibleToken {
                symbol,
                sender_id_in_appchain,
                receiver_id_in_near,
                amount,
                appchain_message_nonce,
                reason,
            } => AnchorEvent::FailedToUnlockNearFungibleToken {
                symbol: symbol.clone(),
                sender_id_in_appchain: sender_id_in_appchain.clone(),
                receiver_id_in_near: receiver_id_in_near.clone(),
                amount: *amount,
                appchain_message_nonce: *appchain_message_nonce,
                reason: reason.clone(),
            },
        }
    }
}

/// The outcome delivered by the continuation of an issued transfer call.
#[derive(Clone, Copy, PartialEq, Eq, Structural, Debug)]
pub enum FtTransferOutcome {
    /// The external token contract completed the transfer.
    Successful,
    /// The external token contract rejected or failed the transfer.
    Failed,
}

/// The transfer instruction that the withdrawal path hands to the runtime
/// for execution against the token's external contract.
pub struct FtTransferAction {
    /// The token contract that must perform the transfer.
    pub contract_account: String,
    /// The account that receives the transfer.
    pub receiver_id: String,
    /// The amount to transfer, in indivisible units.
    pub amount: u128,
}

/// Errors of the asset-registry operations.
#[derive(Clone, Copy, PartialEq, Eq, Structural, Debug)]
pub enum RegistryError {
    /// A token with the given symbol already exists.
    AlreadyRegistered,
    /// No token with the given symbol exists.
    UnknownAsset,
}

/// Errors of the locked-asset ledger operations.
#[derive(Clone, Copy, PartialEq, Eq, Structural, Debug)]
pub enum LedgerError {
    /// A lock would push the balance past the representable maximum.
    Overflow,
}

/// Whether `c` is one of the hexadecimal digit characters.
pub open spec fn spec_is_hex_char(c: char) -> bool {
    ('0' <= c && c <= '9') || ('a' <= c && c <= 'f') || ('A' <= c && c <= 'F')
}

/// Well-formedness of a destination account on the appchain: a 32-byte
/// public key written as `0x` followed by 64 hexadecimal digits.
pub open spec fn spec_valid_account_id_in_appchain(s: Seq<char>) -> bool {
    &&& s.len() == 66
    &&& s[0] == '0'
    &&& s[1] == 'x'
    &&& forall|i: int| 2 <= i < 66 ==> spec_is_hex_char(#[trigger] s[i])
}

/// An account identifier on the appchain, as carried by deposit
/// instructions, with its well-formedness check.
pub struct AccountIdInAppchain {
    /// The identifier as it arrived in the deposit instruction.
    pub origin: String,
}

impl AccountIdInAppchain {
    /// Wraps a candidate appchain account identifier.
    pub fn new(id: String) -> (r: Self)
        ensures
            r.origin@ == id@,
    {
        AccountIdInAppchain { origin: id }
    }

    /// Checks that the identifier is a `0x`-prefixed 32-byte hex key.
    pub fn is_valid(&self) -> (r: bool)
        ensures
            r == spec_valid_account_id_in_appchain(self.origin@),
    {
        let len: usize = self.origin.as_str().unicode_len();
        if len != 66 {
            return false;
        }
        if self.origin.as_str().get_char(0) != '0' || self.origin.as_str().get_char(1) != 'x' {
            return false;
        }
        let mut i: usize = 2;
        while i < 66
            invariant
                2 <= i <= 66,
                self.origin@.len() == 66,
                forall|j: int| 2 <= j < i ==> spec_is_hex_char(#[trigger] self.origin@[j]),
            decreases 66 - i,
        {
            let c: char = self.origin.as_str().get_char(i);
            if !(('0' <= c && c <= '9') || ('a' <= c && c <= 'f') || ('A' <= c && c <= 'F')) {
                return false;
            }
            i = i + 1;
        }
        true
    }
}

} // verus!
