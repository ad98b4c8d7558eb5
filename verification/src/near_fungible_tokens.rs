//! The registry and locked-asset ledger of bridgeable NEP-141 tokens, and
//! the settlement engine's deposit and withdrawal paths.

use vstd::prelude::*;
use crate::types::{
    AccountIdInAppchain, AnchorEvent, BridgingState, FtTransferAction, FtTransferOutcome,
    LedgerError, NearFungibleToken, NearFungibleTokenMetadata, RegistryError,
    spec_valid_account_id_in_appchain,
};
use crate::valuation::{
    checked_market_value_of_amount, lemma_total_market_value_nonneg,
    lemma_total_market_value_prefix_bound, lemma_total_market_value_prefix_step,
    spec_market_value_of_amount, spec_total_market_value, spec_with_locked_balance,
};

verus! {

/// Whether position `i` of `tokens` holds the token with symbol `symbol`.
pub open spec fn spec_token_with_symbol(
    tokens: Seq<NearFungibleToken>,
    symbol: Seq<char>,
    i: int,
) -> bool {
    0 <= i < tokens.len() && tokens[i].metadata.symbol@ == symbol
}

/// Whether a token with symbol `symbol` is registered.
pub open spec fn spec_has_symbol(tokens: Seq<NearFungibleToken>, symbol: Seq<char>) -> bool {
    exists|i: int| spec_token_with_symbol(tokens, symbol, i)
}

/// The position of the token with symbol `symbol`; meaningful only when
/// one is registered, and unique when symbols are unique.
pub open spec fn spec_symbol_index(tokens: Seq<NearFungibleToken>, symbol: Seq<char>) -> int {
    choose|i: int| spec_token_with_symbol(tokens, symbol, i)
}

/// Whether any registered token belongs to the contract `account`.
pub open spec fn spec_has_contract_account(
    tokens: Seq<NearFungibleToken>,
    account: Seq<char>,
) -> bool {
    exists|i: int| 0 <= i < tokens.len() && (#[trigger] tokens[i]).contract_account@ == account
}

/// Whether position `i` holds the first token of the contract `account`.
pub open spec fn spec_first_token_with_contract(
    tokens: Seq<NearFungibleToken>,
    account: Seq<char>,
    i: int,
) -> bool {
    &&& 0 <= i < tokens.len()
    &&& tokens[i].contract_account@ == account
    &&& forall|j: int| 0 <= j < i ==> (#[trigger] tokens[j]).contract_account@ != account
}

/// The position of the first token of the contract `account`; meaningful
/// only when one exists.
pub open spec fn spec_contract_index(tokens: Seq<NearFungibleToken>, account: Seq<char>) -> int {
    choose|i: int| spec_first_token_with_contract(tokens, account, i)
}

/// Symbols are unique keys of the registry.
pub open spec fn spec_symbols_unique(tokens: Seq<NearFungibleToken>) -> bool {
    forall|i: int, j: int|
        0 <= i < j < tokens.len() ==> (#[trigger] tokens[i]).metadata.symbol@ != (
        #[trigger] tokens[j]).metadata.symbol@
}

/// With unique symbols, any position holding `symbol` is the position that
/// `spec_symbol_index` names.
pub proof fn lemma_symbol_index_agrees(tokens: Seq<NearFungibleToken>, symbol: Seq<char>, i: int)
    requires
        spec_symbols_unique(tokens),
        spec_token_with_symbol(tokens, symbol, i),
    ensures
        spec_symbol_index(tokens, symbol) == i,
{
    let j = spec_symbol_index(tokens, symbol);
    assert(spec_token_with_symbol(tokens, symbol, j));
}

/// A position holding a token of `account` at or below `w` exists, so a
/// first one does.
proof fn lemma_exists_first_contract_below(tokens: Seq<NearFungibleToken>, account: Seq<char>, w: int)
    requires
        0 <= w < tokens.len(),
        tokens[w].contract_account@ == account,
    ensures
        exists|i: int| spec_first_token_with_contract(tokens, account, i),
    decreases w,
{
    if forall|j: int| 0 <= j < w ==> (#[trigger] tokens[j]).contract_account@ != account {
        assert(spec_first_token_with_contract(tokens, account, w));
    } else {
        let j = choose|j: int| 0 <= j < w && (#[trigger] tokens[j]).contract_account@ == account;
        lemma_exists_first_contract_below(tokens, account, j);
    }
}

/// When some token of `account` is registered, `spec_contract_index`
/// names the first one.
pub proof fn lemma_contract_index_valid(tokens: Seq<NearFungibleToken>, account: Seq<char>)
    requires
        spec_has_contract_account(tokens, account),
    ensures
        spec_first_token_with_contract(tokens, account, spec_contract_index(tokens, account)),
{
    let w = choose|i: int|
        0 <= i < tokens.len() && (#[trigger] tokens[i]).contract_account@ == account;
    lemma_exists_first_contract_below(tokens, account, w);
    let i = choose|i: int| spec_first_token_with_contract(tokens, account, i);
    assert(spec_first_token_with_contract(tokens, account, i));
}

/// Any position holding the first token of a contract account is the
/// position that `spec_contract_index` names.
pub proof fn lemma_contract_index_agrees(tokens: Seq<NearFungibleToken>, account: Seq<char>, i: int)
    requires
        spec_first_token_with_contract(tokens, account, i),
    ensures
        spec_contract_index(tokens, account) == i,
{
    let j = spec_contract_index(tokens, account);
    assert(spec_first_token_with_contract(tokens, account, j));
    if i < j {
        assert(tokens[i].contract_account@ != account);
    } else if j < i {
        assert(tokens[j].contract_account@ != account);
    }
}

/// The NEP-141 tokens data: one record per registered symbol.
pub struct NearFungibleTokens {
    /// The registered tokens, in registration order.
    pub tokens: Vec<NearFungibleToken>,
}

impl NearFungibleTokens {
    /// Well-formedness: symbols are unique keys.
    pub open spec fn wf(&self) -> bool {
        spec_symbols_unique(self.tokens@)
    }

    /// Creates an empty registry.
    pub fn new() -> (r: Self)
        ensures
            r.wf(),
            r.tokens@ =~= Seq::<NearFungibleToken>::empty(),
    {
        NearFungibleTokens { tokens: Vec::new() }
    }

    /// Finds the position of the token with the given symbol.
    fn find_index_of_symbol(&self, symbol: &String) -> (r: Option<usize>)
        ensures
            match r {
                Some(i) => spec_token_with_symbol(self.tokens@, symbol@, i as int),
                None => !spec_has_symbol(self.tokens@, symbol@),
            },
    {
        let n: usize = self.tokens.len();
        let mut i: usize = 0;
        while i < n
            invariant
                0 <= i <= n,
                n == self.tokens@.len(),
                forall|j: int|
                    0 <= j < i ==> (#[trigger] self.tokens@[j]).metadata.symbol@ != symbol@,
            decreases n - i,
        {
            if self.tokens[i].metadata.symbol == *symbol {
                return Some(i);
            }
            i = i + 1;
        }
        None
    }

    /// Finds the position of the first token of the given contract account.
    fn find_index_of_contract_account(&self, account_id: &String) -> (r: Option<usize>)
        ensures
            match r {
                Some(i) => spec_first_token_with_contract(self.tokens@, account_id@, i as int),
                None => !spec_has_contract_account(self.tokens@, account_id@),
            },
    {
        let n: usize = self.tokens.len();
        let mut i: usize = 0;
        while i < n
            invariant
                0 <= i <= n,
                n == self.tokens@.len(),
                forall|j: int|
                    0 <= j < i ==> (#[trigger] self.tokens@[j]).contract_account@ != account_id@,
            decreases n - i,
        {
            if self.tokens[i].contract_account == *account_id {
                return Some(i);
            }
            i = i + 1;
        }
        None
    }

    /// Returns a copy of every registered token, in registration order.
    pub fn to_vec(&self) -> (r: Vec<NearFungibleToken>)
        ensures
            r@ == self.tokens@,
    {
        let n: usize = self.tokens.len();
        let mut r: Vec<NearFungibleToken> = Vec::new();
        let mut i: usize = 0;
        while i < n
            invariant
                0 <= i <= n,
                n == self.tokens@.len(),
                r@ =~= self.tokens@.subrange(0, i as int),
            decreases n - i,
        {
            r.push(self.tokens[i].duplicate());
            proof {
                assert(r@ =~= self.tokens@.subrange(0, (i + 1) as int));
            }
            i = i + 1;
        }
        proof {
            assert(self.tokens@.subrange(0, n as int) =~= self.tokens@);
        }
        r
    }

    /// Whether a token with the given symbol is registered.
    pub fn contains(&self, symbol: &String) -> (r: bool)
        ensures
            r == spec_has_symbol(self.tokens@, symbol@),
    {
        match self.find_index_of_symbol(symbol) {
            Some(_) => true,
            None => false,
        }
    }

    /// Returns a copy of the token with the given symbol, if registered.
    pub fn get(&self, symbol: &String) -> (r: Option<NearFungibleToken>)
        requires
            self.wf(),
        ensures
            r == if spec_has_symbol(self.tokens@, symbol@) {
                Some(self.tokens@[spec_symbol_index(self.tokens@, symbol@)])
            } else {
                Option::<NearFungibleToken>::None
            },
    {
        match self.find_index_of_symbol(symbol) {
            Some(i) => {
                proof {
                    lemma_symbol_index_agrees(self.tokens@, symbol@, i as int);
                }
                Some(self.tokens[i].duplicate())
            },
            None => None,
        }
    }

    /// Returns a copy of the first token of the given contract account, if
    /// any is registered.
    pub fn get_by_contract_account(&self, account_id: &String) -> (r: Option<NearFungibleToken>)
        ensures
            spec_has_contract_account(self.tokens@, account_id@)
                ==> spec_first_token_with_contract(
                self.tokens@,
                account_id@,
                spec_contract_index(self.tokens@, account_id@),
            ),
            r == if spec_has_contract_account(self.tokens@, account_id@) {
                Some(self.tokens@[spec_contract_index(self.tokens@, account_id@)])
            } else {
                Option::<NearFungibleToken>::None
            },
    {
        match self.find_index_of_contract_account(account_id) {
            Some(i) => {
                proof {
                    lemma_contract_index_agrees(self.tokens@, account_id@, i as int);
                }
                Some(self.tokens[i].duplicate())
            },
            None => None,
        }
    }

    /// Stores `near_fungible_token` under its symbol: replaces the record
    /// of an already registered symbol, appends a new one otherwise.
    pub fn insert(&mut self, near_fungible_token: &NearFungibleToken)
        requires
            old(self).wf(),
        ensures
            final(self).wf(),
            final(self).tokens@ == if spec_has_symbol(
                old(self).tokens@,
                near_fungible_token.metadata.symbol@,
            ) {
                old(self).tokens@.update(
                    spec_symbol_index(old(self).tokens@, near_fungible_token.metadata.symbol@),
                    *near_fungible_token,
                )
            } else {
                old(self).tokens@.push(*near_fungible_token)
            },
    {
        let ghost pre = self.tokens@;
        let ghost sym = near_fungible_token.metadata.symbol@;
        match self.find_index_of_symbol(&near_fungible_token.metadata.symbol) {
            Some(i) => {
                proof {
                    lemma_symbol_index_agrees(pre, sym, i as int);
                }
                self.tokens.set(i, near_fungible_token.duplicate());
                proof {
                    let post = self.tokens@;
                    assert forall|p: int, q: int| 0 <= p < q < post.len() implies (
                    #[trigger] post[p]).metadata.symbol@ != (#[trigger] post[q]).metadata.symbol@ by {
                        assert(pre[p].metadata.symbol@ != pre[q].metadata.symbol@);
                        assert(post[i as int].metadata.symbol@ == pre[i as int].metadata.symbol@);
                    }
                }
            },
            None => {
                self.tokens.push(near_fungible_token.duplicate());
                proof {
                    let post = self.tokens@;
                    assert forall|p: int, q: int| 0 <= p < q < post.len() implies (
                    #[trigger] post[p]).metadata.symbol@ != (#[trigger] post[q]).metadata.symbol@ by {
                        if q < pre.len() {
                            assert(pre[p].metadata.symbol@ != pre[q].metadata.symbol@);
                        } else {
                            assert(!spec_token_with_symbol(pre, sym, p));
                        }
                    }
                }
            },
        }
    }

    /// Computes the total USD valuation of all locked balances, or `None`
    /// when it exceeds `u128::MAX`.
    pub fn checked_total_market_value(&self) -> (r: Option<u128>)
        ensures
            match r {
                Some(v) => v == spec_total_market_value(self.tokens@),
                None => spec_total_market_value(self.tokens@) > u128::MAX,
            },
    {
        let n: usize = self.tokens.len();
        let mut acc: u128 = 0;
        let mut i: usize = 0;
        while i < n
            invariant
                0 <= i <= n,
                n == self.tokens@.len(),
                acc == spec_total_market_value(self.tokens@.subrange(0, i as int)),
            decreases n - i,
        {
            let term: u128 = match checked_market_value_of_amount(
                &self.tokens[i],
                self.tokens[i].locked_balance,
            ) {
                Some(v) => v,
                None => {
                    proof {
                        lemma_total_market_value_prefix_step(self.tokens@, i as int);
                        lemma_total_market_value_nonneg(self.tokens@.subrange(0, i as int));
                        lemma_total_market_value_prefix_bound(self.tokens@, i + 1 as int);
                    }
                    return None;
                },
            };
            acc = match acc.checked_add(term) {
                Some(v) => v,
                None => {
                    proof {
                        lemma_total_market_value_prefix_step(self.tokens@, i as int);
                        lemma_total_market_value_prefix_bound(self.tokens@, i + 1 as int);
                    }
                    return None;
                },
            };
            proof {
                lemma_total_market_value_prefix_step(self.tokens@, i as int);
            }
            i = i + 1;
        }
        proof {
            assert(self.tokens@.subrange(0, n as int) =~= self.tokens@);
        }
        Some(acc)
    }

    /// The total USD valuation of all locked balances.
    pub fn total_market_value(&self) -> (r: u128)
        requires
            spec_total_market_value(self.tokens@) <= u128::MAX,
        ensures
            r == spec_total_market_value(self.tokens@),
    {
        match self.checked_total_market_value() {
            Some(v) => v,
            None => {
                proof {
                    assert(false);
                }
                0
            },
        }
    }

    /// The USD valuation that `amount` units of the token registered under
    /// `symbol` would have; zero for an unknown symbol.
    pub open spec fn spec_market_value_of(
        tokens: Seq<NearFungibleToken>,
        symbol: Seq<char>,
        amount: u128,
    ) -> int {
        if spec_has_symbol(tokens, symbol) {
            spec_market_value_of_amount(tokens[spec_symbol_index(tokens, symbol)], amount)
        } else {
            0
        }
    }

    /// Computes the USD valuation of `amount` units of the token under
    /// `symbol`, or `None` when it exceeds `u128::MAX`.
    pub fn checked_market_value_of(&self, symbol: &String, amount: u128) -> (r: Option<u128>)
        requires
            self.wf(),
        ensures
            match r {
                Some(v) => v == Self::spec_market_value_of(self.tokens@, symbol@, amount),
                None => Self::spec_market_value_of(self.tokens@, symbol@, amount) > u128::MAX,
            },
    {
        match self.find_index_of_symbol(symbol) {
            Some(i) => {
                proof {
                    lemma_symbol_index_agrees(self.tokens@, symbol@, i as int);
                }
                checked_market_value_of_amount(&self.tokens[i], amount)
            },
            None => Some(0),
        }
    }

    /// The USD valuation of `amount` units of the token under `symbol`;
    /// zero for an unknown symbol.
    pub fn get_market_value_of(&self, symbol: &String, amount: u128) -> (r: u128)
        requires
            self.wf(),
            Self::spec_market_value_of(self.tokens@, symbol@, amount) <= u128::MAX,
        ensures
            r == Self::spec_market_value_of(self.tokens@, symbol@, amount),
    {
        match self.checked_market_value_of(symbol, amount) {
            Some(v) => v,
            None => {
                proof {
                    assert(false);
                }
                0
            },
        }
    }

    /// Adds `amount` to the locked balance of the token under `symbol`.
    /// Fails with `Overflow`, changing nothing, when the sum exceeds the
    /// representable maximum. The collateral cap is the caller's check;
    /// this operation performs no policy check itself.
    pub fn apply_lock(&mut self, symbol: &String, amount: u128) -> (r: Result<(), LedgerError>)
        requires
            old(self).wf(),
            spec_has_symbol(old(self).tokens@, symbol@),
        ensures
            final(self).wf(),
            ({
                let tokens = old(self).tokens@;
                let i = spec_symbol_index(tokens, symbol@);
                if tokens[i].locked_balance + amount <= u128::MAX {
                    &&& r == Ok::<(), LedgerError>(())
                    &&& final(self).tokens@ == tokens.update(
                        i,
                        spec_with_locked_balance(
                            tokens[i],
                            (tokens[i].locked_balance + amount) as u128,
                        ),
                    )
                } else {
                    &&& r == Err::<(), LedgerError>(LedgerError::Overflow)
                    &&& *final(self) == *old(self)
                }
            }),
    {
        let i: usize = match self.find_index_of_symbol(symbol) {
            Some(i) => i,
            None => {
                proof {
                    assert(false);
                }
                return Err(LedgerError::Overflow);
            },
        };
        proof {
            lemma_symbol_index_agrees(self.tokens@, symbol@, i as int);
        }
        let new_balance: u128 = match self.tokens[i].locked_balance.checked_add(amount) {
            Some(v) => v,
            None => {
                return Err(LedgerError::Overflow);
            },
        };
        let mut updated: NearFungibleToken = self.tokens[i].duplicate();
        updated.locked_balance = new_balance;
        proof {
            assert(updated =~= spec_with_locked_balance(self.tokens@[i as int], new_balance));
        }
        self.tokens.set(i, updated);
        Ok(())
    }

    /// Lowers the locked balance of the token under `symbol` by `amount`,
    /// clamping at zero: this runs only after an external transfer has
    /// already irreversibly succeeded, so underflow must not be a failure.
    pub fn apply_unlock_confirmed(&mut self, symbol: &String, amount: u128)
        requires
            old(self).wf(),
            spec_has_symbol(old(self).tokens@, symbol@),
        ensures
            final(self).wf(),
            ({
                let tokens = old(self).tokens@;
                let i = spec_symbol_index(tokens, symbol@);
                let clamped = if amount <= tokens[i].locked_balance {
                    (tokens[i].locked_balance - amount) as u128
                } else {
                    0u128
                };
                final(self).tokens@ == tokens.update(
                    i,
                    spec_with_locked_balance(tokens[i], clamped),
                )
            }),
    {
        let i: usize = match self.find_index_of_symbol(symbol) {
            Some(i) => i,
            None => {
                proof {
                    assert(false);
                }
                return ;
            },
        };
        proof {
            lemma_symbol_index_agrees(self.tokens@, symbol@, i as int);
        }
        let new_balance: u128 = match self.tokens[i].locked_balance.checked_sub(amount) {
            Some(v) => v,
            None => 0,
        };
        let mut updated: NearFungibleToken = self.tokens[i].duplicate();
        updated.locked_balance = new_balance;
        proof {
            assert(updated =~= spec_with_locked_balance(self.tokens@[i as int], new_balance));
        }
        self.tokens.set(i, updated);
    }
}

/// The administrative surface of the asset registry. The identity checks —
/// only the owner may govern the registry, only the price maintainer may
/// set prices — are the caller's duty.
pub trait NearFungibleTokenManager: Sized {
    /// The registered tokens of the ledger.
    spec fn fungible_tokens(&self) -> Seq<NearFungibleToken>;

    /// The registry's well-formedness: symbols are unique keys.
    spec fn fungible_tokens_wf(&self) -> bool;

    /// Whether `self` and `pre` agree on everything outside the
    /// fungible-token registry.
    spec fn same_besides_fungible_tokens(&self, pre: Self) -> bool;

    /// Registers a new bridgeable token with a zero locked balance, in
    /// `Active` bridging state. Fails with `AlreadyRegistered`, changing
    /// nothing, when the symbol already exists.
    fn register_near_fungible_token(
        &mut self,
        symbol: String,
        name: String,
        decimals: u8,
        contract_account: String,
        price: u128,
    ) -> (r: Result<(), RegistryError>)
        requires
            old(self).fungible_tokens_wf(),
        ensures
            final(self).fungible_tokens_wf(),
            final(self).same_besides_fungible_tokens(*old(self)),
            ({
                let pre = old(self).fungible_tokens();
                if spec_has_symbol(pre, symbol@) {
                    &&& r == Err::<(), RegistryError>(RegistryError::AlreadyRegistered)
                    &&& final(self).fungible_tokens() == pre
                } else {
                    &&& r == Ok::<(), RegistryError>(())
                    &&& final(self).fungible_tokens() == pre.push(
                        NearFungibleToken {
                            metadata: NearFungibleTokenMetadata { symbol, name, decimals },
                            contract_account,
                            price_in_usd: price,
                            locked_balance: 0,
                            bridging_state: BridgingState::Active,
                        },
                    )
                }
            }),
    ;

    /// Replaces the descriptive metadata of a registered token, leaving its
    /// price, locked balance and bridging state alone. Fails with
    /// `UnknownAsset`, changing nothing, when the symbol is unknown.
    fn change_near_fungible_token_metadata(
        &mut self,
        symbol: String,
        name: String,
        decimals: u8,
        contract_account: String,
    ) -> (r: Result<(), RegistryError>)
        requires
            old(self).fungible_tokens_wf(),
        ensures
            final(self).fungible_tokens_wf(),
            final(self).same_besides_fungible_tokens(*old(self)),
            ({
                let pre = old(self).fungible_tokens();
                if spec_has_symbol(pre, symbol@) {
                    let i = spec_symbol_index(pre, symbol@);
                    &&& r == Ok::<(), RegistryError>(())
                    &&& final(self).fungible_tokens() == pre.update(
                        i,
                        NearFungibleToken {
                            metadata: NearFungibleTokenMetadata {
                                symbol: pre[i].metadata.symbol,
                                name,
                                decimals,
                            },
                            contract_account,
                            price_in_usd: pre[i].price_in_usd,
                            locked_balance: pre[i].locked_balance,
                            bridging_state: pre[i].bridging_state,
                        },
                    )
                } else {
                    &&& r == Err::<(), RegistryError>(RegistryError::UnknownAsset)
                    &&& final(self).fungible_tokens() == pre
                }
            }),
    ;

    /// Sets the price (in USD) of a registered token. Fails with
    /// `UnknownAsset`, changing nothing, when the symbol is unknown.
    fn set_price_of_near_fungible_token(&mut self, symbol: String, price: u128) -> (r: Result<
        (),
        RegistryError,
    >)
        requires
            old(self).fungible_tokens_wf(),
        ensures
            final(self).fungible_tokens_wf(),
            final(self).same_besides_fungible_tokens(*old(self)),
            ({
                let pre = old(self).fungible_tokens();
                if spec_has_symbol(pre, symbol@) {
                    let i = spec_symbol_index(pre, symbol@);
                    &&& r == Ok::<(), RegistryError>(())
                    &&& final(self).fungible_tokens() == pre.update(
                        i,
                        NearFungibleToken {
                            metadata: pre[i].metadata,
                            contract_account: pre[i].contract_account,
                            price_in_usd: price,
                            locked_balance: pre[i].locked_balance,
                            bridging_state: pre[i].bridging_state,
                        },
                    )
                } else {
                    &&& r == Err::<(), RegistryError>(RegistryError::UnknownAsset)
                    &&& final(self).fungible_tokens() == pre
                }
            }),
    ;

    /// Opens bridging of a registered token. Fails with `UnknownAsset`,
    /// changing nothing, when the symbol is unknown.
    fn open_bridging_of_near_fungible_token(&mut self, symbol: String) -> (r: Result<
        (),
        RegistryError,
    >)
        requires
            old(self).fungible_tokens_wf(),
        ensures
            final(self).fungible_tokens_wf(),
            final(self).same_besides_fungible_tokens(*old(self)),
            ({
                let pre = old(self).fungible_tokens();
                if spec_has_symbol(pre, symbol@) {
                    let i = spec_symbol_index(pre, symbol@);
                    &&& r == Ok::<(), RegistryError>(())
                    &&& final(self).fungible_tokens() == pre.update(
                        i,
                        NearFungibleToken {
                            metadata: pre[i].metadata,
                            contract_account: pre[i].contract_account,
                            price_in_usd: pre[i].price_in_usd,
                            locked_balance: pre[i].locked_balance,
                            bridging_state: BridgingState::Active,
                        },
                    )
                } else {
                    &&& r == Err::<(), RegistryError>(RegistryError::UnknownAsset)
                    &&& final(self).fungible_tokens() == pre
                }
            }),
    ;

    /// Closes bridging of a registered token, so deposits of it are
    /// rejected. Fails with `UnknownAsset`, changing nothing, when the
    /// symbol is unknown.
    fn close_bridging_of_near_fungible_token(&mut self, symbol: String) -> (r: Result<
        (),
        RegistryError,
    >)
        requires
            old(self).fungible_tokens_wf(),
        ensures
            final(self).fungible_tokens_wf(),
            final(self).same_besides_fungible_tokens(*old(self)),
            ({
                let pre = old(self).fungible_tokens();
                if spec_has_symbol(pre, symbol@) {
                    let i = spec_symbol_index(pre, symbol@);
                    &&& r == Ok::<(), RegistryError>(())
                    &&& final(self).fungible_tokens() == pre.update(
                        i,
                        NearFungibleToken {
                            metadata: pre[i].metadata,
                            contract_account: pre[i].contract_account,
                            price_in_usd: pre[i].price_in_usd,
                            locked_balance: pre[i].locked_balance,
                            bridging_state: BridgingState::Closed,
                        },
                    )
                } else {
                    &&& r == Err::<(), RegistryError>(RegistryError::UnknownAsset)
                    &&& final(self).fungible_tokens() == pre
                }
            }),
    ;
}

impl NearFungibleTokenManager for crate::AppchainAnchor {
    open spec fn fungible_tokens(&self) -> Seq<NearFungibleToken> {
        self.near_fungible_tokens.tokens@
    }

    open spec fn fungible_tokens_wf(&self) -> bool {
        self.near_fungible_tokens.wf()
    }

    open spec fn same_besides_fungible_tokens(&self, pre: Self) -> bool {
        &&& crate::spec_same_static_state(pre, *self)
        &&& self.anchor_event_histories == pre.anchor_event_histories
    }

    fn register_near_fungible_token(
        &mut self,
        symbol: String,
        name: String,
        decimals: u8,
        contract_account: String,
        price: u128,
    ) -> (r: Result<(), RegistryError>) {
        if self.near_fungible_tokens.contains(&symbol) {
            return Err(RegistryError::AlreadyRegistered);
        }
        self.near_fungible_tokens.insert(
            &NearFungibleToken {
                metadata: NearFungibleTokenMetadata { symbol, name, decimals },
                contract_account,
                price_in_usd: price,
                locked_balance: 0,
                bridging_state: BridgingState::Active,
            },
        );
        Ok(())
    }

    fn change_near_fungible_token_metadata(
        &mut self,
        symbol: String,
        name: String,
        decimals: u8,
        contract_account: String,
    ) -> (r: Result<(), RegistryError>) {
        let mut token: NearFungibleToken = match self.near_fungible_tokens.get(&symbol) {
            Some(t) => t,
            None => {
                return Err(RegistryError::UnknownAsset);
            },
        };
        token.metadata.name = name;
        token.metadata.decimals = decimals;
        token.contract_account = contract_account;
        proof {
            lemma_update_keeps_symbol_agreement(self.near_fungible_tokens.tokens@, symbol@, token);
        }
        self.near_fungible_tokens.insert(&token);
        Ok(())
    }

    fn set_price_of_near_fungible_token(&mut self, symbol: String, price: u128) -> (r: Result<
        (),
        RegistryError,
    >) {
        let mut token: NearFungibleToken = match self.near_fungible_tokens.get(&symbol) {
            Some(t) => t,
            None => {
                return Err(RegistryError::UnknownAsset);
            },
        };
        token.price_in_usd = price;
        proof {
            lemma_update_keeps_symbol_agreement(self.near_fungible_tokens.tokens@, symbol@, token);
        }
        self.near_fungible_tokens.insert(&token);
        Ok(())
    }

    fn open_bridging_of_near_fungible_token(&mut self, symbol: String) -> (r: Result<
        (),
        RegistryError,
    >) {
        let mut token: NearFungibleToken = match self.near_fungible_tokens.get(&symbol) {
            Some(t) => t,
            None => {
                return Err(RegistryError::UnknownAsset);
            },
        };
        token.bridging_state = BridgingState::Active;
        proof {
            lemma_update_keeps_symbol_agreement(self.near_fungible_tokens.tokens@, symbol@, token);
        }
        self.near_fungible_tokens.insert(&token);
        Ok(())
    }

    fn close_bridging_of_near_fungible_token(&mut self, symbol: String) -> (r: Result<
        (),
        RegistryError,
    >) {
        let mut token: NearFungibleToken = match self.near_fungible_tokens.get(&symbol) {
            Some(t) => t,
            None => {
                return Err(RegistryError::UnknownAsset);
            },
        };
        token.bridging_state = BridgingState::Closed;
        proof {
            lemma_update_keeps_symbol_agreement(self.near_fungible_tokens.tokens@, symbol@, token);
        }
        self.near_fungible_tokens.insert(&token);
        Ok(())
    }
}

/// Whether a deposit of `amount` units, arriving from the token contract
/// `predecessor_account_id` with the attached instruction `msg`, is
/// accepted and locked. It is, exactly when: the contract is that of a
/// registered token; the instruction parses and names a well-formed
/// destination; bridging of the token is `Active`; the valuations involved
/// are representable; the candidate total valuation — computed fresh from
/// the live price and stake — stays within the collateral cap; and the new
/// locked balance is representable.
pub open spec fn spec_deposit_accepted(
    pre: crate::AppchainAnchor,
    predecessor_account_id: Seq<char>,
    amount: u128,
    msg: Seq<char>,
) -> bool {
    let tokens = pre.near_fungible_tokens.tokens@;
    let idx = spec_contract_index(tokens, predecessor_account_id);
    let parsed = crate::deposit_message::spec_parse_deposit_message(msg);
    let total = spec_total_market_value(tokens);
    let value = spec_market_value_of_amount(tokens[idx], amount);
    let staked = crate::spec_staked_oct_market_value(pre);
    let pct = pre.protocol_settings.maximum_market_value_percent_of_near_fungible_tokens as int;
    &&& spec_has_contract_account(tokens, predecessor_account_id)
    &&& parsed is Some
    &&& spec_valid_account_id_in_appchain(parsed.unwrap())
    &&& tokens[idx].bridging_state == BridgingState::Active
    &&& total <= u128::MAX as int
    &&& value <= u128::MAX as int
    &&& total + value <= u128::MAX as int
    &&& staked <= u128::MAX as int
    &&& staked * pct <= u128::MAX as int
    &&& total + value <= staked * pct / 100
    &&& tokens[idx].locked_balance + amount <= u128::MAX as int
}

/// The state change of an accepted deposit: the amount is added to the
/// token's locked balance, and one `Locked` event is appended carrying the
/// token's symbol, the sender, the destination named by the instruction,
/// and the amount.
pub open spec fn spec_deposit_effect(
    pre: crate::AppchainAnchor,
    post: crate::AppchainAnchor,
    predecessor_account_id: Seq<char>,
    sender_id: String,
    amount: u128,
    msg: Seq<char>,
) -> bool {
    let tokens = pre.near_fungible_tokens.tokens@;
    let idx = spec_contract_index(tokens, predecessor_account_id);
    &&& crate::spec_same_static_state(pre, post)
    &&& post.near_fungible_tokens.tokens@ == tokens.update(
        idx,
        spec_with_locked_balance(tokens[idx], (tokens[idx].locked_balance + amount) as u128),
    )
    &&& crate::anchor_event_histories::spec_appends_one_event(
        pre.anchor_event_histories,
        post.anchor_event_histories,
    )
    &&& match post.anchor_event_histories.histories@.last().event {
        AnchorEvent::NearFungibleTokenLocked {
            symbol,
            sender_id_in_near,
            receiver_id_in_appchain,
            amount: locked_amount,
        } => {
            &&& symbol == tokens[idx].metadata.symbol
            &&& sender_id_in_near == sender_id
            &&& receiver_id_in_appchain@ == crate::deposit_message::spec_parse_deposit_message(
                msg,
            ).unwrap()
            &&& locked_amount == amount
        },
        _ => false,
    }
}

/// The reason recorded with a failed unlock transfer.
pub open spec fn spec_unlock_failure_reason(
    receiver_id_in_near: Seq<char>,
    symbol: Seq<char>,
) -> Seq<char> {
    "Maybe the receiver account "@ + receiver_id_in_near + " is not registered in '"@ + symbol
        + "' token contract."@
}

impl crate::AppchainAnchor {
    /// The deposit (lock) path of the settlement engine, run when a
    /// registered token contract hands over `amount` units sent by
    /// `sender_id` with the instruction `msg` attached. Fully synchronous:
    /// the funds are already held when this runs. Returns the amount to
    /// hand back to the sender: the full amount when the deposit is
    /// rejected — leaving every balance and the event history unchanged —
    /// and zero when it is accepted and locked.
    pub fn process_near_fungible_token_deposit(
        &mut self,
        predecessor_account_id: String,
        sender_id: String,
        amount: u128,
        msg: String,
    ) -> (refund: u128)
        requires
            old(self).wf(),
            old(self).anchor_event_histories.end_index < u64::MAX,
        ensures
            final(self).wf(),
            !spec_deposit_accepted(*old(self), predecessor_account_id@, amount, msg@) ==> refund
                == amount && *final(self) == *old(self),
            spec_deposit_accepted(*old(self), predecessor_account_id@, amount, msg@) ==> refund
                == 0 && spec_deposit_effect(
                *old(self),
                *final(self),
                predecessor_account_id@,
                sender_id,
                amount,
                msg@,
            ),
    {
        let ghost tokens = self.near_fungible_tokens.tokens@;
        let ghost idx = spec_contract_index(tokens, predecessor_account_id@);
        let token: NearFungibleToken = match self.near_fungible_tokens.get_by_contract_account(
            &predecessor_account_id,
        ) {
            Some(t) => t,
            None => {
                return amount;
            },
        };
        let receiver_id_in_appchain: String = match crate::deposit_message::parse_deposit_message(
            msg.as_str(),
        ) {
            Some(id) => id,
            None => {
                return amount;
            },
        };
        if !AccountIdInAppchain::new(receiver_id_in_appchain.clone()).is_valid() {
            return amount;
        }
        match token.bridging_state {
            BridgingState::Closed => {
                return amount;
            },
            BridgingState::Active => {},
        }
        let total: u128 = match self.near_fungible_tokens.checked_total_market_value() {
            Some(v) => v,
            None => {
                return amount;
            },
        };
        let value: u128 = match checked_market_value_of_amount(&token, amount) {
            Some(v) => v,
            None => {
                return amount;
            },
        };
        let candidate: u128 = match total.checked_add(value) {
            Some(v) => v,
            None => {
                return amount;
            },
        };
        let staked: u128 = match self.checked_staked_oct_market_value() {
            Some(v) => v,
            None => {
                return amount;
            },
        };
        let pct: u128 =
            self.protocol_settings.maximum_market_value_percent_of_near_fungible_tokens as u128;
        let cap_scaled: u128 = match staked.checked_mul(pct) {
            Some(v) => v,
            None => {
                return amount;
            },
        };
        let cap: u128 = cap_scaled / 100;
        if candidate > cap {
            return amount;
        }
        proof {
            assert(spec_token_with_symbol(tokens, token.metadata.symbol@, idx));
            lemma_symbol_index_agrees(tokens, token.metadata.symbol@, idx);
        }
        match self.near_fungible_tokens.apply_lock(&token.metadata.symbol, amount) {
            Ok(()) => {},
            Err(_) => {
                return amount;
            },
        }
        self.append_anchor_event(
            AnchorEvent::NearFungibleTokenLocked {
                symbol: token.metadata.symbol.clone(),
                sender_id_in_near: sender_id,
                receiver_id_in_appchain,
                amount,
            },
        );
        proof {
            let pre_hist = old(self).anchor_event_histories;
            let post_hist = self.anchor_event_histories;
            assert(post_hist.histories@.subrange(0, pre_hist.histories@.len() as int)
                =~= pre_hist.histories@);
        }
        0
    }

    /// The start of the withdrawal (unlock) path, triggered by an
    /// authenticated withdrawal message. For a registered symbol it returns
    /// the asynchronous transfer instruction to issue against the token's
    /// external contract — with no pre-check of the locked balance, since
    /// the external contract's own holdings are authoritative; the caller
    /// must deliver the transfer's outcome to exactly one invocation of
    /// `resolve_fungible_token_transfer` with the same arguments. An
    /// unknown symbol is a silent no-op.
    pub fn unlock_near_fungible_token(
        &self,
        sender_id_in_appchain: String,
        symbol: String,
        receiver_id_in_near: String,
        amount: u128,
        appchain_message_nonce: u32,
    ) -> (r: Option<FtTransferAction>)
        requires
            self.wf(),
        ensures
            ({
                let tokens = self.near_fungible_tokens.tokens@;
                if spec_has_symbol(tokens, symbol@) {
                    r == Some(
                        FtTransferAction {
                            contract_account: tokens[spec_symbol_index(
                                tokens,
                                symbol@,
                            )].contract_account,
                            receiver_id: receiver_id_in_near,
                            amount,
                        },
                    )
                } else {
                    r is None
                }
            }),
    {
        match self.near_fungible_tokens.get(&symbol) {
            Some(token) => Some(
                FtTransferAction {
                    contract_account: token.contract_account,
                    receiver_id: receiver_id_in_near,
                    amount,
                },
            ),
            None => None,
        }
    }

    /// The continuation of the withdrawal path, invoked exactly once with
    /// the outcome of the transfer issued by `unlock_near_fungible_token`.
    /// On success it appends one `Unlocked` event carrying the original
    /// nonce and lowers the locked balance by the amount, clamped at zero.
    /// On failure it appends one `FailedToUnlock` event with a non-empty
    /// reason and leaves the ledger unchanged; there is no automatic retry.
    pub fn resolve_fungible_token_transfer(
        &mut self,
        symbol: String,
        sender_id_in_appchain: String,
        receiver_id_in_near: String,
        amount: u128,
        appchain_message_nonce: u32,
        outcome: FtTransferOutcome,
    )
        requires
            old(self).wf(),
            old(self).anchor_event_histories.end_index < u64::MAX,
        ensures
            final(self).wf(),
            crate::spec_same_static_state(*old(self), *final(self)),
            crate::anchor_event_histories::spec_appends_one_event(
                old(self).anchor_event_histories,
                final(self).anchor_event_histories,
            ),
            ({
                let tokens = old(self).near_fungible_tokens.tokens@;
                let last = final(self).anchor_event_histories.histories@.last();
                match outcome {
                    FtTransferOutcome::Successful => {
                        &&& last.event == AnchorEvent::NearFungibleTokenUnlocked {
                            symbol,
                            sender_id_in_appchain,
                            receiver_id_in_near,
                            amount,
                            appchain_message_nonce,
                        }
                        &&& final(self).near_fungible_tokens.tokens@ == if spec_has_symbol(
                            tokens,
                            symbol@,
                        ) {
                            let i = spec_symbol_index(tokens, symbol@);
                            tokens.update(
                                i,
                                spec_with_locked_balance(
                                    tokens[i],
                                    if amount <= tokens[i].locked_balance {
                                        (tokens[i].locked_balance - amount) as u128
                                    } else {
                                        0u128
                                    },
                                ),
                            )
                        } else {
                            tokens
                        }
                    },
                    FtTransferOutcome::Failed => {
                        &&& final(self).near_fungible_tokens.tokens@ == tokens
                        &&& match last.event {
                            AnchorEvent::FailedToUnlockNearFungibleToken {
                                symbol: failed_symbol,
                                sender_id_in_appchain: failed_sender,
                                receiver_id_in_near: failed_receiver,
                                amount: failed_amount,
                                appchain_message_nonce: failed_nonce,
                                reason,
                            } => {
                                &&& failed_symbol == symbol
                                &&& failed_sender == sender_id_in_appchain
                                &&& failed_receiver == receiver_id_in_near
                                &&& failed_amount == amount
                                &&& failed_nonce == appchain_message_nonce
                                &&& reason@ == spec_unlock_failure_reason(
                                    receiver_id_in_near@,
                                    symbol@,
                                )
                                &&& reason@.len() > 0
                            },
                            _ => false,
                        }
                    },
                }
            }),
    {
        match outcome {
            FtTransferOutcome::Successful => {
                let ledger_symbol: String = symbol.clone();
                self.append_anchor_event(
                    AnchorEvent::NearFungibleTokenUnlocked {
                        symbol,
                        sender_id_in_appchain,
                        receiver_id_in_near,
                        amount,
                        appchain_message_nonce,
                    },
                );
                if self.near_fungible_tokens.contains(&ledger_symbol) {
                    self.near_fungible_tokens.apply_unlock_confirmed(&ledger_symbol, amount);
                }
            },
            FtTransferOutcome::Failed => {
                proof {
                    reveal_strlit("Maybe the receiver account ");
                }
                let mut reason: String = String::from_str("Maybe the receiver account ");
                reason.append(receiver_id_in_near.as_str());
                reason.append(" is not registered in '");
                reason.append(symbol.as_str());
                reason.append("' token contract.");
                self.append_anchor_event(
                    AnchorEvent::FailedToUnlockNearFungibleToken {
                        symbol,
                        sender_id_in_appchain,
                        receiver_id_in_near,
                        amount,
                        appchain_message_nonce,
                        reason,
                    },
                );
            },
        }
        proof {
            let pre_hist = old(self).anchor_event_histories;
            let post_hist = self.anchor_event_histories;
            assert(post_hist.histories@.subrange(0, pre_hist.histories@.len() as int)
                =~= pre_hist.histories@);
        }
    }
}

/// LAW: an accepted deposit leaves the state within the collateral cap —
/// whatever state it started from, since the cap is checked fresh against
/// the live price and stake on every call. The one proviso is that locking
/// the amount must not complete a further whole unit of the asset (the
/// remainders of the old balance and of the amount must not carry):
/// truncation undercounts the deposited value by up to one whole unit, so
/// without the proviso the total after the lock can exceed the cap by up
/// to the asset's unit price.
pub proof fn lemma_accepted_deposit_upholds_cap_invariant(
    pre: crate::AppchainAnchor,
    post: crate::AppchainAnchor,
    predecessor_account_id: Seq<char>,
    sender_id: String,
    amount: u128,
    msg: Seq<char>,
)
    requires
        spec_deposit_accepted(pre, predecessor_account_id, amount, msg),
        spec_deposit_effect(pre, post, predecessor_account_id, sender_id, amount, msg),
        ({
            let tokens = pre.near_fungible_tokens.tokens@;
            let t = tokens[spec_contract_index(tokens, predecessor_account_id)];
            let d = crate::valuation::pow10(t.metadata.decimals as nat) as int;
            (t.locked_balance as int) % d + (amount as int) % d < d
        }),
    ensures
        crate::spec_collateral_cap_invariant(post),
{
    let tokens = pre.near_fungible_tokens.tokens@;
    let idx = spec_contract_index(tokens, predecessor_account_id);
    lemma_contract_index_valid(tokens, predecessor_account_id);
    assert(crate::spec_cap_value(post) == crate::spec_cap_value(pre));
    crate::valuation::lemma_cap_preserved_by_accepted_deposit(
        tokens,
        idx,
        amount,
        crate::spec_cap_value(pre),
    );
}

/// LAW: confirming an unlock keeps a state within the collateral cap
/// within it, because the clamped decrement never raises a locked balance.
pub proof fn lemma_unlock_confirm_upholds_cap_invariant(
    pre: crate::AppchainAnchor,
    post: crate::AppchainAnchor,
    symbol: Seq<char>,
    amount: u128,
)
    requires
        crate::spec_collateral_cap_invariant(pre),
        crate::spec_same_static_state(pre, post),
        ({
            let tokens = pre.near_fungible_tokens.tokens@;
            post.near_fungible_tokens.tokens@ == if spec_has_symbol(tokens, symbol) {
                let i = spec_symbol_index(tokens, symbol);
                tokens.update(
                    i,
                    spec_with_locked_balance(
                        tokens[i],
                        if amount <= tokens[i].locked_balance {
                            (tokens[i].locked_balance - amount) as u128
                        } else {
                            0u128
                        },
                    ),
                )
            } else {
                tokens
            }
        }),
    ensures
        crate::spec_collateral_cap_invariant(post),
{
    let tokens = pre.near_fungible_tokens.tokens@;
    assert(crate::spec_cap_value(post) == crate::spec_cap_value(pre));
    if spec_has_symbol(tokens, symbol) {
        let i = spec_symbol_index(tokens, symbol);
        assert(spec_token_with_symbol(tokens, symbol, i));
        let clamped = if amount <= tokens[i].locked_balance {
            (tokens[i].locked_balance - amount) as u128
        } else {
            0u128
        };
        crate::valuation::lemma_cap_preserved_by_unlock_confirm(
            tokens,
            i,
            clamped,
            crate::spec_cap_value(pre),
        );
    }
}

/// LAW: registering an asset keeps a state within the collateral cap
/// within it, because the new record starts with a zero locked balance.
pub proof fn lemma_registration_upholds_cap_invariant(
    pre: crate::AppchainAnchor,
    post: crate::AppchainAnchor,
    token: NearFungibleToken,
)
    requires
        crate::spec_collateral_cap_invariant(pre),
        crate::spec_same_static_state(pre, post),
        token.locked_balance == 0,
        post.near_fungible_tokens.tokens@ == pre.near_fungible_tokens.tokens@.push(token),
    ensures
        crate::spec_collateral_cap_invariant(post),
{
    assert(crate::spec_cap_value(post) == crate::spec_cap_value(pre));
    crate::valuation::lemma_cap_preserved_by_registration(
        pre.near_fungible_tokens.tokens@,
        token,
        crate::spec_cap_value(pre),
    );
}

/// A token read from position `spec_symbol_index(tokens, symbol)` and
/// changed in any field but its symbol is stored back at that same
/// position.
proof fn lemma_update_keeps_symbol_agreement(
    tokens: Seq<NearFungibleToken>,
    symbol: Seq<char>,
    updated: NearFungibleToken,
)
    requires
        spec_symbols_unique(tokens),
        spec_has_symbol(tokens, symbol),
        updated.metadata.symbol@ == symbol,
    ensures
        spec_symbol_index(tokens, updated.metadata.symbol@) == spec_symbol_index(tokens, symbol),
        spec_has_symbol(tokens, updated.metadata.symbol@),
{
    let i = spec_symbol_index(tokens, symbol);
    assert(spec_token_with_symbol(tokens, symbol, i));
    lemma_symbol_index_agrees(tokens, updated.metadata.symbol@, i);
}

} // verus!
