//! USD valuation of locked token balances, and the laws that keep the
//! total valuation under the collateral cap.
//!
//! `valuation(asset, amount) = amount / 10^decimals * price`, with integer
//! truncating division: rounding is always downward, a deliberate
//! conservative bias against over-collateralization.

use vstd::prelude::*;
use vstd::arithmetic::div_mod::{
    lemma_basic_div, lemma_div_is_ordered, lemma_div_pos_is_pos, lemma_fundamental_div_mod,
    lemma_fundamental_div_mod_converse_div,
};
use vstd::arithmetic::mul::{
    lemma_mul_inequality, lemma_mul_is_distributive_add_other_way, lemma_mul_nonnegative,
};
use crate::types::NearFungibleToken;

verus! {

/// Ten to the power `e`: the number of indivisible units in one whole token
/// of an asset with `e` decimals.
pub open spec fn pow10(e: nat) -> nat
    decreases e,
{
    if e == 0 {
        1
    } else {
        10 * pow10((e - 1) as nat)
    }
}

/// Every power of ten is positive.
pub proof fn lemma_pow10_positive(e: nat)
    ensures
        pow10(e) >= 1,
    decreases e,
{
    if e > 0 {
        lemma_pow10_positive((e - 1) as nat);
    }
}

/// Powers of ten grow with the exponent.
pub proof fn lemma_pow10_increases(e1: nat, e2: nat)
    requires
        e1 <= e2,
    ensures
        pow10(e1) <= pow10(e2),
    decreases e2,
{
    if e1 < e2 {
        lemma_pow10_increases(e1, (e2 - 1) as nat);
        lemma_pow10_positive((e2 - 1) as nat);
    }
}

/// `10^38` still fits in a `u128`; `10^39` does not.
pub proof fn lemma_pow10_u128_range()
    ensures
        pow10(38) <= u128::MAX,
        pow10(39) > u128::MAX,
{
    assert(pow10(0) == 1);
    assert(pow10(1) == 10);
    assert(pow10(2) == 100);
    assert(pow10(3) == 1000);
    assert(pow10(4) == 10000);
    assert(pow10(5) == 100000);
    assert(pow10(6) == 1000000);
    assert(pow10(7) == 10000000);
    assert(pow10(8) == 100000000);
    assert(pow10(9) == 1000000000);
    assert(pow10(10) == 10000000000);
    assert(pow10(11) == 100000000000);
    assert(pow10(12) == 1000000000000);
    assert(pow10(13) == 10000000000000);
    assert(pow10(14) == 100000000000000);
    assert(pow10(15) == 1000000000000000);
    assert(pow10(16) == 10000000000000000);
    assert(pow10(17) == 100000000000000000);
    assert(pow10(18) == 1000000000000000000);
    assert(pow10(19) == 10000000000000000000);
    assert(pow10(20) == 100000000000000000000);
    assert(pow10(21) == 1000000000000000000000);
    assert(pow10(22) == 10000000000000000000000);
    assert(pow10(23) == 100000000000000000000000);
    assert(pow10(24) == 1000000000000000000000000);
    assert(pow10(25) == 10000000000000000000000000);
    assert(pow10(26) == 100000000000000000000000000);
    assert(pow10(27) == 1000000000000000000000000000);
    assert(pow10(28) == 10000000000000000000000000000);
    assert(pow10(29) == 100000000000000000000000000000);
    assert(pow10(30) == 1000000000000000000000000000000);
    assert(pow10(31) == 10000000000000000000000000000000);
    assert(pow10(32) == 100000000000000000000000000000000);
    assert(pow10(33) == 1000000000000000000000000000000000);
    assert(pow10(34) == 10000000000000000000000000000000000);
    assert(pow10(35) == 100000000000000000000000000000000000);
    assert(pow10(36) == 1000000000000000000000000000000000000);
    assert(pow10(37) == 10000000000000000000000000000000000000);
    assert(pow10(38) == 100000000000000000000000000000000000000);
    assert(pow10(39) == 1000000000000000000000000000000000000000);
}

/// Computes `10^e`, or `None` when it exceeds `u128::MAX`.
pub fn pow10_u128(e: u8) -> (r: Option<u128>)
    ensures
        match r {
            Some(v) => v == pow10(e as nat) && pow10(e as nat) <= u128::MAX,
            None => pow10(e as nat) > u128::MAX,
        },
{
    proof {
        lemma_pow10_u128_range();
    }
    if e >= 39 {
        proof {
            lemma_pow10_increases(39, e as nat);
        }
        return None;
    }
    let mut acc: u128 = 1;
    let mut i: u8 = 0;
    while i < e
        invariant
            i <= e,
            e <= 38,
            acc == pow10(i as nat),
            pow10(38) <= u128::MAX,
        decreases e - i,
    {
        proof {
            lemma_pow10_increases((i + 1) as nat, 38);
            assert(pow10((i + 1) as nat) == 10 * pow10(i as nat));
        }
        acc = acc * 10;
        i = i + 1;
    }
    Some(acc)
}

/// The USD valuation of `amount` indivisible units of the asset `t`:
/// whole tokens (truncating) times the price of one whole token.
pub open spec fn spec_market_value_of_amount(t: NearFungibleToken, amount: u128) -> int {
    (amount as int) / (pow10(t.metadata.decimals as nat) as int) * (t.price_in_usd as int)
}

/// The USD valuation of the locked balance of the asset `t`.
pub open spec fn spec_token_market_value(t: NearFungibleToken) -> int {
    spec_market_value_of_amount(t, t.locked_balance)
}

/// The summed USD valuation of all locked balances in `tokens`.
pub open spec fn spec_total_market_value(tokens: Seq<NearFungibleToken>) -> int
    decreases tokens.len(),
{
    if tokens.len() == 0 {
        0
    } else {
        spec_total_market_value(tokens.drop_last()) + spec_token_market_value(tokens.last())
    }
}

/// A valuation is never negative.
pub proof fn lemma_market_value_of_amount_nonneg(t: NearFungibleToken, amount: u128)
    ensures
        spec_market_value_of_amount(t, amount) >= 0,
{
    let d: int = pow10(t.metadata.decimals as nat) as int;
    lemma_pow10_positive(t.metadata.decimals as nat);
    lemma_div_pos_is_pos(amount as int, d);
    lemma_mul_nonnegative((amount as int) / d, t.price_in_usd as int);
}

/// A total valuation is never negative.
pub proof fn lemma_total_market_value_nonneg(tokens: Seq<NearFungibleToken>)
    ensures
        spec_total_market_value(tokens) >= 0,
    decreases tokens.len(),
{
    if tokens.len() > 0 {
        lemma_total_market_value_nonneg(tokens.drop_last());
        lemma_market_value_of_amount_nonneg(tokens.last(), tokens.last().locked_balance);
    }
}

/// Extending a prefix of `tokens` by its next record adds that record's
/// valuation to the prefix total.
pub proof fn lemma_total_market_value_prefix_step(tokens: Seq<NearFungibleToken>, i: int)
    requires
        0 <= i < tokens.len(),
    ensures
        spec_total_market_value(tokens.subrange(0, i + 1)) == spec_total_market_value(
            tokens.subrange(0, i),
        ) + spec_token_market_value(tokens[i]),
{
    let s: Seq<NearFungibleToken> = tokens.subrange(0, i + 1);
    assert(s.drop_last() =~= tokens.subrange(0, i));
    assert(s.last() == tokens[i]);
}

/// The valuation of a prefix never exceeds the valuation of the whole.
pub proof fn lemma_total_market_value_prefix_bound(tokens: Seq<NearFungibleToken>, i: int)
    requires
        0 <= i <= tokens.len(),
    ensures
        spec_total_market_value(tokens.subrange(0, i)) <= spec_total_market_value(tokens),
    decreases tokens.len() - i,
{
    if i == tokens.len() {
        assert(tokens.subrange(0, i) =~= tokens);
    } else {
        lemma_total_market_value_prefix_step(tokens, i);
        lemma_market_value_of_amount_nonneg(tokens[i], tokens[i].locked_balance);
        lemma_total_market_value_prefix_bound(tokens, i + 1);
    }
}

/// Replacing the record at `i` changes the total by the difference of the
/// two records' valuations.
pub proof fn lemma_total_market_value_update(
    tokens: Seq<NearFungibleToken>,
    i: int,
    t: NearFungibleToken,
)
    requires
        0 <= i < tokens.len(),
    ensures
        spec_total_market_value(tokens.update(i, t)) == spec_total_market_value(tokens)
            - spec_token_market_value(tokens[i]) + spec_token_market_value(t),
    decreases tokens.len(),
{
    let u: Seq<NearFungibleToken> = tokens.update(i, t);
    if i == tokens.len() - 1 {
        assert(u.drop_last() =~= tokens.drop_last());
        assert(u.last() == t);
    } else {
        assert(u.drop_last() =~= tokens.drop_last().update(i, t));
        assert(u.last() == tokens.last());
        lemma_total_market_value_update(tokens.drop_last(), i, t);
    }
}

/// Appending a record adds its valuation to the total.
pub proof fn lemma_total_market_value_push(tokens: Seq<NearFungibleToken>, t: NearFungibleToken)
    ensures
        spec_total_market_value(tokens.push(t)) == spec_total_market_value(tokens)
            + spec_token_market_value(t),
{
    assert(tokens.push(t).drop_last() =~= tokens);
    assert(tokens.push(t).last() == t);
}

/// The record `t` with its locked balance replaced by `balance`.
pub open spec fn spec_with_locked_balance(t: NearFungibleToken, balance: u128) -> NearFungibleToken {
    NearFungibleToken { locked_balance: balance, ..t }
}

/// Truncating division distributes over an addition whose remainders do
/// not carry into a further whole unit.
pub proof fn lemma_div_add_exact(l: int, a: int, d: int)
    requires
        0 < d,
        0 <= l,
        0 <= a,
        l % d + a % d < d,
    ensures
        (l + a) / d == l / d + a / d,
{
    lemma_fundamental_div_mod(l, d);
    lemma_fundamental_div_mod(a, d);
    assert(l + a == (l / d + a / d) * d + (l % d + a % d)) by (nonlinear_arith)
        requires
            l == d * (l / d) + l % d,
            a == d * (a / d) + a % d,
    ;
    lemma_fundamental_div_mod_converse_div(l + a, d, l / d + a / d, l % d + a % d);
}

/// LAW: an accepted deposit keeps the total valuation within the collateral
/// cap. If the candidate total — the current total plus the valuation of the
/// deposited amount — stays within `cap`, and locking the amount does not
/// complete a further whole unit of the asset, then the total valuation
/// after the lock also stays within `cap`.
pub proof fn lemma_cap_preserved_by_accepted_deposit(
    tokens: Seq<NearFungibleToken>,
    i: int,
    amount: u128,
    cap: int,
)
    requires
        0 <= i < tokens.len(),
        tokens[i].locked_balance + amount <= u128::MAX,
        spec_total_market_value(tokens) + spec_market_value_of_amount(tokens[i], amount) <= cap,
        (tokens[i].locked_balance as int) % (pow10(tokens[i].metadata.decimals as nat) as int) + (
        amount as int) % (pow10(tokens[i].metadata.decimals as nat) as int) < pow10(
            tokens[i].metadata.decimals as nat,
        ) as int,
    ensures
        spec_total_market_value(
            tokens.update(
                i,
                spec_with_locked_balance(
                    tokens[i],
                    (tokens[i].locked_balance + amount) as u128,
                ),
            ),
        ) <= cap,
{
    let t: NearFungibleToken = tokens[i];
    let d: int = pow10(t.metadata.decimals as nat) as int;
    let p: int = t.price_in_usd as int;
    let l: int = t.locked_balance as int;
    let a: int = amount as int;
    let t2: NearFungibleToken = spec_with_locked_balance(t, (t.locked_balance + amount) as u128);
    lemma_pow10_positive(t.metadata.decimals as nat);
    lemma_div_add_exact(l, a, d);
    lemma_mul_is_distributive_add_other_way(p, l / d, a / d);
    assert(spec_token_market_value(t2) == spec_token_market_value(t)
        + spec_market_value_of_amount(t, amount));
    lemma_total_market_value_update(tokens, i, t2);
}

/// LAW: confirming an unlock never increases the total valuation, so a
/// ledger within the collateral cap stays within it. The clamped decrement
/// only lowers the locked balance of one asset.
pub proof fn lemma_cap_preserved_by_unlock_confirm(
    tokens: Seq<NearFungibleToken>,
    i: int,
    balance: u128,
    cap: int,
)
    requires
        0 <= i < tokens.len(),
        balance <= tokens[i].locked_balance,
        spec_total_market_value(tokens) <= cap,
    ensures
        spec_total_market_value(tokens.update(i, spec_with_locked_balance(tokens[i], balance)))
            <= cap,
{
    let t: NearFungibleToken = tokens[i];
    let d: int = pow10(t.metadata.decimals as nat) as int;
    let t2: NearFungibleToken = spec_with_locked_balance(t, balance);
    lemma_pow10_positive(t.metadata.decimals as nat);
    lemma_div_is_ordered(balance as int, t.locked_balance as int, d);
    lemma_mul_inequality((balance as int) / d, (t.locked_balance as int) / d, t.price_in_usd as int);
    lemma_total_market_value_update(tokens, i, t2);
}

/// LAW: registering an asset, whose locked balance starts at zero, leaves
/// the total valuation unchanged, so a ledger within the collateral cap
/// stays within it.
pub proof fn lemma_cap_preserved_by_registration(
    tokens: Seq<NearFungibleToken>,
    t: NearFungibleToken,
    cap: int,
)
    requires
        t.locked_balance == 0,
        spec_total_market_value(tokens) <= cap,
    ensures
        spec_total_market_value(tokens.push(t)) <= cap,
{
    let d: int = pow10(t.metadata.decimals as nat) as int;
    lemma_pow10_positive(t.metadata.decimals as nat);
    lemma_basic_div(0, d);
    lemma_total_market_value_push(tokens, t);
}

/// Computes the USD valuation of `amount` units of `t`, or `None` when the
/// valuation exceeds `u128::MAX`.
pub fn checked_market_value_of_amount(t: &NearFungibleToken, amount: u128) -> (r: Option<u128>)
    ensures
        match r {
            Some(v) => v == spec_market_value_of_amount(*t, amount),
            None => spec_market_value_of_amount(*t, amount) > u128::MAX,
        },
{
    let ghost d: int = pow10(t.metadata.decimals as nat) as int;
    proof {
        lemma_pow10_positive(t.metadata.decimals as nat);
    }
    let q: u128 = match pow10_u128(t.metadata.decimals) {
        Some(divisor) => amount / divisor,
        None => {
            proof {
                lemma_basic_div(amount as int, d);
            }
            0
        },
    };
    q.checked_mul(t.price_in_usd)
}

} // verus!
