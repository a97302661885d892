//! Currency descriptors, fixed-point amounts, and the balance-satisfaction
//! rule.
//!
//! A due amount arrives in human units as a decimal (`units * 10^-scale`).
//! Every satisfaction comparison converts it into the minimal units of the
//! currency's registered decimal count and compares integers; nothing here
//! compares fractions or floats.

use vstd::prelude::*;
use vstd::arithmetic::power::{pow, lemma_pow_positive, lemma_pow_increases};
use vstd::arithmetic::mul::lemma_mul_inequality;

verus! {

/// Height of a chain block.
pub type BlockNumber = u64;

/// Absolute time in milliseconds, as the chain reports it.
pub type Timestamp = u64;

/// How a currency's balance is queried: the chain's native token, or a
/// specific fungible asset.
#[derive(Clone, Copy, PartialEq, Eq, Structural, Debug)]
pub enum TokenKind {
    Asset,
    Native,
}

/// How to query one currency: its name, the chain that carries it, the kind
/// of query, its decimal precision, and the endpoint serving the chain.
#[derive(Debug)]
pub struct CurrencyInfo {
    pub currency: String,
    pub chain_name: String,
    pub kind: TokenKind,
    pub decimals: u8,
    pub rpc_url: String,
    pub asset_id: Option<u32>,
}

impl CurrencyInfo {
    /// An asset-kind currency carries an asset id; a native one does not.
    pub open spec fn wf(&self) -> bool {
        self.kind is Asset <==> self.asset_id is Some
    }
}

/// One RPC endpoint known to a chain's tracker, for status reporting.
#[derive(Clone, Debug)]
pub struct RpcInfo {
    pub rpc_url: String,
    pub chain_name: String,
}

/// One invoice's inbound order data: the account to watch as a text address,
/// the currency to monitor, the due amount, and the absolute deadline.
#[derive(Debug)]
pub struct OrderInfo {
    pub payment_account: String,
    pub currency: CurrencyInfo,
    pub amount: Amount,
    pub death: Timestamp,
}

/// A due amount in human units: the decimal `units * 10^-scale`.
#[derive(Clone, Copy, PartialEq, Eq, Structural, Debug)]
pub struct Amount {
    pub units: u64,
    pub scale: u8,
}

/// A chain balance in the minimal units of its currency.
#[derive(Clone, Copy, PartialEq, Eq, Structural, Debug)]
pub struct Balance(pub u128);

/// Ten to the `e`th power.
pub open spec fn pow10(e: nat) -> int {
    pow(10, e)
}

/// Integer division of `x` by `d`, rounded toward positive infinity.
pub open spec fn div_round_up(x: int, d: int) -> int {
    x / d + if x % d == 0 {
        0int
    } else {
        1int
    }
}

/// The due amount in the minimal units of a currency with `decimals` decimal
/// places. A fractional remainder finer than the currency's precision rounds
/// up, so satisfaction is never reached below the true due amount.
pub open spec fn due_units(a: Amount, decimals: u8) -> int {
    if a.scale <= decimals {
        a.units * pow10((decimals - a.scale) as nat)
    } else {
        div_round_up(a.units as int, pow10((a.scale - decimals) as nat))
    }
}

/// The balance-satisfaction rule: an observed balance covers the due amount.
pub open spec fn satisfied_at(observed: int, a: Amount, decimals: u8) -> bool {
    observed >= due_units(a, decimals)
}

/// Law: satisfaction is monotone in the observed balance. Once a balance
/// satisfies a due amount, every balance at least as large satisfies it too,
/// for the same due amount and decimals.
pub proof fn lemma_satisfaction_monotone(b1: int, b2: int, a: Amount, decimals: u8)
    requires
        satisfied_at(b1, a, decimals),
        b1 <= b2,
    ensures
        satisfied_at(b2, a, decimals),
{
}

/// Ten to the `e`th power, or `None` when it exceeds `u128::MAX`.
pub fn checked_pow10(e: u8) -> (r: Option<u128>)
    ensures
        r matches Some(v) ==> v == pow10(e as nat),
        r is None ==> pow10(e as nat) > u128::MAX,
{
    let mut acc: u128 = 1;
    let mut i: u8 = 0;
    proof {
        vstd::arithmetic::power::lemma_pow0(10);
    }
    while i < e
        invariant
            i <= e,
            acc == pow10(i as nat),
        decreases e - i,
    {
        proof {
            reveal(pow);
            assert(pow(10, (i + 1) as nat) == 10 * pow(10, i as nat));
        }
        acc = match acc.checked_mul(10) {
            Some(v) => v,
            None => {
                proof {
                    lemma_pow_increases(10, (i + 1) as nat, e as nat);
                }
                return None;
            },
        };
        i += 1;
    }
    Some(acc)
}

/// The due amount in minimal units, or `None` when it exceeds `u128::MAX`
/// (no observable balance can satisfy it then).
pub fn due_in_minimal_units(a: &Amount, decimals: u8) -> (r: Option<u128>)
    ensures
        r matches Some(v) ==> v == due_units(*a, decimals),
        r is None ==> due_units(*a, decimals) > u128::MAX,
{
    if a.scale <= decimals {
        let e = decimals - a.scale;
        if a.units == 0 {
            return Some(0);
        }
        match checked_pow10(e) {
            Some(p) => (a.units as u128).checked_mul(p),
            None => {
                proof {
                    lemma_pow_positive(10, e as nat);
                    lemma_mul_inequality(1, a.units as int, pow10(e as nat));
                }
                None
            },
        }
    } else {
        let e = a.scale - decimals;
        proof {
            lemma_pow_positive(10, e as nat);
        }
        match checked_pow10(e) {
            Some(p) => {
                let q = a.units as u128 / p;
                let rem = a.units as u128 % p;
                if rem != 0 {
                    proof {
                        assert(q + 1 <= u128::MAX) by (nonlinear_arith)
                            requires
                                q == a.units as u128 / p,
                                a.units <= u64::MAX,
                                p >= 1,
                        ;
                    }
                    Some(q + 1)
                } else {
                    Some(q)
                }
            },
            None => {
                // The divisor exceeds every representable balance, so the
                // whole due amount rounds to one minimal unit (or zero).
                let ghost p = pow10(e as nat);
                if a.units == 0 {
                    proof {
                        vstd::arithmetic::div_mod::lemma_basic_div(0, p);
                        vstd::arithmetic::div_mod::lemma_small_mod(0, p as nat);
                    }
                    Some(0)
                } else {
                    proof {
                        vstd::arithmetic::div_mod::lemma_basic_div(a.units as int, p);
                        vstd::arithmetic::div_mod::lemma_small_mod(a.units as nat, p as nat);
                    }
                    Some(1)
                }
            },
        }
    }
}

/// Whether `observed` covers the due amount at the currency's precision.
pub fn balance_satisfies(observed: Balance, a: &Amount, decimals: u8) -> (r: bool)
    ensures
        r == satisfied_at(observed.0 as int, *a, decimals),
{
    match due_in_minimal_units(a, decimals) {
        Some(due) => observed.0 >= due,
        None => false,
    }
}

} // verus!
