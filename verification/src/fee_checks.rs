//! Holding what a transaction consumed against what it declared it would
//! pay for.

use vstd::prelude::*;
use vstd::string::*;
use crate::context::TransactionContext;
use crate::fields::{TransactionInfo, ValidResourceBounds};
use crate::gas::{Fee, GasAmount, GasVector, Resource};
use crate::text::{decimal, u128_to_decimal, u64_to_decimal};

verus! {

/// The name of a gas axis as it stands in messages.
pub open spec fn spec_resource_name(resource: Resource) -> Seq<char> {
    match resource {
        Resource::L1Gas => "L1Gas"@,
        Resource::L2Gas => "L2Gas"@,
        Resource::L1DataGas => "L1DataGas"@,
    }
}

/// The name of a gas axis as it stands in messages.
pub fn resource_name(resource: Resource) -> (r: &'static str)
    ensures
        r@ == spec_resource_name(resource),
{
    match resource {
        Resource::L1Gas => "L1Gas",
        Resource::L2Gas => "L2Gas",
        Resource::L1DataGas => "L1DataGas",
    }
}

/// What a transaction consumed beyond what it can pay for.
#[derive(Clone, Copy, Debug, PartialEq, Eq, Structural)]
pub enum FeeCheckError {
    /// More gas was used on an axis than the bound on that axis allows.
    MaxGasAmountExceeded { resource: Resource, max_amount: GasAmount, actual_amount: GasAmount },
    /// The fee is above the declared maximal fee.
    MaxFeeExceeded { max_fee: Fee, actual_fee: Fee },
    /// The sender's balance does not cover the fee.
    InsufficientFeeTokenBalance { fee: Fee, balance_low: u128, balance_high: u128 },
}

impl FeeCheckError {
    /// The message of the failure. It names the axis that was overdrawn.
    pub open spec fn spec_message(self) -> Seq<char> {
        match self {
            FeeCheckError::MaxGasAmountExceeded { resource, max_amount, actual_amount } =>
                "Insufficient max "@ + spec_resource_name(resource) + ": max amount: "@ + decimal(
                    max_amount as nat,
                ) + ", actual used: "@ + decimal(actual_amount as nat) + "."@,
            FeeCheckError::MaxFeeExceeded { max_fee, actual_fee } => "Insufficient max fee: max fee: "@
                + decimal(max_fee as nat) + ", actual fee: "@ + decimal(actual_fee as nat) + "."@,
            FeeCheckError::InsufficientFeeTokenBalance { fee, balance_low, balance_high } =>
                "Insufficient fee token balance. Fee: "@ + decimal(fee as nat)
                    + ", balance: low/high "@ + decimal(balance_low as nat) + "/"@ + decimal(
                    balance_high as nat,
                ) + "."@,
        }
    }

    /// The message of the failure.
    pub fn message(&self) -> (r: String)
        ensures
            r@ == self.spec_message(),
    {
        match self {
            FeeCheckError::MaxGasAmountExceeded { resource, max_amount, actual_amount } => {
                let mut s = String::from_str("Insufficient max ");
                s.append(resource_name(*resource));
                s.append(": max amount: ");
                s.append(u64_to_decimal(*max_amount).as_str());
                s.append(", actual used: ");
                s.append(u64_to_decimal(*actual_amount).as_str());
                s.append(".");
                s
            },
            FeeCheckError::MaxFeeExceeded { max_fee, actual_fee } => {
                let mut s = String::from_str("Insufficient max fee: max fee: ");
                s.append(u128_to_decimal(*max_fee).as_str());
                s.append(", actual fee: ");
                s.append(u128_to_decimal(*actual_fee).as_str());
                s.append(".");
                s
            },
            FeeCheckError::InsufficientFeeTokenBalance { fee, balance_low, balance_high } => {
                let mut s = String::from_str("Insufficient fee token balance. Fee: ");
                s.append(u128_to_decimal(*fee).as_str());
                s.append(", balance: low/high ");
                s.append(u128_to_decimal(*balance_low).as_str());
                s.append("/");
                s.append(u128_to_decimal(*balance_high).as_str());
                s.append(".");
                s
            },
        }
    }
}

/// The fee is above what the transaction allows.
#[derive(Clone, Copy, Debug, PartialEq, Eq, Structural)]
pub enum FeeBoundsError {
    /// A legacy transaction was charged more than its maximal fee.
    MaxFeeExceeded { actual_fee: Fee, max_fee: Fee },
    /// A transaction with resource bounds was charged more than its bounds
    /// add up to.
    MaxPossibleFeeExceeded { actual_fee: Fee, max_possible_fee: Fee },
}

impl FeeBoundsError {
    /// The message of the failure.
    pub open spec fn spec_message(self) -> Seq<char> {
        match self {
            FeeBoundsError::MaxFeeExceeded { actual_fee, max_fee } => "Actual fee "@ + decimal(
                actual_fee as nat,
            ) + " exceeded bounds; max fee is "@ + decimal(max_fee as nat) + "."@,
            FeeBoundsError::MaxPossibleFeeExceeded { actual_fee, max_possible_fee } => "Actual fee "@
                + decimal(actual_fee as nat) + " exceeded bounds; max possible fee is "@ + decimal(
                max_possible_fee as nat,
            ) + "."@,
        }
    }

    /// The message of the failure.
    pub fn message(&self) -> (r: String)
        ensures
            r@ == self.spec_message(),
    {
        match self {
            FeeBoundsError::MaxFeeExceeded { actual_fee, max_fee } => {
                let mut s = String::from_str("Actual fee ");
                s.append(u128_to_decimal(*actual_fee).as_str());
                s.append(" exceeded bounds; max fee is ");
                s.append(u128_to_decimal(*max_fee).as_str());
                s.append(".");
                s
            },
            FeeBoundsError::MaxPossibleFeeExceeded { actual_fee, max_possible_fee } => {
                let mut s = String::from_str("Actual fee ");
                s.append(u128_to_decimal(*actual_fee).as_str());
                s.append(" exceeded bounds; max possible fee is ");
                s.append(u128_to_decimal(*max_possible_fee).as_str());
                s.append(".");
                s
            },
        }
    }
}

/// The check that a fee stays within what the transaction allows.
pub open spec fn spec_check_actual_fee_in_bounds(tx_info: TransactionInfo, actual_fee: Fee) -> Result<
    (),
    FeeBoundsError,
> {
    match tx_info {
        TransactionInfo::Current(info) => {
            let max_possible_fee = tx_info.spec_max_fee();
            if actual_fee > max_possible_fee {
                Err(FeeBoundsError::MaxPossibleFeeExceeded { actual_fee, max_possible_fee })
            } else {
                Ok(())
            }
        },
        TransactionInfo::Deprecated(info) => {
            if actual_fee > info.max_fee {
                Err(FeeBoundsError::MaxFeeExceeded { actual_fee, max_fee: info.max_fee })
            } else {
                Ok(())
            }
        },
    }
}

/// Checks whether the fee stays within the transaction's maximal fee, or
/// within what its resource bounds add up to; where it does not, the
/// result says by how much.
pub fn check_actual_fee_in_bounds(tx_context: &TransactionContext, actual_fee: Fee) -> (r: Result<
    (),
    FeeBoundsError,
>)
    ensures
        r == spec_check_actual_fee_in_bounds(tx_context.tx_info, actual_fee),
{
    match tx_context.tx_info {
        TransactionInfo::Current(info) => {
            let max_possible_fee = info.resource_bounds.max_possible_fee();
            if actual_fee > max_possible_fee {
                Err(FeeBoundsError::MaxPossibleFeeExceeded { actual_fee, max_possible_fee })
            } else {
                Ok(())
            }
        },
        TransactionInfo::Deprecated(info) => {
            if actual_fee > info.max_fee {
                Err(FeeBoundsError::MaxFeeExceeded { actual_fee, max_fee: info.max_fee })
            } else {
                Ok(())
            }
        },
    }
}

/// Goes on only with a fee within what the transaction allows: the
/// caller shows that the fee is within the bounds. A caller that cannot
/// show it asks `check_actual_fee_in_bounds` first.
pub fn assert_actual_fee_in_bounds(tx_context: &TransactionContext, actual_fee: Fee)
    requires
        spec_check_actual_fee_in_bounds(tx_context.tx_info, actual_fee) is Ok,
{
    let checked = check_actual_fee_in_bounds(tx_context, actual_fee);
    assert(checked is Ok);
}

/// Whether the L1 gas of a vector with its L1 data gas folded in can be
/// worked out and fits an amount.
pub open spec fn spec_discounted_l1_gas_fits(gas: GasVector, tx_context: TransactionContext) -> bool {
    let prices = tx_context.spec_gas_prices();
    &&& (gas.l1_data_gas as nat) * (prices.l1_data_gas_price.get() as nat) <= u128::MAX
    &&& gas.spec_discounted_l1_gas(prices) <= u64::MAX
}

/// The L1 gas of a vector with its L1 data gas folded in, capped at the
/// largest amount.
pub open spec fn spec_discounted_l1_gas_saturating(gas: GasVector, tx_context: TransactionContext) -> GasAmount {
    if spec_discounted_l1_gas_fits(gas, tx_context) {
        gas.spec_discounted_l1_gas(tx_context.spec_gas_prices()) as u64
    } else {
        u64::MAX
    }
}

/// The check of what was consumed against what was declared. With bounds
/// on all axes each axis is held against its bound, L1 gas first, then L2
/// gas, then L1 data gas. With a bound on L1 gas alone the L1 gas with the
/// L1 data gas folded in is held against it, and an amount that does not
/// fit is beyond every bound. A legacy transaction's fee is held against
/// its maximal fee.
pub open spec fn spec_check_actual_cost_within_bounds(
    tx_context: TransactionContext,
    gas: GasVector,
    fee: Fee,
) -> Result<(), FeeCheckError> {
    match tx_context.tx_info {
        TransactionInfo::Current(info) => match info.resource_bounds {
            ValidResourceBounds::AllResources(all) => {
                if gas.l1_gas > all.l1_gas.max_amount {
                    Err(
                        FeeCheckError::MaxGasAmountExceeded {
                            resource: Resource::L1Gas,
                            max_amount: all.l1_gas.max_amount,
                            actual_amount: gas.l1_gas,
                        },
                    )
                } else if gas.l2_gas > all.l2_gas.max_amount {
                    Err(
                        FeeCheckError::MaxGasAmountExceeded {
                            resource: Resource::L2Gas,
                            max_amount: all.l2_gas.max_amount,
                            actual_amount: gas.l2_gas,
                        },
                    )
                } else if gas.l1_data_gas > all.l1_data_gas.max_amount {
                    Err(
                        FeeCheckError::MaxGasAmountExceeded {
                            resource: Resource::L1DataGas,
                            max_amount: all.l1_data_gas.max_amount,
                            actual_amount: gas.l1_data_gas,
                        },
                    )
                } else {
                    Ok(())
                }
            },
            ValidResourceBounds::L1Gas(l1) => {
                let actual = spec_discounted_l1_gas_saturating(gas, tx_context);
                if !spec_discounted_l1_gas_fits(gas, tx_context) || actual > l1.max_amount {
                    Err(
                        FeeCheckError::MaxGasAmountExceeded {
                            resource: Resource::L1Gas,
                            max_amount: l1.max_amount,
                            actual_amount: actual,
                        },
                    )
                } else {
                    Ok(())
                }
            },
        },
        TransactionInfo::Deprecated(info) => {
            if fee > info.max_fee {
                Err(FeeCheckError::MaxFeeExceeded { max_fee: info.max_fee, actual_fee: fee })
            } else {
                Ok(())
            }
        },
    }
}

/// Holds what was consumed against what was declared; the failure names
/// the axis that was overdrawn.
pub fn check_actual_cost_within_bounds(tx_context: &TransactionContext, gas: &GasVector, fee: Fee) -> (r:
    Result<(), FeeCheckError>)
    ensures
        r == spec_check_actual_cost_within_bounds(*tx_context, *gas, fee),
{
    match tx_context.tx_info {
        TransactionInfo::Current(info) => match info.resource_bounds {
            ValidResourceBounds::AllResources(all) => {
                if gas.l1_gas > all.l1_gas.max_amount {
                    Err(
                        FeeCheckError::MaxGasAmountExceeded {
                            resource: Resource::L1Gas,
                            max_amount: all.l1_gas.max_amount,
                            actual_amount: gas.l1_gas,
                        },
                    )
                } else if gas.l2_gas > all.l2_gas.max_amount {
                    Err(
                        FeeCheckError::MaxGasAmountExceeded {
                            resource: Resource::L2Gas,
                            max_amount: all.l2_gas.max_amount,
                            actual_amount: gas.l2_gas,
                        },
                    )
                } else if gas.l1_data_gas > all.l1_data_gas.max_amount {
                    Err(
                        FeeCheckError::MaxGasAmountExceeded {
                            resource: Resource::L1DataGas,
                            max_amount: all.l1_data_gas.max_amount,
                            actual_amount: gas.l1_data_gas,
                        },
                    )
                } else {
                    Ok(())
                }
            },
            ValidResourceBounds::L1Gas(l1) => {
                let prices = tx_context.get_gas_prices();
                let discounted = gas.to_discounted_l1_gas(&prices);
                let actual = match discounted {
                    Some(x) => x,
                    None => u64::MAX,
                };
                if discounted.is_none() || actual > l1.max_amount {
                    Err(
                        FeeCheckError::MaxGasAmountExceeded {
                            resource: Resource::L1Gas,
                            max_amount: l1.max_amount,
                            actual_amount: actual,
                        },
                    )
                } else {
                    Ok(())
                }
            },
        },
        TransactionInfo::Deprecated(info) => {
            if fee > info.max_fee {
                Err(FeeCheckError::MaxFeeExceeded { max_fee: info.max_fee, actual_fee: fee })
            } else {
                Ok(())
            }
        },
    }
}

} // verus!
