//! What a submitted transaction declares about itself: its version, the
//! fee or the resource bounds it is willing to pay, its sender and nonce.

use vstd::prelude::*;
use crate::felt::{ContractAddress, Felt};
use crate::gas::{Fee, FeeType, GasAmount, GasPriceVector, GasVector, GasVectorComputationMode, Resource};

verus! {

/// The version of a transaction.
#[derive(Clone, Copy, Debug, PartialEq, Eq, Hash, Structural)]
pub enum TransactionVersion {
    Zero,
    One,
    Two,
    Three,
}

impl TransactionVersion {
    /// The version as a number.
    pub open spec fn spec_number(self) -> nat {
        match self {
            TransactionVersion::Zero => 0,
            TransactionVersion::One => 1,
            TransactionVersion::Two => 2,
            TransactionVersion::Three => 3,
        }
    }

    /// The version as a number.
    pub fn number(&self) -> (r: u8)
        ensures
            r == self.spec_number(),
    {
        match self {
            TransactionVersion::Zero => 0,
            TransactionVersion::One => 1,
            TransactionVersion::Two => 2,
            TransactionVersion::Three => 3,
        }
    }

    /// The currency transactions of this version pay in: the legacy
    /// versions pay in Eth, version three pays in Strk.
    pub open spec fn spec_fee_type(self) -> FeeType {
        if self == TransactionVersion::Three {
            FeeType::Strk
        } else {
            FeeType::Eth
        }
    }

    /// The currency transactions of this version pay in.
    pub fn fee_type(&self) -> (r: FeeType)
        ensures
            r == self.spec_fee_type(),
    {
        match self {
            TransactionVersion::Three => FeeType::Strk,
            _ => FeeType::Eth,
        }
    }
}

/// A ceiling on one gas axis: how much, and at what price at most.
#[derive(Clone, Copy, Debug, PartialEq, Eq, Hash, Structural)]
pub struct ResourceBounds {
    pub max_amount: GasAmount,
    pub max_price_per_unit: u128,
}

impl ResourceBounds {
    /// The most this bound can cost: amount times price.
    pub open spec fn spec_max_cost(self) -> nat {
        (self.max_amount as nat) * (self.max_price_per_unit as nat)
    }

    /// Whether the bound allows nothing.
    pub fn is_zero(&self) -> (r: bool)
        ensures
            r == (self.max_amount == 0 && self.max_price_per_unit == 0),
    {
        self.max_amount == 0 && self.max_price_per_unit == 0
    }

    /// The most this bound can cost, capped at the largest fee.
    pub fn max_cost_saturating(&self) -> (r: Fee)
        ensures
            r == saturate_fee(self.spec_max_cost()),
    {
        match (self.max_amount as u128).checked_mul(self.max_price_per_unit) {
            Some(x) => x,
            None => u128::MAX,
        }
    }
}

/// Ceilings on all three gas axes.
#[derive(Clone, Copy, Debug, PartialEq, Eq, Hash, Structural)]
pub struct AllResourceBounds {
    pub l1_gas: ResourceBounds,
    pub l2_gas: ResourceBounds,
    pub l1_data_gas: ResourceBounds,
}

impl AllResourceBounds {
    /// The ceiling on the given axis.
    pub open spec fn spec_get_bound(self, resource: Resource) -> ResourceBounds {
        match resource {
            Resource::L1Gas => self.l1_gas,
            Resource::L2Gas => self.l2_gas,
            Resource::L1DataGas => self.l1_data_gas,
        }
    }

    /// The ceiling on the given axis.
    pub fn get_bound(&self, resource: Resource) -> (r: ResourceBounds)
        ensures
            r == self.spec_get_bound(resource),
    {
        match resource {
            Resource::L1Gas => self.l1_gas,
            Resource::L2Gas => self.l2_gas,
            Resource::L1DataGas => self.l1_data_gas,
        }
    }
}

/// The resource bounds of a version-three transaction: on L1 gas alone, or
/// on all three axes.
#[derive(Clone, Copy, Debug, PartialEq, Eq, Hash, Structural)]
pub enum ValidResourceBounds {
    L1Gas(ResourceBounds),
    AllResources(AllResourceBounds),
}

/// `x` capped at the largest fee.
pub open spec fn saturate_fee(x: nat) -> Fee {
    if x <= u128::MAX {
        x as u128
    } else {
        u128::MAX
    }
}

impl ValidResourceBounds {
    /// The sum, over the bounded axes, of amount times price.
    pub open spec fn spec_max_possible_fee(self) -> nat {
        match self {
            ValidResourceBounds::L1Gas(l1) => l1.spec_max_cost(),
            ValidResourceBounds::AllResources(all) => all.l1_gas.spec_max_cost()
                + all.l2_gas.spec_max_cost() + all.l1_data_gas.spec_max_cost(),
        }
    }

    /// The most a transaction with these bounds can be charged, capped at
    /// the largest fee.
    pub fn max_possible_fee(&self) -> (r: Fee)
        ensures
            r == saturate_fee(self.spec_max_possible_fee()),
    {
        match self {
            ValidResourceBounds::L1Gas(l1) => l1.max_cost_saturating(),
            ValidResourceBounds::AllResources(all) => {
                proof {
                    assert(0 <= all.l1_gas.spec_max_cost());
                    assert(0 <= all.l2_gas.spec_max_cost());
                    assert(0 <= all.l1_data_gas.spec_max_cost());
                }
                let a = all.l1_gas.max_cost_saturating();
                let b = all.l2_gas.max_cost_saturating();
                let c = all.l1_data_gas.max_cost_saturating();
                a.saturating_add(b).saturating_add(c)
            },
        }
    }

    /// How the gas of a transaction with these bounds is laid out.
    pub open spec fn spec_get_gas_vector_computation_mode(self) -> GasVectorComputationMode {
        match self {
            ValidResourceBounds::L1Gas(_) => GasVectorComputationMode::NoL2Gas,
            ValidResourceBounds::AllResources(_) => GasVectorComputationMode::All,
        }
    }

    /// Bounds on L1 gas alone fold everything into L1 gas; bounds on all
    /// axes price each axis on its own.
    pub fn get_gas_vector_computation_mode(&self) -> (r: GasVectorComputationMode)
        ensures
            r == self.spec_get_gas_vector_computation_mode(),
    {
        match self {
            ValidResourceBounds::L1Gas(_) => GasVectorComputationMode::NoL2Gas,
            ValidResourceBounds::AllResources(_) => GasVectorComputationMode::All,
        }
    }

    /// Whether some bounded axis allows a non-zero amount.
    pub open spec fn spec_any_amount(self) -> bool {
        match self {
            ValidResourceBounds::L1Gas(l1) => l1.max_amount > 0,
            ValidResourceBounds::AllResources(all) => all.l1_gas.max_amount > 0
                || all.l2_gas.max_amount > 0 || all.l1_data_gas.max_amount > 0,
        }
    }

    /// The ceiling on L1 gas.
    pub fn get_l1_bounds(&self) -> (r: ResourceBounds)
        ensures
            r == match *self {
                ValidResourceBounds::L1Gas(l1) => l1,
                ValidResourceBounds::AllResources(all) => all.l1_gas,
            },
    {
        match self {
            ValidResourceBounds::L1Gas(l1) => *l1,
            ValidResourceBounds::AllResources(all) => all.l1_gas,
        }
    }

    /// The ceiling on L2 gas; bounds on L1 gas alone allow none.
    pub fn get_l2_bounds(&self) -> (r: ResourceBounds)
        ensures
            r == match *self {
                ValidResourceBounds::L1Gas(_) => (ResourceBounds {
                    max_amount: 0,
                    max_price_per_unit: 0,
                }),
                ValidResourceBounds::AllResources(all) => all.l2_gas,
            },
    {
        match self {
            ValidResourceBounds::L1Gas(_) => ResourceBounds {
                max_amount: 0,
                max_price_per_unit: 0,
            },
            ValidResourceBounds::AllResources(all) => all.l2_gas,
        }
    }

    /// Bounds on all axes that allow exactly the given amounts at the given
    /// prices.
    pub fn all_bounds_from_vectors(gas: &GasVector, prices: &GasPriceVector) -> (r:
        ValidResourceBounds)
        ensures
            r == ValidResourceBounds::AllResources(
                AllResourceBounds {
                    l1_gas: ResourceBounds {
                        max_amount: gas.l1_gas,
                        max_price_per_unit: prices.l1_gas_price.get(),
                    },
                    l2_gas: ResourceBounds {
                        max_amount: gas.l2_gas,
                        max_price_per_unit: prices.l2_gas_price.get(),
                    },
                    l1_data_gas: ResourceBounds {
                        max_amount: gas.l1_data_gas,
                        max_price_per_unit: prices.l1_data_gas_price.get(),
                    },
                },
            ),
    {
        ValidResourceBounds::AllResources(
            AllResourceBounds {
                l1_gas: ResourceBounds {
                    max_amount: gas.l1_gas,
                    max_price_per_unit: prices.l1_gas_price.get(),
                },
                l2_gas: ResourceBounds {
                    max_amount: gas.l2_gas,
                    max_price_per_unit: prices.l2_gas_price.get(),
                },
                l1_data_gas: ResourceBounds {
                    max_amount: gas.l1_data_gas,
                    max_price_per_unit: prices.l1_data_gas_price.get(),
                },
            },
        )
    }
}

/// What every account transaction declares, whatever its version.
#[derive(Clone, Copy, Debug, PartialEq, Eq, Hash, Structural)]
pub struct CommonAccountFields {
    pub transaction_hash: Felt,
    pub version: TransactionVersion,
    pub nonce: Felt,
    pub sender_address: ContractAddress,
    pub only_query: bool,
}

/// A version-three transaction: it declares resource bounds.
#[derive(Clone, Copy, Debug, PartialEq, Eq, Hash, Structural)]
pub struct CurrentTransactionInfo {
    pub common_fields: CommonAccountFields,
    pub resource_bounds: ValidResourceBounds,
}

/// A legacy transaction: it declares one maximal fee.
#[derive(Clone, Copy, Debug, PartialEq, Eq, Hash, Structural)]
pub struct DeprecatedTransactionInfo {
    pub common_fields: CommonAccountFields,
    pub max_fee: Fee,
}

/// The resolved view of a submitted transaction.
#[derive(Clone, Copy, Debug, PartialEq, Eq, Hash, Structural)]
pub enum TransactionInfo {
    Current(CurrentTransactionInfo),
    Deprecated(DeprecatedTransactionInfo),
}

impl TransactionInfo {
    /// The fields shared by all versions.
    pub open spec fn spec_common_fields(self) -> CommonAccountFields {
        match self {
            TransactionInfo::Current(info) => info.common_fields,
            TransactionInfo::Deprecated(info) => info.common_fields,
        }
    }

    /// The fields shared by all versions.
    pub fn common_fields(&self) -> (r: CommonAccountFields)
        ensures
            r == self.spec_common_fields(),
    {
        match self {
            TransactionInfo::Current(info) => info.common_fields,
            TransactionInfo::Deprecated(info) => info.common_fields,
        }
    }

    /// The sender of the transaction.
    pub fn sender_address(&self) -> (r: ContractAddress)
        ensures
            r == self.spec_common_fields().sender_address,
    {
        self.common_fields().sender_address
    }

    /// The nonce the transaction was signed with.
    pub fn nonce(&self) -> (r: Felt)
        ensures
            r == self.spec_common_fields().nonce,
    {
        self.common_fields().nonce
    }

    /// The declared version.
    pub fn version(&self) -> (r: TransactionVersion)
        ensures
            r == self.spec_common_fields().version,
    {
        self.common_fields().version
    }

    /// The currency the transaction pays in.
    pub open spec fn spec_fee_type(self) -> FeeType {
        match self {
            TransactionInfo::Current(_) => FeeType::Strk,
            TransactionInfo::Deprecated(_) => FeeType::Eth,
        }
    }

    /// Transactions with resource bounds pay in Strk, legacy ones in Eth.
    pub fn fee_type(&self) -> (r: FeeType)
        ensures
            r == self.spec_fee_type(),
    {
        match self {
            TransactionInfo::Current(_) => FeeType::Strk,
            TransactionInfo::Deprecated(_) => FeeType::Eth,
        }
    }

    /// Fee enforcement is on exactly when the transaction allows itself a
    /// non-zero amount on some axis, or a non-zero maximal fee.
    pub open spec fn spec_enforce_fee(self) -> bool {
        match self {
            TransactionInfo::Current(info) => info.resource_bounds.spec_any_amount(),
            TransactionInfo::Deprecated(info) => info.max_fee > 0,
        }
    }

    /// Whether the fee is enforced for this transaction.
    pub fn enforce_fee(&self) -> (r: bool)
        ensures
            r == self.spec_enforce_fee(),
    {
        match self {
            TransactionInfo::Current(info) => match info.resource_bounds {
                ValidResourceBounds::L1Gas(l1) => l1.max_amount > 0,
                ValidResourceBounds::AllResources(all) => all.l1_gas.max_amount > 0
                    || all.l2_gas.max_amount > 0 || all.l1_data_gas.max_amount > 0,
            },
            TransactionInfo::Deprecated(info) => info.max_fee > 0,
        }
    }

    /// The most the transaction can be charged.
    pub open spec fn spec_max_fee(self) -> Fee {
        match self {
            TransactionInfo::Current(info) => saturate_fee(
                info.resource_bounds.spec_max_possible_fee(),
            ),
            TransactionInfo::Deprecated(info) => info.max_fee,
        }
    }

    /// The most the transaction can be charged: its maximal fee, or what its
    /// resource bounds add up to.
    pub fn max_fee(&self) -> (r: Fee)
        ensures
            r == self.spec_max_fee(),
    {
        match self {
            TransactionInfo::Current(info) => info.resource_bounds.max_possible_fee(),
            TransactionInfo::Deprecated(info) => info.max_fee,
        }
    }

    /// How the gas vector of this transaction is laid out.
    pub open spec fn spec_gas_mode(self) -> GasVectorComputationMode {
        match self {
            TransactionInfo::Current(info) =>
                info.resource_bounds.spec_get_gas_vector_computation_mode(),
            TransactionInfo::Deprecated(_) => GasVectorComputationMode::NoL2Gas,
        }
    }

    /// Legacy transactions and transactions bounded on L1 gas alone fold
    /// execution into L1 gas.
    pub fn gas_mode(&self) -> (r: GasVectorComputationMode)
        ensures
            r == self.spec_gas_mode(),
    {
        match self {
            TransactionInfo::Current(info) => info.resource_bounds.get_gas_vector_computation_mode(),
            TransactionInfo::Deprecated(_) => GasVectorComputationMode::NoL2Gas,
        }
    }
}

/// With every amount zero the fee is not enforced.
pub proof fn lemma_zero_amounts_disable_enforcement(info: CurrentTransactionInfo)
    requires
        match info.resource_bounds {
            ValidResourceBounds::L1Gas(l1) => l1.max_amount == 0,
            ValidResourceBounds::AllResources(all) => all.l1_gas.max_amount == 0
                && all.l2_gas.max_amount == 0 && all.l1_data_gas.max_amount == 0,
        },
    ensures
        !TransactionInfo::Current(info).spec_enforce_fee(),
{
}

/// One non-zero amount is enough to enforce the fee.
pub proof fn lemma_nonzero_amount_enables_enforcement(
    info: CurrentTransactionInfo,
    resource: Resource,
)
    requires
        match info.resource_bounds {
            ValidResourceBounds::L1Gas(l1) => resource == Resource::L1Gas && l1.max_amount > 0,
            ValidResourceBounds::AllResources(all) => all.spec_get_bound(resource).max_amount > 0,
        },
    ensures
        TransactionInfo::Current(info).spec_enforce_fee(),
{
}

} // verus!
