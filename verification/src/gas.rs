//! Gas amounts, gas prices and the fee they add up to.

use vstd::prelude::*;

verus! {

/// An amount of the fee token.
pub type Fee = u128;

/// An amount of gas on one axis.
pub type GasAmount = u64;

/// The currency a transaction pays its fee in.
#[derive(Clone, Copy, Debug, PartialEq, Eq, Hash, Structural)]
pub enum FeeType {
    Strk,
    Eth,
}

/// One of the three independently priced gas axes.
#[derive(Clone, Copy, Debug, PartialEq, Eq, Hash, Structural)]
pub enum Resource {
    L1Gas,
    L2Gas,
    L1DataGas,
}

/// How consumed resources are laid out on the gas axes.
#[derive(Clone, Copy, Debug, PartialEq, Eq, Hash, Structural)]
pub enum GasVectorComputationMode {
    /// All three axes are priced on their own.
    All,
    /// Execution cost is folded into L1 gas; L2 gas stays zero.
    NoL2Gas,
}

/// Quotient of `a` by `b`, rounded up.
pub open spec fn ceil_div(a: nat, b: nat) -> nat
    recommends
        b > 0,
{
    if a % b == 0 {
        a / b
    } else {
        a / b + 1
    }
}

/// A price per unit of gas that is never zero.
#[derive(Clone, Copy, Debug)]
pub struct NonzeroGasPrice {
    value: u128,
}

impl NonzeroGasPrice {
    #[verifier::type_invariant]
    spec fn positive(self) -> bool {
        self.value > 0
    }

    /// The price as a number.
    pub closed spec fn spec_get(&self) -> u128 {
        self.value
    }

    /// A price, unless `value` is zero.
    pub fn new(value: u128) -> (r: Option<NonzeroGasPrice>)
        ensures
            r is Some <==> value > 0,
            r matches Some(p) ==> p.spec_get() == value,
    {
        if value > 0 {
            Some(NonzeroGasPrice { value })
        } else {
            None
        }
    }

    /// The price as a number; it is positive.
    #[verifier::when_used_as_spec(spec_get)]
    pub fn get(&self) -> (r: u128)
        ensures
            r == self.spec_get(),
            r > 0,
    {
        proof {
            use_type_invariant(self);
        }
        self.value
    }
}

/// The prices of the three gas axes in one currency.
#[derive(Clone, Copy, Debug)]
pub struct GasPriceVector {
    pub l1_gas_price: NonzeroGasPrice,
    pub l1_data_gas_price: NonzeroGasPrice,
    pub l2_gas_price: NonzeroGasPrice,
}

impl GasPriceVector {
    /// Every price of a vector inside running code is positive; of a vector
    /// that only ghost code speaks of, this has to be assumed.
    pub open spec fn valid(self) -> bool {
        &&& self.l1_gas_price.get() > 0
        &&& self.l1_data_gas_price.get() > 0
        &&& self.l2_gas_price.get() > 0
    }

    /// The price of the given axis.
    pub open spec fn spec_price_of(self, resource: Resource) -> u128 {
        match resource {
            Resource::L1Gas => self.l1_gas_price.get(),
            Resource::L2Gas => self.l2_gas_price.get(),
            Resource::L1DataGas => self.l1_data_gas_price.get(),
        }
    }

    /// The price of the given axis.
    pub fn price_of(&self, resource: Resource) -> (r: u128)
        ensures
            r == self.spec_price_of(resource),
            r > 0,
    {
        match resource {
            Resource::L1Gas => self.l1_gas_price.get(),
            Resource::L2Gas => self.l2_gas_price.get(),
            Resource::L1DataGas => self.l1_data_gas_price.get(),
        }
    }
}

/// The block's gas prices in both currencies.
#[derive(Clone, Copy, Debug)]
pub struct GasPrices {
    pub eth: GasPriceVector,
    pub strk: GasPriceVector,
}

impl GasPrices {
    /// The price vector of the given currency.
    pub open spec fn spec_by_fee_type(self, fee_type: FeeType) -> GasPriceVector {
        match fee_type {
            FeeType::Strk => self.strk,
            FeeType::Eth => self.eth,
        }
    }

    /// The price vector of the given currency.
    pub fn get_gas_prices_by_fee_type(&self, fee_type: FeeType) -> (r: GasPriceVector)
        ensures
            r == self.spec_by_fee_type(fee_type),
            r.valid(),
    {
        let r = match fee_type {
            FeeType::Strk => self.strk,
            FeeType::Eth => self.eth,
        };
        let _ = r.l1_gas_price.get();
        let _ = r.l1_data_gas_price.get();
        let _ = r.l2_gas_price.get();
        r
    }

    /// The L1 gas price in the given currency.
    pub fn get_l1_gas_price_by_fee_type(&self, fee_type: FeeType) -> (r: u128)
        ensures
            r == self.spec_by_fee_type(fee_type).l1_gas_price.get(),
            r > 0,
    {
        self.get_gas_prices_by_fee_type(fee_type).l1_gas_price.get()
    }

    /// The L1 data gas price in the given currency.
    pub fn get_l1_data_gas_price_by_fee_type(&self, fee_type: FeeType) -> (r: u128)
        ensures
            r == self.spec_by_fee_type(fee_type).l1_data_gas_price.get(),
            r > 0,
    {
        self.get_gas_prices_by_fee_type(fee_type).l1_data_gas_price.get()
    }

    /// The L2 gas price in the given currency.
    pub fn get_l2_gas_price_by_fee_type(&self, fee_type: FeeType) -> (r: u128)
        ensures
            r == self.spec_by_fee_type(fee_type).l2_gas_price.get(),
            r > 0,
    {
        self.get_gas_prices_by_fee_type(fee_type).l2_gas_price.get()
    }
}

/// Gas consumed, or allowed, on each of the three axes.
#[derive(Clone, Copy, Debug, PartialEq, Eq, Hash, Structural)]
pub struct GasVector {
    pub l1_gas: GasAmount,
    pub l1_data_gas: GasAmount,
    pub l2_gas: GasAmount,
}

impl GasVector {
    /// No gas on any axis.
    pub open spec fn spec_zero() -> GasVector {
        GasVector { l1_gas: 0, l1_data_gas: 0, l2_gas: 0 }
    }

    /// No gas on any axis.
    pub fn zero() -> (r: GasVector)
        ensures
            r == GasVector::spec_zero(),
    {
        GasVector { l1_gas: 0, l1_data_gas: 0, l2_gas: 0 }
    }

    /// `l1_gas` on the L1 axis and nothing else.
    pub fn from_l1_gas(l1_gas: GasAmount) -> (r: GasVector)
        ensures
            r == (GasVector { l1_gas, l1_data_gas: 0, l2_gas: 0 }),
    {
        GasVector { l1_gas, l1_data_gas: 0, l2_gas: 0 }
    }

    /// `l1_data_gas` on the L1 data axis and nothing else.
    pub fn from_l1_data_gas(l1_data_gas: GasAmount) -> (r: GasVector)
        ensures
            r == (GasVector { l1_gas: 0, l1_data_gas, l2_gas: 0 }),
    {
        GasVector { l1_gas: 0, l1_data_gas, l2_gas: 0 }
    }

    /// `l2_gas` on the L2 axis and nothing else.
    pub fn from_l2_gas(l2_gas: GasAmount) -> (r: GasVector)
        ensures
            r == (GasVector { l1_gas: 0, l1_data_gas: 0, l2_gas }),
    {
        GasVector { l1_gas: 0, l1_data_gas: 0, l2_gas }
    }

    /// The amount on the given axis.
    pub open spec fn spec_amount_of(self, resource: Resource) -> GasAmount {
        match resource {
            Resource::L1Gas => self.l1_gas,
            Resource::L2Gas => self.l2_gas,
            Resource::L1DataGas => self.l1_data_gas,
        }
    }

    /// The amount on the given axis.
    pub fn amount_of(&self, resource: Resource) -> (r: GasAmount)
        ensures
            r == self.spec_amount_of(resource),
    {
        match resource {
            Resource::L1Gas => self.l1_gas,
            Resource::L2Gas => self.l2_gas,
            Resource::L1DataGas => self.l1_data_gas,
        }
    }

    /// Whether the axis-wise sum of the two vectors fits.
    pub open spec fn spec_add_fits(self, rhs: GasVector) -> bool {
        &&& self.l1_gas + rhs.l1_gas <= u64::MAX
        &&& self.l1_data_gas + rhs.l1_data_gas <= u64::MAX
        &&& self.l2_gas + rhs.l2_gas <= u64::MAX
    }

    /// The axis-wise sum of the two vectors.
    pub open spec fn spec_add(self, rhs: GasVector) -> GasVector {
        GasVector {
            l1_gas: (self.l1_gas + rhs.l1_gas) as u64,
            l1_data_gas: (self.l1_data_gas + rhs.l1_data_gas) as u64,
            l2_gas: (self.l2_gas + rhs.l2_gas) as u64,
        }
    }

    /// The axis-wise sum, or `None` when one axis overflows.
    pub fn checked_add(&self, rhs: &GasVector) -> (r: Option<GasVector>)
        ensures
            r is Some <==> self.spec_add_fits(*rhs),
            r matches Some(sum) ==> sum == self.spec_add(*rhs),
    {
        let l1_gas = match self.l1_gas.checked_add(rhs.l1_gas) {
            Some(x) => x,
            None => { return None; },
        };
        let l1_data_gas = match self.l1_data_gas.checked_add(rhs.l1_data_gas) {
            Some(x) => x,
            None => { return None; },
        };
        let l2_gas = match self.l2_gas.checked_add(rhs.l2_gas) {
            Some(x) => x,
            None => { return None; },
        };
        Some(GasVector { l1_gas, l1_data_gas, l2_gas })
    }

    /// The fee of this much gas at the given prices: each amount times the
    /// price of its axis, summed.
    pub open spec fn spec_cost(self, prices: GasPriceVector) -> nat {
        (self.l1_gas as nat) * (prices.l1_gas_price.get() as nat) + (self.l1_data_gas as nat) * (
        prices.l1_data_gas_price.get() as nat) + (self.l2_gas as nat) * (
        prices.l2_gas_price.get() as nat)
    }

    /// The fee of this much gas at the given prices, or `None` when it does
    /// not fit in a fee.
    pub fn cost(&self, prices: &GasPriceVector) -> (r: Option<Fee>)
        ensures
            r is Some <==> self.spec_cost(*prices) <= u128::MAX,
            r matches Some(fee) ==> fee == self.spec_cost(*prices),
    {
        let l1_price: u128 = prices.l1_gas_price.get();
        let data_price: u128 = prices.l1_data_gas_price.get();
        let l2_price: u128 = prices.l2_gas_price.get();
        proof {
            assert(0 <= (self.l1_gas as nat) * (l1_price as nat)) by (nonlinear_arith);
            assert(0 <= (self.l1_data_gas as nat) * (data_price as nat)) by (nonlinear_arith);
            assert(0 <= (self.l2_gas as nat) * (l2_price as nat)) by (nonlinear_arith);
        }
        let a = match (self.l1_gas as u128).checked_mul(l1_price) {
            Some(x) => x,
            None => { return None; },
        };
        let b = match (self.l1_data_gas as u128).checked_mul(data_price) {
            Some(x) => x,
            None => { return None; },
        };
        let c = match (self.l2_gas as u128).checked_mul(l2_price) {
            Some(x) => x,
            None => { return None; },
        };
        let ab = match a.checked_add(b) {
            Some(x) => x,
            None => { return None; },
        };
        ab.checked_add(c)
    }

    /// The L1 data gas of this vector, paid for in L1 gas at the going
    /// prices and rounded up, on top of its L1 gas.
    pub open spec fn spec_discounted_l1_gas(self, prices: GasPriceVector) -> nat {
        self.l1_gas as nat + ceil_div(
            (self.l1_data_gas as nat) * (prices.l1_data_gas_price.get() as nat),
            prices.l1_gas_price.get() as nat,
        )
    }

    /// Folds the L1 data gas into L1 gas; `None` when a step of the
    /// computation overflows its type.
    pub fn to_discounted_l1_gas(&self, prices: &GasPriceVector) -> (r: Option<GasAmount>)
        ensures
            r is Some <==> (self.l1_data_gas as nat) * (prices.l1_data_gas_price.get() as nat)
                <= u128::MAX && self.spec_discounted_l1_gas(*prices) <= u64::MAX,
            r matches Some(gas) ==> gas == self.spec_discounted_l1_gas(*prices),
    {
        let l1_price: u128 = prices.l1_gas_price.get();
        let data_price: u128 = prices.l1_data_gas_price.get();
        let data_fee = match (self.l1_data_gas as u128).checked_mul(data_price) {
            Some(x) => x,
            None => { return None; },
        };
        let quotient: u128 = data_fee / l1_price;
        let remainder: u128 = data_fee % l1_price;
        let in_l1_units: u128 = if remainder == 0 {
            quotient
        } else {
            proof {
                // A non-zero remainder means the quotient is below the dividend.
                assert(quotient < data_fee) by (nonlinear_arith)
                    requires
                        quotient == data_fee / l1_price,
                        remainder == data_fee % l1_price,
                        remainder > 0,
                        l1_price > 0,
                ;
            }
            quotient + 1
        };
        assert(in_l1_units == ceil_div(data_fee as nat, l1_price as nat));
        if in_l1_units > u64::MAX as u128 {
            return None;
        }
        self.l1_gas.checked_add(in_l1_units as u64)
    }
}

/// A vector that is no larger on any axis costs no more.
pub proof fn lemma_cost_monotonic(a: GasVector, b: GasVector, prices: GasPriceVector)
    requires
        a.l1_gas <= b.l1_gas,
        a.l1_data_gas <= b.l1_data_gas,
        a.l2_gas <= b.l2_gas,
    ensures
        a.spec_cost(prices) <= b.spec_cost(prices),
{
    let l1_price = prices.l1_gas_price.get() as nat;
    let data_price = prices.l1_data_gas_price.get() as nat;
    let l2_price = prices.l2_gas_price.get() as nat;
    assert((a.l1_gas as nat) * l1_price <= (b.l1_gas as nat) * l1_price) by (nonlinear_arith)
        requires
            a.l1_gas <= b.l1_gas,
    ;
    assert((a.l1_data_gas as nat) * data_price <= (b.l1_data_gas as nat) * data_price) by (nonlinear_arith)
        requires
            a.l1_data_gas <= b.l1_data_gas,
    ;
    assert((a.l2_gas as nat) * l2_price <= (b.l2_gas as nat) * l2_price) by (nonlinear_arith)
        requires
            a.l2_gas <= b.l2_gas,
    ;
}

} // verus!
