//! Plain values that the host hands to a contract: addresses, amounts, times, and
//! the context of one call.

use vstd::prelude::*;

verus! {

/// Address of an account, as raw bytes.
#[derive(Clone, Copy, Debug, PartialEq, Eq)]
pub struct AccountAddress(pub [u8; 32]);

/// Address of a contract instance.
#[derive(Clone, Copy, Debug, PartialEq, Eq)]
pub struct ContractAddress {
    pub index: u64,
    pub subindex: u64,
}

/// Either an account or a contract instance.
#[derive(Clone, Copy, Debug, PartialEq, Eq)]
pub enum Address {
    Account(AccountAddress),
    Contract(ContractAddress),
}

/// An amount of the smallest unit of the chain's currency.
#[derive(Clone, Copy, Debug, PartialEq, Eq)]
pub struct Amount {
    pub micro_ccd: u64,
}

/// A point in time, in milliseconds since the Unix epoch.
#[derive(Clone, Copy, Debug, PartialEq, Eq)]
pub struct Timestamp {
    pub millis: u64,
}

/// What the host states about one call: who invoked it and the time of its block.
#[derive(Clone, Copy, Debug, PartialEq, Eq)]
pub struct CallContext {
    pub caller: Address,
    pub now: Timestamp,
}

impl AccountAddress {
    /// Whether two account addresses hold the same bytes.
    pub fn same(&self, other: &AccountAddress) -> (r: bool)
        ensures
            r == (*self == *other),
    {
        let mut i: usize = 0;
        while i < 32
            invariant
                i <= 32,
                forall|j: int| 0 <= j < i ==> self.0[j] == other.0[j],
            decreases 32 - i,
        {
            if self.0[i] != other.0[i] {
                return false;
            }
            i += 1;
        }
        proof {
            assert(self.0 =~= other.0);
        }
        true
    }
}

impl ContractAddress {
    /// Whether two contract addresses agree in index and subindex.
    pub fn same(&self, other: &ContractAddress) -> (r: bool)
        ensures
            r == (*self == *other),
    {
        self.index == other.index && self.subindex == other.subindex
    }
}

impl Address {
    /// Whether two addresses are of the same kind and name the same account or instance.
    pub fn same(&self, other: &Address) -> (r: bool)
        ensures
            r == (*self == *other),
    {
        match (self, other) {
            (Address::Account(a), Address::Account(b)) => a.same(b),
            (Address::Contract(a), Address::Contract(b)) => a.same(b),
            _ => false,
        }
    }
}

impl Amount {
    /// The amount of the given number of smallest units.
    pub fn from_micro_ccd(micro_ccd: u64) -> (r: Amount)
        ensures
            r.micro_ccd == micro_ccd,
    {
        Amount { micro_ccd }
    }

    /// The sum of two amounts where it is representable, `None` where it is not.
    pub open spec fn sum(self, other: Amount) -> Option<Amount> {
        if self.micro_ccd + other.micro_ccd <= u64::MAX {
            Some(Amount { micro_ccd: (self.micro_ccd + other.micro_ccd) as u64 })
        } else {
            None
        }
    }

    /// `self` less `other` where `other` does not exceed it, `None` where it does.
    pub open spec fn difference(self, other: Amount) -> Option<Amount> {
        if other.micro_ccd <= self.micro_ccd {
            Some(Amount { micro_ccd: (self.micro_ccd - other.micro_ccd) as u64 })
        } else {
            None
        }
    }

    /// Calls `concordium_std::Amount::checked_add`, which adds the two counts of
    /// smallest units and gives `None` if the sum does not fit in 64 bits.
    #[verifier::external_body]
    pub(crate) fn checked_add(self, other: Amount) -> (r: Option<Amount>)
        ensures
            r == self.sum(other),
    {
        concordium_std::Amount::from_micro_ccd(self.micro_ccd)
            .checked_add(concordium_std::Amount::from_micro_ccd(other.micro_ccd))
            .map(|a| Amount::from_micro_ccd(a.micro_ccd()))
    }

    /// Calls `concordium_std::Amount::checked_sub`, which subtracts the second count
    /// of smallest units from the first and gives `None` if the second is larger.
    #[verifier::external_body]
    pub(crate) fn checked_sub(self, other: Amount) -> (r: Option<Amount>)
        ensures
            r == self.difference(other),
    {
        concordium_std::Amount::from_micro_ccd(self.micro_ccd)
            .checked_sub(concordium_std::Amount::from_micro_ccd(other.micro_ccd))
            .map(|a| Amount::from_micro_ccd(a.micro_ccd()))
    }

    /// Applies `<` of `concordium_std::Amount`, which orders amounts by their count
    /// of smallest units.
    #[verifier::external_body]
    pub(crate) fn less_than(self, other: Amount) -> (r: bool)
        ensures
            r == (self.micro_ccd < other.micro_ccd),
    {
        concordium_std::Amount::from_micro_ccd(self.micro_ccd)
            < concordium_std::Amount::from_micro_ccd(other.micro_ccd)
    }
}

impl Timestamp {
    /// The time the given number of milliseconds after the Unix epoch.
    pub fn from_timestamp_millis(millis: u64) -> (r: Timestamp)
        ensures
            r.millis == millis,
    {
        Timestamp { millis }
    }

    /// Applies `>` of `concordium_std::Timestamp`, which orders times by their
    /// milliseconds since the epoch.
    #[verifier::external_body]
    pub(crate) fn later_than(self, other: Timestamp) -> (r: bool)
        ensures
            r == (self.millis > other.millis),
    {
        concordium_std::Timestamp::from_timestamp_millis(self.millis)
            > concordium_std::Timestamp::from_timestamp_millis(other.millis)
    }
}

} // verus!
