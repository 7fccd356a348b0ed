use vstd::prelude::*;

verus! {

/// A 256-bit value: an identity, also used as genome and as source of random bytes.
pub type H256 = [u8; 32];

/// An account of the host platform.
pub type AccountId = u64;

/// An amount of currency.
pub type Balance = u128;

/// One creature of the registry.
#[derive(Clone, Copy, Debug, PartialEq, Eq)]
pub struct Chocobo {
    pub id: H256,
    pub dna: H256,
    /// `0` means "not for sale".
    pub price: Balance,
    pub gen: u64,
    pub wins: u64,
    pub races: u64,
}

/// Why a call was rejected. A rejected call changes nothing.
#[derive(Clone, Copy, Debug, PartialEq, Eq, Structural)]
pub enum Error {
    Unauthorized,
    NotFound,
    DuplicateIdentity,
    NotForSale,
    PriceTooHigh,
    AlreadyOwner,
    CountOverflow,
    CountUnderflow,
    InsufficientFunds,
}

/// What a successful handler reports to the host's event log.
#[derive(Clone, Copy, Debug, PartialEq, Eq)]
pub enum Event {
    Created(AccountId, H256),
    PriceSet(AccountId, H256, Balance),
    Transferred(AccountId, AccountId, H256),
    Bought(AccountId, AccountId, H256, Balance),
    Bred(AccountId, H256, H256, H256),
    Raced(AccountId, H256, H256, H256),
}

/// A currency movement that the host's ledger must perform.
#[derive(Clone, Copy, Debug, PartialEq, Eq, Structural)]
pub struct Payment {
    pub from: AccountId,
    pub to: AccountId,
    pub amount: Balance,
}

} // verus!
