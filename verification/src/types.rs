//! The values the pallet stores, reports and fails with.

use vstd::prelude::*;

verus! {

/// Index of a kitty; kitties are numbered from 1 upwards.
pub type KittyIndex = u32;

/// An account of the chain.
pub type AccountId = u64;

/// An amount of the chain's currency.
pub type Balance = u128;

/// A kitty: nothing but its DNA.
#[derive(Clone, Copy, PartialEq, Eq, Debug)]
pub struct Kitty {
    pub dna: [u8; 16],
}

/// Why a call of the pallet was refused.
#[derive(Clone, Copy, PartialEq, Eq, Debug)]
pub enum Error {
    /// No kitty has the given index.
    InvalidKittyId,
    /// The next kitty index does not fit in a `KittyIndex`.
    KittyIdOverflow,
    /// The caller does not own the kitty.
    NotOwner,
    /// Both parents of a bred kitty are the same kitty.
    SameKittyId,
    /// The buyer already owns the kitty.
    NoBuySelf,
    /// The kitty has no price in the shop.
    NotForSale,
    /// The account cannot pay the stake or the price.
    NotEnoughBalance,
}

/// A failed dispatch: refused by the pallet, or failed in the currency.
#[derive(PartialEq, Eq, Debug)]
pub enum DispatchError<E> {
    /// Refused by the pallet.
    Module(Error),
    /// The currency refused to move funds.
    Currency(E),
}

/// What the pallet reports of a successful call.
#[derive(Clone, Copy, PartialEq, Eq, Debug)]
pub enum Event {
    /// An account got a new kitty (created or bred).
    KittyCreated(AccountId, KittyIndex),
    /// An account bred a kitty with the given DNA.
    KittyBred(AccountId, KittyIndex, Kitty),
    /// A kitty went from the first account to the second.
    KittyTransferred(AccountId, AccountId, KittyIndex),
    /// An owner put a kitty up for sale at a price, or took its price away.
    KittyInSell(AccountId, KittyIndex, Option<Balance>),
}

/// Whether a transfer may leave the source account below the existential
/// deposit.
#[derive(Clone, Copy, PartialEq, Eq, Debug)]
pub enum ExistenceRequirement {
    /// The source account must stay alive.
    KeepAlive,
    /// The source account may be reaped.
    AllowDeath,
}

/// The index that the last kitty index has before any kitty was made.
#[allow(non_snake_case)]
pub fn GetDefaultValue() -> (index: KittyIndex)
    ensures
        index == 0,
{
    0
}

} // verus!
