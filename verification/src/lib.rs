//! A kitties marketplace: kitties are minted with a random DNA against a
//! stake, bred from two parents, transferred, listed for sale and bought.
//! The pallet's storage is modelled by [`pallet::Pallet`]; the runtime that
//! provides the currency and the randomness is reached through the
//! [`runtime::Config`] trait. A call that the pallet refuses leaves its own
//! storage as it was; what the runtime did before the refusal (a stake
//! reserved before the next index turned out not to fit, or before a
//! payment failed) is for the caller to undo, as a chain does by running each
//! dispatch in a storage transaction.

pub mod call_laws;
pub mod dna;
pub mod laws;
pub mod pallet;
pub mod runtime;
pub mod state;
pub mod types;
