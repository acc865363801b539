//! The runtime around the pallet: its currency, its randomness and the
//! position of the current extrinsic. [`Env`] makes every call into the
//! runtime on the pallet's behalf. It keeps a ghost record of each call,
//! with its arguments and the answer it got, and of the runtime's state
//! after it; each entry of the record is a step that the runtime's own
//! contract allows. The record grows through `Env`'s methods only, so the
//! pallet's contracts, stated over the record, say exactly what was asked of
//! the runtime and what followed from each answer.

use vstd::prelude::*;
use crate::types::{AccountId, Balance, ExistenceRequirement};

verus! {

/// What the pallet needs of the runtime that hosts it. Each implementation
/// states, by its own spec relations, what one call does: how its state
/// before the call, the arguments, the answer and its state after the call
/// relate. The pallet's contracts hold for every implementation.
pub trait Config: Sized {
    /// What a currency operation fails with.
    type CurrencyError;

    /// `seed` is what `random_seed` answers in state `self`, leaving `after`.
    spec fn random_seed_spec(&self, seed: Vec<u8>, after: Self) -> bool;

    /// `index` is what `extrinsic_index` answers in state `self`, leaving
    /// `after`.
    spec fn extrinsic_index_spec(&self, index: Option<u32>, after: Self) -> bool;

    /// `balance` is what `free_balance(who)` answers in state `self`,
    /// leaving `after`.
    spec fn free_balance_spec(&self, who: AccountId, balance: Balance, after: Self) -> bool;

    /// `reserve(who, value)` answers `result` in state `self`, leaving
    /// `after`.
    spec fn reserve_spec(
        &self,
        who: AccountId,
        value: Balance,
        result: Result<(), Self::CurrencyError>,
        after: Self,
    ) -> bool;

    /// `unreserve(who, value)` answers `remaining` in state `self`, leaving
    /// `after`.
    spec fn unreserve_spec(&self, who: AccountId, value: Balance, remaining: Balance, after: Self) -> bool;

    /// `transfer(source, dest, value, requirement)` answers `result` in
    /// state `self`, leaving `after`.
    spec fn transfer_spec(
        &self,
        source: AccountId,
        dest: AccountId,
        value: Balance,
        requirement: ExistenceRequirement,
        result: Result<(), Self::CurrencyError>,
        after: Self,
    ) -> bool;

    /// The encoded random seed of the runtime's randomness source.
    fn random_seed(&mut self) -> (seed: Vec<u8>)
        ensures
            old(self).random_seed_spec(seed, *final(self)),
    ;

    /// The index of the extrinsic being executed in its block, if any.
    fn extrinsic_index(&mut self) -> (index: Option<u32>)
        ensures
            old(self).extrinsic_index_spec(index, *final(self)),
    ;

    /// The free balance of an account.
    fn free_balance(&mut self, who: AccountId) -> (balance: Balance)
        ensures
            old(self).free_balance_spec(who, balance, *final(self)),
    ;

    /// Asks to reserve `value` of `who`'s balance. A currency is expected
    /// to move `value` from the free to the reserved balance, or to fail
    /// and move nothing; the pallet relies only on `reserve_spec`.
    fn reserve(&mut self, who: AccountId, value: Balance) -> (result: Result<(), Self::CurrencyError>)
        ensures
            old(self).reserve_spec(who, value, result, *final(self)),
    ;

    /// Asks to release up to `value` of `who`'s reserved balance. A
    /// currency is expected to move it back to the free balance and answer
    /// the part it could not move; the pallet relies only on
    /// `unreserve_spec`.
    fn unreserve(&mut self, who: AccountId, value: Balance) -> (remaining: Balance)
        ensures
            old(self).unreserve_spec(who, value, remaining, *final(self)),
    ;

    /// Asks to pay `value` from `source` to `dest`. A currency is expected
    /// to move it between the free balances, or to fail and move nothing;
    /// the pallet relies only on `transfer_spec`.
    fn transfer(
        &mut self,
        source: AccountId,
        dest: AccountId,
        value: Balance,
        existence_requirement: ExistenceRequirement,
    ) -> (result: Result<(), Self::CurrencyError>)
        ensures
            old(self).transfer_spec(source, dest, value, existence_requirement, result, *final(self)),
    ;
}

/// One call into the runtime, with its arguments and its answer.
pub ghost enum OutsideCall<E> {
    RandomSeed { seed: Seq<u8> },
    ExtrinsicIndex { index: Option<u32> },
    FreeBalance { account: AccountId, balance: Balance },
    Reserve { who: AccountId, value: Balance, result: Result<(), E> },
    Unreserve { who: AccountId, value: Balance, remaining: Balance },
    Transfer {
        source: AccountId,
        dest: AccountId,
        value: Balance,
        requirement: ExistenceRequirement,
        result: Result<(), E>,
    },
}

/// Whether the runtime may go from `before` to `after` by making `call`.
pub open spec fn step<R: Config>(before: R, call: OutsideCall<R::CurrencyError>, after: R) -> bool {
    match call {
        OutsideCall::RandomSeed { seed } => exists|answer: Vec<u8>|
            answer@ == seed && #[trigger] before.random_seed_spec(answer, after),
        OutsideCall::ExtrinsicIndex { index } => before.extrinsic_index_spec(index, after),
        OutsideCall::FreeBalance { account, balance } => before.free_balance_spec(
            account,
            balance,
            after,
        ),
        OutsideCall::Reserve { who, value, result } => before.reserve_spec(who, value, result, after),
        OutsideCall::Unreserve { who, value, remaining } => before.unreserve_spec(
            who,
            value,
            remaining,
            after,
        ),
        OutsideCall::Transfer { source, dest, value, requirement, result } => before.transfer_spec(
            source,
            dest,
            value,
            requirement,
            result,
            after,
        ),
    }
}

/// Whether `states` is a history of the runtime under `calls`: call `i`
/// took the runtime from state `i` to state `i + 1`.
pub open spec fn is_history<R: Config>(calls: Seq<OutsideCall<R::CurrencyError>>, states: Seq<R>) -> bool {
    &&& states.len() == calls.len() + 1
    &&& forall|i: int| 0 <= i < calls.len() ==> #[trigger] step(states[i], calls[i], states[i + 1])
}

/// A history stays a history when one more step is appended.
proof fn lemma_history_grows<R: Config>(
    calls: Seq<OutsideCall<R::CurrencyError>>,
    states: Seq<R>,
    call: OutsideCall<R::CurrencyError>,
    next: R,
)
    requires
        is_history(calls, states),
        step(states.last(), call, next),
    ensures
        is_history(calls.push(call), states.push(next)),
{
    assert forall|i: int| 0 <= i < calls.len() + 1 implies #[trigger] step(
        states.push(next)[i],
        calls.push(call)[i],
        states.push(next)[i + 1],
    ) by {
        if i < calls.len() {
            assert(step(states[i], calls[i], states[i + 1]));
        }
    }
}

/// The runtime, with the record of the calls made into it and of the
/// states it went through.
pub struct Env<R: Config> {
    runtime: R,
    record: Ghost<Seq<OutsideCall<R::CurrencyError>>>,
    states: Ghost<Seq<R>>,
}

impl<R: Config> Env<R> {
    /// The calls made into the runtime so far, oldest first.
    pub closed spec fn calls(&self) -> Seq<OutsideCall<R::CurrencyError>> {
        self.record@
    }

    /// The states the runtime went through, from the one it was wrapped in
    /// to the current one.
    pub closed spec fn states(&self) -> Seq<R> {
        self.states@
    }

    /// The runtime's current state.
    pub closed spec fn current(&self) -> R {
        self.runtime
    }

    /// `self` came from `earlier` by calls into the runtime: the states that
    /// `earlier` records begin the states that `self` records.
    pub open spec fn extends(&self, earlier: Self) -> bool {
        &&& earlier.states().len() <= self.states().len()
        &&& forall|i: int| 0 <= i < earlier.states().len() ==> #[trigger] self.states()[i]
            == earlier.states()[i]
    }

    /// The record is a history of the runtime ending in its current state.
    pub closed spec fn wf(&self) -> bool {
        &&& is_history(self.record@, self.states@)
        &&& self.states@.last() == self.runtime
    }

    /// What holds of a well-formed record: each call took the runtime from
    /// one recorded state to the next, and the last state is the current one.
    pub proof fn lemma_history(&self)
        requires
            self.wf(),
        ensures
            is_history(self.calls(), self.states()),
            self.states().last() == self.current(),
    {
    }

    /// Wraps a runtime; no call has been made yet.
    pub fn new(runtime: R) -> (env: Self)
        ensures
            env.wf(),
            env.current() == runtime,
            env.calls() == Seq::<OutsideCall<R::CurrencyError>>::empty(),
            env.states() == seq![runtime],
    {
        let ghost first = runtime;
        let states = Ghost(Seq::empty().push(first));
        Env { runtime, record: Ghost(Seq::empty()), states }
    }

    /// The runtime, to read.
    pub fn runtime(&self) -> (runtime: &R)
        ensures
            *runtime == self.current(),
    {
        &self.runtime
    }

    /// Asks the runtime for its encoded random seed.
    pub fn random_seed(&mut self) -> (seed: Vec<u8>)
        requires
            old(self).wf(),
        ensures
            final(self).wf(),
            final(self).calls() == old(self).calls().push(OutsideCall::RandomSeed { seed: seed@ }),
            final(self).states() == old(self).states().push(final(self).current()),
            old(self).current().random_seed_spec(seed, final(self).current()),
    {
        let seed = self.runtime.random_seed();
        self.record = Ghost(self.record@.push(OutsideCall::RandomSeed { seed: seed@ }));
        self.states = Ghost(self.states@.push(self.runtime));
        proof {
            lemma_history_grows(old(self).record@, old(self).states@, self.record@.last(), self.runtime);
        }
        seed
    }

    /// Asks the runtime for the index of the current extrinsic.
    pub fn extrinsic_index(&mut self) -> (index: Option<u32>)
        requires
            old(self).wf(),
        ensures
            final(self).wf(),
            final(self).calls() == old(self).calls().push(OutsideCall::ExtrinsicIndex { index }),
            final(self).states() == old(self).states().push(final(self).current()),
            old(self).current().extrinsic_index_spec(index, final(self).current()),
    {
        let index = self.runtime.extrinsic_index();
        self.record = Ghost(self.record@.push(OutsideCall::ExtrinsicIndex { index }));
        self.states = Ghost(self.states@.push(self.runtime));
        proof {
            lemma_history_grows(old(self).record@, old(self).states@, self.record@.last(), self.runtime);
        }
        index
    }

    /// Asks the runtime for the free balance of `who`.
    pub fn free_balance(&mut self, who: AccountId) -> (balance: Balance)
        requires
            old(self).wf(),
        ensures
            final(self).wf(),
            final(self).calls() == old(self).calls().push(
                OutsideCall::FreeBalance { account: who, balance },
            ),
            final(self).states() == old(self).states().push(final(self).current()),
            old(self).current().free_balance_spec(who, balance, final(self).current()),
    {
        let balance = self.runtime.free_balance(who);
        self.record = Ghost(self.record@.push(OutsideCall::FreeBalance { account: who, balance }));
        self.states = Ghost(self.states@.push(self.runtime));
        proof {
            lemma_history_grows(old(self).record@, old(self).states@, self.record@.last(), self.runtime);
        }
        balance
    }

    /// Asks the runtime to reserve `value` of `who`'s balance.
    pub fn reserve(&mut self, who: AccountId, value: Balance) -> (result: Result<
        (),
        R::CurrencyError,
    >)
        requires
            old(self).wf(),
        ensures
            final(self).wf(),
            final(self).calls() == old(self).calls().push(OutsideCall::Reserve { who, value, result }),
            final(self).states() == old(self).states().push(final(self).current()),
            old(self).current().reserve_spec(who, value, result, final(self).current()),
    {
        let result = self.runtime.reserve(who, value);
        self.record = Ghost(self.record@.push(OutsideCall::Reserve { who, value, result }));
        self.states = Ghost(self.states@.push(self.runtime));
        proof {
            lemma_history_grows(old(self).record@, old(self).states@, self.record@.last(), self.runtime);
        }
        result
    }

    /// Asks the runtime to release up to `value` of `who`'s reserved balance.
    pub fn unreserve(&mut self, who: AccountId, value: Balance) -> (remaining: Balance)
        requires
            old(self).wf(),
        ensures
            final(self).wf(),
            final(self).calls() == old(self).calls().push(
                OutsideCall::Unreserve { who, value, remaining },
            ),
            final(self).states() == old(self).states().push(final(self).current()),
            old(self).current().unreserve_spec(who, value, remaining, final(self).current()),
    {
        let remaining = self.runtime.unreserve(who, value);
        self.record = Ghost(self.record@.push(OutsideCall::Unreserve { who, value, remaining }));
        self.states = Ghost(self.states@.push(self.runtime));
        proof {
            lemma_history_grows(old(self).record@, old(self).states@, self.record@.last(), self.runtime);
        }
        remaining
    }

    /// Asks the runtime to move `value` from `source` to `dest`.
    pub fn transfer(
        &mut self,
        source: AccountId,
        dest: AccountId,
        value: Balance,
        requirement: ExistenceRequirement,
    ) -> (result: Result<(), R::CurrencyError>)
        requires
            old(self).wf(),
        ensures
            final(self).wf(),
            final(self).calls() == old(self).calls().push(
                OutsideCall::Transfer { source, dest, value, requirement, result },
            ),
            final(self).states() == old(self).states().push(final(self).current()),
            old(self).current().transfer_spec(
                source,
                dest,
                value,
                requirement,
                result,
                final(self).current(),
            ),
    {
        let result = self.runtime.transfer(source, dest, value, requirement);
        self.record = Ghost(
            self.record@.push(OutsideCall::Transfer { source, dest, value, requirement, result }),
        );
        self.states = Ghost(self.states@.push(self.runtime));
        proof {
            lemma_history_grows(old(self).record@, old(self).states@, self.record@.last(), self.runtime);
        }
        result
    }
}

} // verus!
