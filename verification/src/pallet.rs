//! The pallet: its storage and its calls.

use vstd::prelude::*;
use std::collections::HashMap;
use crate::dna::{breed_dna, random_dna};
use crate::runtime::{Config, Env};
use crate::state::{PalletState, random_dna_of};
use crate::types::{
    AccountId, Balance, DispatchError, Error, Event, ExistenceRequirement, GetDefaultValue, Kitty,
    KittyIndex,
};

verus! {

broadcast use vstd::std_specs::hash::group_hash_axioms;

/// The pallet's storage and constants.
pub struct Pallet {
    last_kitty_id: KittyIndex,
    kitties: HashMap<KittyIndex, Kitty>,
    kitty_owner: HashMap<KittyIndex, AccountId>,
    kitties_shop: HashMap<KittyIndex, Option<Balance>>,
    events: Vec<Event>,
    kitty_stake: Balance,
    max_kitty_index: u32,
}

impl View for Pallet {
    type V = PalletState;

    closed spec fn view(&self) -> PalletState {
        PalletState {
            last_kitty_id: self.last_kitty_id,
            kitties: Map::new(
                |id: KittyIndex| self.kitties@.contains_key(id),
                |id: KittyIndex| self.kitties@[id].dna@,
            ),
            owners: self.kitty_owner@,
            shop: self.kitties_shop@,
            events: self.events@,
            kitty_stake: self.kitty_stake,
            max_kitty_index: self.max_kitty_index,
        }
    }
}

impl Pallet {
    /// Whether the storage is one the pallet can reach.
    pub open spec fn wf(&self) -> bool {
        self@.wf()
    }

    /// A fresh chain whose kitties cost `kitty_stake` each.
    pub fn new(kitty_stake: Balance, max_kitty_index: u32) -> (pallet: Self)
        ensures
            pallet.wf(),
            pallet@ == PalletState::genesis(kitty_stake, max_kitty_index),
    {
        let pallet = Pallet {
            last_kitty_id: GetDefaultValue(),
            kitties: HashMap::new(),
            kitty_owner: HashMap::new(),
            kitties_shop: HashMap::new(),
            events: Vec::new(),
            kitty_stake,
            max_kitty_index,
        };
        assert(pallet@.kitties =~= Map::empty());
        pallet
    }

    /// The index of the last kitty made; 0 before the first.
    pub fn last_kitty_id(&self) -> (id: KittyIndex)
        ensures
            id == self@.last_kitty_id,
    {
        self.last_kitty_id
    }

    /// The kitty of index `id`, if there is one.
    pub fn kitties_info(&self, id: KittyIndex) -> (kitty: Option<Kitty>)
        ensures
            kitty is Some <==> self@.kitties.contains_key(id),
            kitty matches Some(k) ==> k.dna@ == self@.kitties[id],
    {
        match self.kitties.get(&id) {
            Some(k) => Some(*k),
            None => None,
        }
    }

    /// The owner of kitty `id`, if it has one.
    pub fn kitty_owner(&self, id: KittyIndex) -> (owner: Option<AccountId>)
        ensures
            owner == self@.owners.get(id),
    {
        match self.kitty_owner.get(&id) {
            Some(o) => Some(*o),
            None => None,
        }
    }

    /// The price the shop asks for kitty `id`, if it asks one.
    pub fn kitties_list_for_sales(&self, id: KittyIndex) -> (price: Option<Balance>)
        ensures
            price == self@.price(id),
    {
        match self.kitties_shop.get(&id) {
            Some(p) => *p,
            None => None,
        }
    }

    /// The events deposited so far, oldest first.
    pub fn events(&self) -> (events: &[Event])
        ensures
            events@ == self@.events,
    {
        self.events.as_slice()
    }

    /// The stake that owning a kitty costs.
    pub fn kitty_stake(&self) -> (stake: Balance)
        ensures
            stake == self@.kitty_stake,
    {
        self.kitty_stake
    }

    /// The largest kitty index the runtime was configured with.
    pub fn max_kitty_index(&self) -> (max: u32)
        ensures
            max == self@.max_kitty_index,
    {
        self.max_kitty_index
    }

    /// Writes the last kitty index, as genesis or a migration may. Refused,
    /// returning `false` and changing nothing, where `id` is below the
    /// current last index: an index would then be handed out twice.
    pub fn set_last_kitty_id(&mut self, id: KittyIndex) -> (done: bool)
        requires
            old(self).wf(),
        ensures
            final(self).wf(),
            done == (id >= old(self)@.last_kitty_id),
            final(self)@ == if done {
                PalletState { last_kitty_id: id, ..old(self)@ }
            } else {
                old(self)@
            },
    {
        if id < self.last_kitty_id {
            return false;
        }
        self.last_kitty_id = id;
        true
    }

    /// The kitty of index `id`, or `Err(())` where there is none.
    pub fn kitty_of_id(&self, id: KittyIndex) -> (kitty: Result<Kitty, ()>)
        ensures
            kitty is Ok <==> self@.kitties.contains_key(id),
            kitty matches Ok(k) ==> k.dna@ == self@.kitties[id],
    {
        match self.kitties_info(id) {
            Some(kitty) => Ok(kitty),
            None => Err(()),
        }
    }

    /// A random DNA for `sender`: the runtime's seed and extrinsic index,
    /// hashed together with the sender.
    pub fn random_value<R: Config>(env: &mut Env<R>, sender: AccountId) -> (dna: [u8; 16])
        requires
            old(env).wf(),
        ensures
            final(env).wf(),
            final(env).extends(*old(env)),
            exists|seed: Seq<u8>, index: Option<u32>|
                {
                    &&& final(env).calls() == old(env).calls() + #[trigger] PalletState::random_calls(
                        seed,
                        index,
                    )
                    &&& dna@ == random_dna_of(seed, sender, index)
                },
    {
        let seed = env.random_seed();
        let index = env.extrinsic_index();
        let dna = random_dna(seed.as_slice(), sender, index);
        assert(env.calls() =~= old(env).calls() + PalletState::random_calls(seed@, index));
        dna
    }

    /// Reserves `sender`'s stake and gives them a new kitty of DNA `dna`
    /// under the next index. Where the next index does not fit, the call is
    /// refused after the stake was reserved; the dispatch's storage
    /// transaction undoes the reservation.
    pub fn new_kitty_with_stake<R: Config>(
        &mut self,
        env: &mut Env<R>,
        sender: AccountId,
        dna: [u8; 16],
    ) -> (result: Result<(), Error>)
        requires
            old(self).wf(),
            old(env).wf(),
        ensures
            final(self).wf(),
            final(env).wf(),
            final(env).extends(*old(env)),
            exists|reserved: Result<(), R::CurrencyError>|
                {
                    &&& final(env).calls() == old(env).calls() + #[trigger] old(
                        self,
                    )@.new_kitty_calls(sender, reserved)
                    &&& (result, final(self)@) == old(self)@.new_kitty_outcome(
                        sender,
                        dna@,
                        reserved,
                    )
                },
    {
        let ghost pre = self@;
        let stake_amount = self.kitty_stake;
        let reserve_result = env.reserve(sender, stake_amount);
        assert(env.calls() =~= old(env).calls() + pre.new_kitty_calls(sender, reserve_result));
        if reserve_result.is_err() {
            return Err(Error::NotEnoughBalance);
        }
        let kitty_id = match self.last_kitty_id.checked_add(1) {
            Some(id) => id,
            None => {
                return Err(Error::KittyIdOverflow);
            },
        };
        let kitty = Kitty { dna };
        self.kitties.insert(kitty_id, kitty);
        self.kitty_owner.insert(kitty_id, sender);
        self.last_kitty_id = kitty_id;
        self.events.push(Event::KittyCreated(sender, kitty_id));
        assert(self@.kitties =~= pre.kitties.insert(kitty_id, dna@));
        assert(self@ == pre.with_new_kitty(sender, dna@));
        Ok(())
    }

    /// Makes a new kitty of random DNA for `sender`, against their stake.
    pub fn create<R: Config>(&mut self, env: &mut Env<R>, sender: AccountId) -> (result: Result<
        (),
        Error,
    >)
        requires
            old(self).wf(),
            old(env).wf(),
        ensures
            final(self).wf(),
            final(env).wf(),
            final(env).extends(*old(env)),
            exists|seed: Seq<u8>, index: Option<u32>, reserved: Result<(), R::CurrencyError>|
                {
                    &&& final(env).calls() == old(env).calls() + #[trigger] old(
                        self,
                    )@.create_calls(sender, seed, index, reserved)
                    &&& (result, final(self)@) == old(self)@.create_outcome(
                        sender,
                        seed,
                        index,
                        reserved,
                    )
                },
    {
        let ghost pre = self@;
        let ghost env_before = *env;
        let dna = Self::random_value(env, sender);
        let ghost (seed, index) = choose|seed: Seq<u8>, index: Option<u32>|
            {
                &&& env.calls() == env_before.calls() + #[trigger] PalletState::random_calls(
                    seed,
                    index,
                )
                &&& dna@ == random_dna_of(seed, sender, index)
            };
        let ghost env_mid = *env;
        let result = self.new_kitty_with_stake(env, sender, dna);
        let ghost reserved = choose|reserved: Result<(), R::CurrencyError>|
            {
                &&& env.calls() == env_mid.calls() + #[trigger] pre.new_kitty_calls(sender, reserved)
                &&& (result, self@) == pre.new_kitty_outcome(sender, dna@, reserved)
            };
        assert(env.calls() =~= env_before.calls() + pre.create_calls(sender, seed, index, reserved));
        result
    }

    /// Breeds kitties `kitty_id_1` and `kitty_id_2` into a new kitty for
    /// `sender`, against their stake: each bit of the child's DNA comes from
    /// one parent or the other, as a random selector says.
    pub fn breed<R: Config>(
        &mut self,
        env: &mut Env<R>,
        sender: AccountId,
        kitty_id_1: KittyIndex,
        kitty_id_2: KittyIndex,
    ) -> (result: Result<(), Error>)
        requires
            old(self).wf(),
            old(env).wf(),
        ensures
            final(self).wf(),
            final(env).wf(),
            final(env).extends(*old(env)),
            exists|seed: Seq<u8>, index: Option<u32>, reserved: Result<(), R::CurrencyError>|
                {
                    &&& final(env).calls() == old(env).calls() + #[trigger] old(
                        self,
                    )@.breed_calls(sender, kitty_id_1, kitty_id_2, seed, index, reserved)
                    &&& (result, final(self)@) == old(self)@.breed_outcome(
                        sender,
                        kitty_id_1,
                        kitty_id_2,
                        seed,
                        index,
                        reserved,
                    )
                },
    {
        let ghost pre = self@;
        let ghost env_before = *env;
        let parent_1 = self.kitty_of_id(kitty_id_1);
        let parent_2 = self.kitty_of_id(kitty_id_2);
        if kitty_id_1 == kitty_id_2 || parent_1.is_err() || parent_2.is_err() {
            let ghost no_answer: Result<(), R::CurrencyError> = Ok(());
            assert(env.calls() =~= env_before.calls() + pre.breed_calls(
                sender,
                kitty_id_1,
                kitty_id_2,
                Seq::empty(),
                None,
                no_answer,
            ));
            if kitty_id_1 == kitty_id_2 {
                return Err(Error::SameKittyId);
            }
            return Err(Error::InvalidKittyId);
        }
        let kitty_1 = parent_1.unwrap();
        let kitty_2 = parent_2.unwrap();
        let selector = Self::random_value(env, sender);
        let ghost (seed, index) = choose|seed: Seq<u8>, index: Option<u32>|
            {
                &&& env.calls() == env_before.calls() + #[trigger] PalletState::random_calls(
                    seed,
                    index,
                )
                &&& selector@ == random_dna_of(seed, sender, index)
            };
        let new_dna = breed_dna(&kitty_1.dna, &kitty_2.dna, &selector);
        let ghost env_mid = *env;
        let result = self.new_kitty_with_stake(env, sender, new_dna);
        let ghost reserved = choose|reserved: Result<(), R::CurrencyError>|
            {
                &&& env.calls() == env_mid.calls() + #[trigger] pre.new_kitty_calls(sender, reserved)
                &&& (result, self@) == pre.new_kitty_outcome(sender, new_dna@, reserved)
            };
        assert(env.calls() =~= env_before.calls() + pre.breed_calls(
            sender,
            kitty_id_1,
            kitty_id_2,
            seed,
            index,
            reserved,
        ));
        result
    }

    /// Gives kitty `kitty_id` from `sender` to `new_owner`: the new owner's
    /// stake is reserved and the old owner's released.
    pub fn transfer<R: Config>(
        &mut self,
        env: &mut Env<R>,
        sender: AccountId,
        kitty_id: KittyIndex,
        new_owner: AccountId,
    ) -> (result: Result<(), Error>)
        requires
            old(self).wf(),
            old(env).wf(),
        ensures
            final(self).wf(),
            final(env).wf(),
            final(env).extends(*old(env)),
            exists|reserved: Result<(), R::CurrencyError>, remaining: Balance|
                {
                    &&& final(env).calls() == old(env).calls() + #[trigger] old(
                        self,
                    )@.transfer_calls(sender, kitty_id, new_owner, reserved, remaining)
                    &&& (result, final(self)@) == old(self)@.transfer_outcome(
                        sender,
                        kitty_id,
                        new_owner,
                        reserved,
                    )
                },
    {
        let ghost pre = self@;
        let ghost env_before = *env;
        let known = self.kitty_of_id(kitty_id).is_ok();
        let is_owner = match self.kitty_owner(kitty_id) {
            Some(owner) => owner == sender,
            None => false,
        };
        if !known || !is_owner {
            let ghost no_answer: Result<(), R::CurrencyError> = Ok(());
            assert(env.calls() =~= env_before.calls() + pre.transfer_calls(
                sender,
                kitty_id,
                new_owner,
                no_answer,
                0,
            ));
            if !known {
                return Err(Error::InvalidKittyId);
            }
            return Err(Error::NotOwner);
        }
        let stake_amount = self.kitty_stake;
        let reserve_result = env.reserve(new_owner, stake_amount);
        if reserve_result.is_err() {
            assert(env.calls() =~= env_before.calls() + pre.transfer_calls(
                sender,
                kitty_id,
                new_owner,
                reserve_result,
                0,
            ));
            return Err(Error::NotEnoughBalance);
        }
        let remaining = env.unreserve(sender, stake_amount);
        self.kitty_owner.insert(kitty_id, new_owner);
        self.events.push(Event::KittyTransferred(sender, new_owner, kitty_id));
        assert(env.calls() =~= env_before.calls() + pre.transfer_calls(
            sender,
            kitty_id,
            new_owner,
            reserve_result,
            remaining,
        ));
        assert(self@.owners.dom() =~= pre.owners.dom());
        assert(self@ == pre.with_owner(kitty_id, sender, new_owner));
        Ok(())
    }

    /// Sets the price that the shop asks for kitty `kitty_id`; `None` takes
    /// the price away. Only the kitty's owner may do so.
    pub fn sell(&mut self, seller: AccountId, kitty_id: KittyIndex, price: Option<Balance>) -> (result:
        Result<(), Error>)
        requires
            old(self).wf(),
        ensures
            final(self).wf(),
            (result, final(self)@) == old(self)@.sell_outcome(seller, kitty_id, price),
    {
        let is_owner = match self.kitty_owner(kitty_id) {
            Some(owner) => owner == seller,
            None => false,
        };
        if !is_owner {
            return Err(Error::NotOwner);
        }
        self.kitties_shop.insert(kitty_id, price);
        self.events.push(Event::KittyInSell(seller, kitty_id, price));
        Ok(())
    }

    /// `buyer` buys kitty `kitty_id` at the shop's price: the buyer must
    /// have more free balance than the price and the stake together; the
    /// buyer's stake is reserved, the seller's released, and the price paid
    /// to the seller, whose error, if the payment fails, is returned as it
    /// is. The kitty keeps its price in the shop.
    pub fn buy<R: Config>(&mut self, env: &mut Env<R>, buyer: AccountId, kitty_id: KittyIndex) -> (result:
        Result<(), DispatchError<R::CurrencyError>>)
        requires
            old(self).wf(),
            old(env).wf(),
            !old(self)@.buy_sum_overflows(buyer, kitty_id),
        ensures
            final(self).wf(),
            final(env).wf(),
            final(env).extends(*old(env)),
            exists|
                balance: Balance,
                reserved: Result<(), R::CurrencyError>,
                remaining: Balance,
                paid: Result<(), R::CurrencyError>,
            |
                {
                    &&& final(env).calls() == old(env).calls() + #[trigger] old(self)@.buy_calls(
                        buyer,
                        kitty_id,
                        balance,
                        reserved,
                        remaining,
                        paid,
                    )
                    &&& (result, final(self)@) == old(self)@.buy_outcome(
                        buyer,
                        kitty_id,
                        balance,
                        reserved,
                        paid,
                    )
                },
    {
        let ghost pre = self@;
        let ghost env_before = *env;
        let ghost no_answer: Result<(), R::CurrencyError> = Ok(());
        let owner = self.kitty_owner(kitty_id);
        let listed = self.kitties_list_for_sales(kitty_id);
        let refusal = match owner {
            None => Some(Error::InvalidKittyId),
            Some(seller) => if seller == buyer {
                Some(Error::NoBuySelf)
            } else if listed.is_none() {
                Some(Error::NotForSale)
            } else {
                None
            },
        };
        if let Some(error) = refusal {
            assert(env.calls() =~= env_before.calls() + pre.buy_calls(
                buyer,
                kitty_id,
                0,
                no_answer,
                0,
                no_answer,
            ));
            return Err(DispatchError::Module(error));
        }
        let seller = owner.unwrap();
        let price = listed.unwrap();
        let buyer_balance = env.free_balance(buyer);
        let stake_amount = self.kitty_stake;
        if !(buyer_balance > price + stake_amount) {
            assert(env.calls() =~= env_before.calls() + pre.buy_calls(
                buyer,
                kitty_id,
                buyer_balance,
                no_answer,
                0,
                no_answer,
            ));
            return Err(DispatchError::Module(Error::NotEnoughBalance));
        }
        let stake_amount = self.kitty_stake;
        let reserve_result = env.reserve(buyer, stake_amount);
        if reserve_result.is_err() {
            assert(env.calls() =~= env_before.calls() + pre.buy_calls(
                buyer,
                kitty_id,
                buyer_balance,
                reserve_result,
                0,
                no_answer,
            ));
            return Err(DispatchError::Module(Error::NotEnoughBalance));
        }
        let remaining = env.unreserve(seller, stake_amount);
        let transfer_result = env.transfer(buyer, seller, price, ExistenceRequirement::KeepAlive);
        let ghost paid = transfer_result;
        assert(env.calls() =~= env_before.calls() + pre.buy_calls(
            buyer,
            kitty_id,
            buyer_balance,
            reserve_result,
            remaining,
            paid,
        ));
        match transfer_result {
            Err(e) => {
                return Err(DispatchError::Currency(e));
            },
            Ok(()) => {},
        }
        self.kitty_owner.insert(kitty_id, buyer);
        self.events.push(Event::KittyTransferred(seller, buyer, kitty_id));
        assert(self@.owners.dom() =~= pre.owners.dom());
        assert(self@ == pre.with_owner(kitty_id, seller, buyer));
        Ok(())
    }
}

} // verus!
