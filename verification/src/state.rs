//! The abstract state of the pallet's storage, and what each call of the
//! pallet does to it, as a function of the answers the runtime gave.

use vstd::prelude::*;
use crate::dna::{blake2_128_digest, mix_dna, random_payload};
use crate::runtime::OutsideCall;
use crate::types::{
    AccountId, Balance, DispatchError, Error, Event, ExistenceRequirement, KittyIndex,
};

verus! {

/// The pallet's storage: the last kitty index handed out, the DNA of each
/// kitty, the owner of each kitty, the shop's prices, the events deposited
/// so far, and the stake that owning a kitty costs.
pub ghost struct PalletState {
    pub last_kitty_id: KittyIndex,
    pub kitties: Map<KittyIndex, Seq<u8>>,
    pub owners: Map<KittyIndex, AccountId>,
    pub shop: Map<KittyIndex, Option<Balance>>,
    pub events: Seq<Event>,
    pub kitty_stake: Balance,
    pub max_kitty_index: u32,
}

/// The DNA drawn for `sender` from an encoded random seed and an extrinsic
/// index.
pub open spec fn random_dna_of(seed: Seq<u8>, sender: AccountId, index: Option<u32>) -> Seq<u8> {
    blake2_128_digest(random_payload(seed, sender, index))
}

impl PalletState {
    /// The storage of a fresh chain.
    pub open spec fn genesis(kitty_stake: Balance, max_kitty_index: u32) -> PalletState {
        PalletState {
            last_kitty_id: 0,
            kitties: Map::empty(),
            owners: Map::empty(),
            shop: Map::empty(),
            events: Seq::empty(),
            kitty_stake,
            max_kitty_index,
        }
    }

    /// What every reachable state satisfies: kitties are numbered from 1 up
    /// to the last index handed out, every kitty has an owner and only
    /// kitties have one, and only kitties have a price in the shop.
    pub open spec fn wf(self) -> bool {
        &&& forall|id: KittyIndex| #[trigger]
            self.kitties.contains_key(id) ==> 1 <= id <= self.last_kitty_id
        &&& self.owners.dom() == self.kitties.dom()
        &&& self.shop.dom().subset_of(self.kitties.dom())
        &&& forall|id: KittyIndex| #[trigger] self.kitties.contains_key(id) ==> self.kitties[id].len() == 16
    }

    /// The price that the shop asks for a kitty; `None` where it asks none.
    pub open spec fn price(self, id: KittyIndex) -> Option<Balance> {
        if self.shop.contains_key(id) {
            self.shop[id]
        } else {
            None
        }
    }

    /// The state after `sender` got a new kitty of DNA `dna` under the next
    /// index.
    pub open spec fn with_new_kitty(self, sender: AccountId, dna: Seq<u8>) -> PalletState {
        let id = (self.last_kitty_id + 1) as KittyIndex;
        PalletState {
            last_kitty_id: id,
            kitties: self.kitties.insert(id, dna),
            owners: self.owners.insert(id, sender),
            events: self.events.push(Event::KittyCreated(sender, id)),
            ..self
        }
    }

    /// The state after kitty `id` went from `from` to `to`.
    pub open spec fn with_owner(self, id: KittyIndex, from: AccountId, to: AccountId) -> PalletState {
        PalletState {
            owners: self.owners.insert(id, to),
            events: self.events.push(Event::KittyTransferred(from, to, id)),
            ..self
        }
    }

    /// Minting a kitty of DNA `dna` for `sender`, given the runtime's answer
    /// to the reservation of the stake: refused for want of balance, refused
    /// when the next index does not fit (the stake was reserved by then, and
    /// the dispatch's storage transaction undoes it), else the new kitty.
    pub open spec fn new_kitty_outcome<E>(self, sender: AccountId, dna: Seq<u8>, reserved: Result<(), E>) -> (
        Result<(), Error>,
        PalletState,
    ) {
        if reserved is Err {
            (Err(Error::NotEnoughBalance), self)
        } else if self.last_kitty_id == u32::MAX {
            (Err(Error::KittyIdOverflow), self)
        } else {
            (Ok(()), self.with_new_kitty(sender, dna))
        }
    }

    /// The calls that minting a kitty makes: the stake is reserved from
    /// `sender`.
    pub open spec fn new_kitty_calls<E>(self, sender: AccountId, reserved: Result<(), E>) -> Seq<OutsideCall<E>> {
        seq![OutsideCall::Reserve { who: sender, value: self.kitty_stake, result: reserved }]
    }

    /// The calls that drawing a random DNA makes.
    pub open spec fn random_calls<E>(seed: Seq<u8>, index: Option<u32>) -> Seq<OutsideCall<E>> {
        seq![OutsideCall::RandomSeed { seed }, OutsideCall::ExtrinsicIndex { index }]
    }

    /// `create` by `sender`, given the runtime's seed, extrinsic index and
    /// answer to the reservation.
    pub open spec fn create_outcome<E>(
        self,
        sender: AccountId,
        seed: Seq<u8>,
        index: Option<u32>,
        reserved: Result<(), E>,
    ) -> (Result<(), Error>, PalletState) {
        self.new_kitty_outcome(sender, random_dna_of(seed, sender, index), reserved)
    }

    /// The calls that `create` makes.
    pub open spec fn create_calls<E>(
        self,
        sender: AccountId,
        seed: Seq<u8>,
        index: Option<u32>,
        reserved: Result<(), E>,
    ) -> Seq<OutsideCall<E>> {
        PalletState::random_calls(seed, index) + self.new_kitty_calls(sender, reserved)
    }

    /// Why `breed` of kitties `id_1` and `id_2` is refused before any call
    /// into the runtime, if it is.
    pub open spec fn breed_check(self, id_1: KittyIndex, id_2: KittyIndex) -> Option<Error> {
        if id_1 == id_2 {
            Some(Error::SameKittyId)
        } else if !self.kitties.contains_key(id_1) || !self.kitties.contains_key(id_2) {
            Some(Error::InvalidKittyId)
        } else {
            None
        }
    }

    /// `breed` of kitties `id_1` and `id_2` by `sender`, given the runtime's
    /// answers: the child's DNA mixes the parents' under a random selector.
    pub open spec fn breed_outcome<E>(
        self,
        sender: AccountId,
        id_1: KittyIndex,
        id_2: KittyIndex,
        seed: Seq<u8>,
        index: Option<u32>,
        reserved: Result<(), E>,
    ) -> (Result<(), Error>, PalletState) {
        match self.breed_check(id_1, id_2) {
            Some(e) => (Err(e), self),
            None => self.new_kitty_outcome(
                sender,
                mix_dna(self.kitties[id_1], self.kitties[id_2], random_dna_of(seed, sender, index)),
                reserved,
            ),
        }
    }

    /// The calls that `breed` makes.
    pub open spec fn breed_calls<E>(
        self,
        sender: AccountId,
        id_1: KittyIndex,
        id_2: KittyIndex,
        seed: Seq<u8>,
        index: Option<u32>,
        reserved: Result<(), E>,
    ) -> Seq<OutsideCall<E>> {
        match self.breed_check(id_1, id_2) {
            Some(_) => Seq::empty(),
            None => PalletState::random_calls(seed, index) + self.new_kitty_calls(sender, reserved),
        }
    }

    /// Why `sender` may not give kitty `id` away, if they may not.
    pub open spec fn owner_check(self, sender: AccountId, id: KittyIndex) -> Option<Error> {
        if self.owners.get(id) == Some(sender) {
            None
        } else {
            Some(Error::NotOwner)
        }
    }

    /// Why `transfer` of kitty `id` by `sender` is refused before any call
    /// into the runtime, if it is.
    pub open spec fn transfer_check(self, sender: AccountId, id: KittyIndex) -> Option<Error> {
        if !self.kitties.contains_key(id) {
            Some(Error::InvalidKittyId)
        } else {
            self.owner_check(sender, id)
        }
    }

    /// `transfer` of kitty `id` from `sender` to `new_owner`, given the
    /// runtime's answer to the reservation of the new owner's stake.
    pub open spec fn transfer_outcome<E>(
        self,
        sender: AccountId,
        id: KittyIndex,
        new_owner: AccountId,
        reserved: Result<(), E>,
    ) -> (Result<(), Error>, PalletState) {
        match self.transfer_check(sender, id) {
            Some(e) => (Err(e), self),
            None => if reserved is Err {
                (Err(Error::NotEnoughBalance), self)
            } else {
                (Ok(()), self.with_owner(id, sender, new_owner))
            },
        }
    }

    /// The calls that `transfer` makes: the new owner's stake is reserved,
    /// then the old owner's is released.
    pub open spec fn transfer_calls<E>(
        self,
        sender: AccountId,
        id: KittyIndex,
        new_owner: AccountId,
        reserved: Result<(), E>,
        remaining: Balance,
    ) -> Seq<OutsideCall<E>> {
        let reserve = OutsideCall::Reserve { who: new_owner, value: self.kitty_stake, result: reserved };
        match self.transfer_check(sender, id) {
            Some(_) => Seq::empty(),
            None => if reserved is Err {
                seq![reserve]
            } else {
                seq![
                    reserve,
                    OutsideCall::Unreserve { who: sender, value: self.kitty_stake, remaining },
                ]
            },
        }
    }

    /// `sell` of kitty `id` by `seller` at `price`: only its owner may set
    /// its price.
    pub open spec fn sell_outcome(self, seller: AccountId, id: KittyIndex, price: Option<Balance>) -> (
        Result<(), Error>,
        PalletState,
    ) {
        match self.owner_check(seller, id) {
            Some(e) => (Err(e), self),
            None => (
                Ok(()),
                PalletState {
                    shop: self.shop.insert(id, price),
                    events: self.events.push(Event::KittyInSell(seller, id, price)),
                    ..self
                },
            ),
        }
    }

    /// Why `buy` of kitty `id` by `buyer` is refused before any call into
    /// the runtime, if it is.
    pub open spec fn buy_check(self, buyer: AccountId, id: KittyIndex) -> Option<Error> {
        if !self.owners.contains_key(id) {
            Some(Error::InvalidKittyId)
        } else if self.owners[id] == buyer {
            Some(Error::NoBuySelf)
        } else if self.price(id) is None {
            Some(Error::NotForSale)
        } else {
            None
        }
    }

    /// Whether the price of kitty `id` plus the stake overflows a balance
    /// where `buy` by `buyer` adds them up.
    pub open spec fn buy_sum_overflows(self, buyer: AccountId, id: KittyIndex) -> bool {
        self.buy_check(buyer, id) is None && self.price(id)->0 + self.kitty_stake > u128::MAX
    }

    /// Whether a buyer with free balance `balance` can pay the price of
    /// kitty `id` and the stake, with something left over.
    pub open spec fn can_pay(self, id: KittyIndex, balance: Balance) -> bool {
        balance > self.price(id)->0 + self.kitty_stake
    }

    /// `buy` of kitty `id` by `buyer`, given the runtime's answers: the
    /// buyer's free balance, the reservation of the buyer's stake, and the
    /// payment of the price to the seller, whose error comes back as it is.
    pub open spec fn buy_outcome<E>(
        self,
        buyer: AccountId,
        id: KittyIndex,
        balance: Balance,
        reserved: Result<(), E>,
        paid: Result<(), E>,
    ) -> (Result<(), DispatchError<E>>, PalletState) {
        match self.buy_check(buyer, id) {
            Some(e) => (Err(DispatchError::Module(e)), self),
            None => if !self.can_pay(id, balance) || reserved is Err {
                (Err(DispatchError::Module(Error::NotEnoughBalance)), self)
            } else {
                match paid {
                    Err(e) => (Err(DispatchError::Currency(e)), self),
                    Ok(()) => (Ok(()), self.with_owner(id, self.owners[id], buyer)),
                }
            },
        }
    }

    /// The calls that `buy` makes: the buyer's free balance is read, the
    /// buyer's stake reserved, the seller's released, and the price paid to
    /// the seller.
    pub open spec fn buy_calls<E>(
        self,
        buyer: AccountId,
        id: KittyIndex,
        balance: Balance,
        reserved: Result<(), E>,
        remaining: Balance,
        paid: Result<(), E>,
    ) -> Seq<OutsideCall<E>> {
        let seller = self.owners[id];
        let price = self.price(id)->0;
        let read = seq![OutsideCall::FreeBalance { account: buyer, balance }];
        let reserve = seq![OutsideCall::Reserve { who: buyer, value: self.kitty_stake, result: reserved }];
        let settle = seq![
            OutsideCall::Unreserve { who: seller, value: self.kitty_stake, remaining },
            OutsideCall::Transfer {
                source: buyer,
                dest: seller,
                value: price,
                requirement: ExistenceRequirement::KeepAlive,
                result: paid,
            },
        ];
        match self.buy_check(buyer, id) {
            Some(_) => Seq::empty(),
            None => if !self.can_pay(id, balance) {
                read
            } else if reserved is Err {
                read + reserve
            } else {
                read + reserve + settle
            },
        }
    }
}

} // verus!
