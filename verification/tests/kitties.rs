use pallet_kitties::dna::{breed_dna, encode_random_payload, random_dna};
use pallet_kitties::pallet::Pallet;
use pallet_kitties::runtime::{Config, Env};
use pallet_kitties::types::{
    AccountId, Balance, DispatchError, Error, Event, ExistenceRequirement, GetDefaultValue, Kitty,
    KittyIndex,
};
use std::collections::HashMap;

const STAKE: Balance = 200;
const MAX_KITTY_INDEX: u32 = 1_000;

/// A runtime with a balances ledger, a fixed random seed and a counter of
/// extrinsics.
#[derive(Clone, Debug, PartialEq)]
struct MockRuntime {
    free: HashMap<AccountId, Balance>,
    reserved: HashMap<AccountId, Balance>,
    existential_deposit: Balance,
    seed: Vec<u8>,
    next_extrinsic: u32,
}

impl MockRuntime {
    fn new() -> Self {
        let mut free = HashMap::new();
        free.insert(1, 1_000_000);
        free.insert(2, 10_000);
        free.insert(3, 100);
        free.insert(4, 700);
        free.insert(5, 100);
        MockRuntime {
            free,
            reserved: HashMap::new(),
            existential_deposit: 1,
            seed: (0u8..40).collect(),
            next_extrinsic: 0,
        }
    }

    fn free_of(&self, who: AccountId) -> Balance {
        *self.free.get(&who).unwrap_or(&0)
    }

    fn reserved_of(&self, who: AccountId) -> Balance {
        *self.reserved.get(&who).unwrap_or(&0)
    }
}

impl Config for MockRuntime {
    type CurrencyError = &'static str;

    // What each call does to the mock: the call itself, on a copy.
    fn random_seed_spec(&self, seed: Vec<u8>, after: Self) -> bool {
        let mut runtime = self.clone();
        runtime.random_seed() == seed && runtime == after
    }

    fn extrinsic_index_spec(&self, index: Option<u32>, after: Self) -> bool {
        let mut runtime = self.clone();
        runtime.extrinsic_index() == index && runtime == after
    }

    fn free_balance_spec(&self, who: AccountId, balance: Balance, after: Self) -> bool {
        let mut runtime = self.clone();
        runtime.free_balance(who) == balance && runtime == after
    }

    fn reserve_spec(
        &self,
        who: AccountId,
        value: Balance,
        result: Result<(), &'static str>,
        after: Self,
    ) -> bool {
        let mut runtime = self.clone();
        runtime.reserve(who, value) == result && runtime == after
    }

    fn unreserve_spec(&self, who: AccountId, value: Balance, remaining: Balance, after: Self) -> bool {
        let mut runtime = self.clone();
        runtime.unreserve(who, value) == remaining && runtime == after
    }

    fn transfer_spec(
        &self,
        source: AccountId,
        dest: AccountId,
        value: Balance,
        requirement: ExistenceRequirement,
        result: Result<(), &'static str>,
        after: Self,
    ) -> bool {
        let mut runtime = self.clone();
        runtime.transfer(source, dest, value, requirement) == result && runtime == after
    }

    fn random_seed(&mut self) -> Vec<u8> {
        self.seed.clone()
    }

    fn extrinsic_index(&mut self) -> Option<u32> {
        let index = self.next_extrinsic;
        self.next_extrinsic += 1;
        Some(index)
    }

    fn free_balance(&mut self, who: AccountId) -> Balance {
        self.free_of(who)
    }

    fn reserve(&mut self, who: AccountId, value: Balance) -> Result<(), &'static str> {
        let free = self.free_of(who);
        if free < value {
            return Err("InsufficientBalance");
        }
        self.free.insert(who, free - value);
        let reserved = self.reserved_of(who);
        self.reserved.insert(who, reserved + value);
        Ok(())
    }

    fn unreserve(&mut self, who: AccountId, value: Balance) -> Balance {
        let reserved = self.reserved_of(who);
        let moved = reserved.min(value);
        self.reserved.insert(who, reserved - moved);
        let free = self.free_of(who);
        self.free.insert(who, free + moved);
        value - moved
    }

    fn transfer(
        &mut self,
        source: AccountId,
        dest: AccountId,
        value: Balance,
        existence_requirement: ExistenceRequirement,
    ) -> Result<(), &'static str> {
        let free = self.free_of(source);
        if free < value {
            return Err("InsufficientBalance");
        }
        if existence_requirement == ExistenceRequirement::KeepAlive
            && free - value < self.existential_deposit
        {
            return Err("KeepAlive");
        }
        self.free.insert(source, free - value);
        let dest_free = self.free_of(dest);
        self.free.insert(dest, dest_free + value);
        Ok(())
    }
}

fn new_test_ext() -> (Pallet, Env<MockRuntime>) {
    (Pallet::new(STAKE, MAX_KITTY_INDEX), Env::new(MockRuntime::new()))
}

/// Runs a call as the chain does: what the runtime did is undone where
/// the call fails.
fn transactional<T, E>(
    env: &mut Env<MockRuntime>,
    call: impl FnOnce(&mut Env<MockRuntime>) -> Result<T, E>,
) -> Result<T, E> {
    let before = env.runtime().clone();
    let result = call(env);
    if result.is_err() {
        *env = Env::new(before);
    }
    result
}

type Observed = (KittyIndex, Vec<Event>, Vec<(Option<Kitty>, Option<AccountId>, Option<Balance>)>);

fn observe(pallet: &Pallet, ids: &[KittyIndex]) -> Observed {
    (
        pallet.last_kitty_id(),
        pallet.events().to_vec(),
        ids.iter()
            .map(|id| {
                (pallet.kitties_info(*id), pallet.kitty_owner(*id), pallet.kitties_list_for_sales(*id))
            })
            .collect(),
    )
}

fn has_event(pallet: &Pallet, event: Event) -> bool {
    pallet.events().contains(&event)
}

fn create(pallet: &mut Pallet, env: &mut Env<MockRuntime>, who: AccountId) -> Result<(), Error> {
    transactional(env, |env| pallet.create(env, who))
}

fn breed(
    pallet: &mut Pallet,
    env: &mut Env<MockRuntime>,
    who: AccountId,
    id_1: KittyIndex,
    id_2: KittyIndex,
) -> Result<(), Error> {
    transactional(env, |env| pallet.breed(env, who, id_1, id_2))
}

fn transfer(
    pallet: &mut Pallet,
    env: &mut Env<MockRuntime>,
    who: AccountId,
    id: KittyIndex,
    new_owner: AccountId,
) -> Result<(), Error> {
    transactional(env, |env| pallet.transfer(env, who, id, new_owner))
}

fn buy(
    pallet: &mut Pallet,
    env: &mut Env<MockRuntime>,
    who: AccountId,
    id: KittyIndex,
) -> Result<(), DispatchError<&'static str>> {
    transactional(env, |env| pallet.buy(env, who, id))
}

/// A refused call leaves the pallet and the runtime as they were.
fn assert_noop(
    pallet: &mut Pallet,
    env: &mut Env<MockRuntime>,
    expected: Error,
    call: impl FnOnce(&mut Pallet, &mut Env<MockRuntime>) -> Result<(), Error>,
) {
    let ids: Vec<KittyIndex> = (0..8).chain([u32::MAX - 2, u32::MAX - 1, u32::MAX]).collect();
    let before = observe(pallet, &ids);
    let runtime_before = env.runtime().clone();
    assert_eq!(call(pallet, env), Err(expected));
    assert_eq!(observe(pallet, &ids), before);
    assert_eq!(env.runtime().free, runtime_before.free);
    assert_eq!(env.runtime().reserved, runtime_before.reserved);
}

// ---------------------------------------------------------------- create

#[test]
fn create_works() {
    let (mut pallet, mut env) = new_test_ext();
    let accound_id: u64 = 1;
    let kitty_id = 1u32;
    assert_eq!(create(&mut pallet, &mut env, accound_id), Ok(()));
    assert_eq!(pallet.kitty_owner(kitty_id), Some(accound_id));
    assert!(has_event(&pallet, Event::KittyCreated(accound_id, kitty_id)));
}

#[test]
fn create_kitty_failed_count_overflow() {
    let (mut pallet, mut env) = new_test_ext();
    assert!(pallet.set_last_kitty_id(u32::max_value()));
    let account_id = 1;
    assert_noop(&mut pallet, &mut env, Error::KittyIdOverflow, |p, e| create(p, e, account_id));
}

#[test]
fn create_kitty_failed_not_enough_balance_for_staking() {
    let (mut pallet, mut env) = new_test_ext();
    let account_id: u64 = 100;
    assert_noop(&mut pallet, &mut env, Error::NotEnoughBalance, |p, e| create(p, e, account_id));
}

#[test]
fn test_kitty_next_id() {
    let (mut pallet, mut env) = new_test_ext();
    let account_id: u64 = 1;
    assert_eq!(create(&mut pallet, &mut env, account_id), Ok(()));
    assert_eq!(create(&mut pallet, &mut env, account_id), Ok(()));
    assert_eq!(pallet.last_kitty_id(), 2);
}

#[test]
fn test_stack_count() {
    let (pallet, _env) = new_test_ext();
    assert_eq!(pallet.kitty_stake(), 200);
}

#[test]
fn create_failed_not_enough_balance() {
    let (mut pallet, mut env) = new_test_ext();
    let account_id: u64 = 3;
    assert_noop(&mut pallet, &mut env, Error::NotEnoughBalance, |p, e| create(p, e, account_id));
}

#[test]
fn create_failed_overflow_id() {
    let (mut pallet, mut env) = new_test_ext();
    assert!(pallet.set_last_kitty_id(u32::max_value()));
    let account_id: u64 = 1;
    assert_noop(&mut pallet, &mut env, Error::KittyIdOverflow, |p, e| create(p, e, account_id));
}

// ---------------------------------------------------------------- breed

#[test]
fn breed_works() {
    let (mut pallet, mut env) = new_test_ext();
    let accound_id: u64 = 1;
    let kitty_id_1 = 1u32;
    let kitty_id_2 = 2u32;
    let kitty_id_3: u32 = 3u32;
    assert_eq!(create(&mut pallet, &mut env, accound_id), Ok(()));
    assert_eq!(create(&mut pallet, &mut env, accound_id), Ok(()));
    assert_eq!(breed(&mut pallet, &mut env, accound_id, kitty_id_1, kitty_id_2), Ok(()));
    assert!(has_event(&pallet, Event::KittyCreated(accound_id, kitty_id_3)));
}

#[test]
fn test_breed_failed_same_parent() {
    let (mut pallet, mut env) = new_test_ext();
    let accound_id: u64 = 1;
    let kitty_id_1 = 1u32;
    assert_eq!(create(&mut pallet, &mut env, accound_id), Ok(()));
    assert_noop(&mut pallet, &mut env, Error::SameKittyId, |p, e| {
        breed(p, e, accound_id, kitty_id_1, kitty_id_1)
    });
}

#[test]
fn tests_breed_failed_same_parent() {
    let (mut pallet, mut env) = new_test_ext();
    let account_id: u64 = 1;
    let kitty_id_1 = 1u32;
    assert_eq!(create(&mut pallet, &mut env, account_id), Ok(()));
    assert_noop(&mut pallet, &mut env, Error::SameKittyId, |p, e| {
        breed(p, e, account_id, kitty_id_1, kitty_id_1)
    });
}

#[test]
fn breed_failed_invalid_kitty_index() {
    let (mut pallet, mut env) = new_test_ext();
    let accound_id: u64 = 1;
    let kitty_id_1 = 1u32;
    let kitty_id_2 = 2u32;
    assert_noop(&mut pallet, &mut env, Error::InvalidKittyId, |p, e| {
        breed(p, e, accound_id, kitty_id_1, kitty_id_2)
    });
}

#[test]
fn breed_failed_not_enough_balance_for_staking() {
    let (mut pallet, mut env) = new_test_ext();
    let accound_id: u64 = 1;
    let other_account_id: u64 = 100;
    let kitty_id_1 = 1u32;
    let kitty_id_2 = 2u32;
    assert_eq!(create(&mut pallet, &mut env, accound_id), Ok(()));
    assert_eq!(create(&mut pallet, &mut env, accound_id), Ok(()));
    assert_noop(&mut pallet, &mut env, Error::NotEnoughBalance, |p, e| {
        breed(p, e, other_account_id, kitty_id_1, kitty_id_2)
    });
}

// ---------------------------------------------------------------- sell

#[test]
fn sell_works() {
    let (mut pallet, mut env) = new_test_ext();
    let account_id: u64 = 1;
    let kitty_id = 1u32;
    let price = 100u128;
    assert_eq!(create(&mut pallet, &mut env, account_id), Ok(()));
    assert_eq!(pallet.sell(account_id, kitty_id, Some(price)), Ok(()));
    assert_eq!(pallet.kitties_list_for_sales(kitty_id), Some(price));
    assert!(has_event(&pallet, Event::KittyInSell(account_id, kitty_id, Some(price))));
}

#[test]
fn test_sell_failed_not_owner() {
    let (mut pallet, mut env) = new_test_ext();
    let accound_id: u64 = 1;
    let other_account_id: u64 = 100;
    let kitty_id = 1u32;
    let price = 100u128;
    assert_eq!(create(&mut pallet, &mut env, accound_id), Ok(()));
    assert_noop(&mut pallet, &mut env, Error::NotOwner, |p, _| {
        p.sell(other_account_id, kitty_id, Some(price))
    });
}

#[test]
fn sell_success() {
    let (mut pallet, mut env) = new_test_ext();
    let account_id: u64 = 1;
    let kitty_id = 1u32;
    let price = 100u128;
    assert_eq!(create(&mut pallet, &mut env, account_id), Ok(()));
    assert_eq!(pallet.sell(account_id, kitty_id, Some(price)), Ok(()));
    assert_eq!(pallet.kitties_list_for_sales(kitty_id), Some(price));
    assert!(has_event(&pallet, Event::KittyInSell(account_id, kitty_id, Some(price))));
}

// ---------------------------------------------------------------- transfer

#[test]
fn transfer_works() {
    let (mut pallet, mut env) = new_test_ext();
    let account_id_1: u64 = 1;
    let account_id_2: u64 = 2;
    let kitty_id = 1u32;
    assert_eq!(create(&mut pallet, &mut env, account_id_1), Ok(()));
    assert_eq!(transfer(&mut pallet, &mut env, account_id_1, kitty_id, account_id_2), Ok(()));
    assert!(has_event(&pallet, Event::KittyTransferred(account_id_1, account_id_2, kitty_id)));
}

#[test]
fn test_transfer_failed_not_owner() {
    let (mut pallet, mut env) = new_test_ext();
    let account_id_1: u64 = 1;
    let account_id_2: u64 = 2;
    let account_id_3: u64 = 3;
    let kitty_id = 1u32;
    assert_eq!(create(&mut pallet, &mut env, account_id_1), Ok(()));
    assert_noop(&mut pallet, &mut env, Error::NotOwner, |p, e| {
        transfer(p, e, account_id_2, kitty_id, account_id_3)
    });
}

#[test]
fn tests_transfer_failed_not_owner() {
    let (mut pallet, mut env) = new_test_ext();
    let account_id_1: u64 = 1;
    let account_id_2: u64 = 2;
    let account_id_3: u64 = 3;
    let kitty_id = 1u32;
    assert_eq!(create(&mut pallet, &mut env, account_id_1), Ok(()));
    assert_noop(&mut pallet, &mut env, Error::NotOwner, |p, e| {
        transfer(p, e, account_id_2, kitty_id, account_id_3)
    });
}

#[test]
fn transfer_failed_not_enough_balance_for_staking() {
    let (mut pallet, mut env) = new_test_ext();
    let account_id_1: u64 = 1;
    let account_id_5: u64 = 5;
    let kitty_id = 1u32;
    assert_eq!(create(&mut pallet, &mut env, account_id_1), Ok(()));
    assert_noop(&mut pallet, &mut env, Error::NotEnoughBalance, |p, e| {
        transfer(p, e, account_id_1, kitty_id, account_id_5)
    });
}

// ---------------------------------------------------------------- buy

#[test]
fn buy_works() {
    let (mut pallet, mut env) = new_test_ext();
    let account_id_1: u64 = 1;
    let account_id_2: u64 = 2;
    let kitty_id = 1u32;
    let price: u128 = 1000;
    assert_eq!(create(&mut pallet, &mut env, account_id_1), Ok(()));
    assert_eq!(pallet.sell(account_id_1, kitty_id, Some(price)), Ok(()));
    assert_eq!(buy(&mut pallet, &mut env, account_id_2, kitty_id), Ok(()));
    assert!(has_event(&pallet, Event::KittyTransferred(account_id_1, account_id_2, kitty_id)));
}

fn assert_buy_noop(
    pallet: &mut Pallet,
    env: &mut Env<MockRuntime>,
    expected: Error,
    who: AccountId,
    id: KittyIndex,
) {
    assert_noop(pallet, env, expected, |p, e| match buy(p, e, who, id) {
        Ok(()) => Ok(()),
        Err(DispatchError::Module(err)) => Err(err),
        Err(DispatchError::Currency(_)) => panic!("the currency refused"),
    });
}

#[test]
fn buy_failed_buyer_is_owner() {
    let (mut pallet, mut env) = new_test_ext();
    let account_id_1: u64 = 1;
    let kitty_id = 1u32;
    let price: u128 = 1000;
    assert_eq!(create(&mut pallet, &mut env, account_id_1), Ok(()));
    assert_eq!(pallet.sell(account_id_1, kitty_id, Some(price)), Ok(()));
    assert_buy_noop(&mut pallet, &mut env, Error::NoBuySelf, account_id_1, kitty_id);
}

#[test]
fn buy_failed_not_for_sell() {
    let (mut pallet, mut env) = new_test_ext();
    let account_id_1: u64 = 1;
    let account_id_2: u64 = 2;
    let kitty_id = 1u32;
    assert_eq!(create(&mut pallet, &mut env, account_id_1), Ok(()));
    assert_buy_noop(&mut pallet, &mut env, Error::NotForSale, account_id_2, kitty_id);
}

#[test]
fn buy_failed_buyer_not_enough_balance_for_buying() {
    let (mut pallet, mut env) = new_test_ext();
    let account_id_1: u64 = 1;
    let account_id_3: u64 = 3;
    let kitty_id = 1u32;
    let price: u128 = 100000;
    assert_eq!(create(&mut pallet, &mut env, account_id_1), Ok(()));
    assert_eq!(pallet.sell(account_id_1, kitty_id, Some(price)), Ok(()));
    assert_buy_noop(&mut pallet, &mut env, Error::NotEnoughBalance, account_id_3, kitty_id);
}

// ---------------------------------------------------------------- kitty indices
// The first kitty gets index 1, and every new kitty the index after the
// last one.

#[test]
fn create_success() {
    let (mut pallet, mut env) = new_test_ext();
    let account_id: u64 = 1;
    // the first kitty has index 1
    let kitty_id = 1u32;
    assert_eq!(create(&mut pallet, &mut env, account_id), Ok(()));
    assert_eq!(pallet.kitty_owner(kitty_id), Some(account_id));
    assert!(has_event(&pallet, Event::KittyCreated(account_id, kitty_id)));
}

#[test]
fn breed_success() {
    let (mut pallet, mut env) = new_test_ext();
    let account_id: u64 = 1;
    // the parents are the first two kitties, the child the third
    let kitty_id_1 = 1u32;
    let kitty_id_2 = 2u32;
    let kitty_id_3: u32 = 3u32;
    assert_eq!(create(&mut pallet, &mut env, account_id), Ok(()));
    assert_eq!(create(&mut pallet, &mut env, account_id), Ok(()));
    assert_eq!(breed(&mut pallet, &mut env, account_id, kitty_id_1, kitty_id_2), Ok(()));
    assert_eq!(pallet.kitty_owner(kitty_id_3), Some(account_id));
    assert!(has_event(&pallet, Event::KittyCreated(account_id, kitty_id_3)));
}

#[test]
fn breed_failed_not_enough_balance() {
    let (mut pallet, mut env) = new_test_ext();
    let account_id: u64 = 4;
    // the first two of the three kitties are the parents
    let kitty_id_1 = 1u32;
    let kitty_id_2 = 2u32;
    assert_eq!(create(&mut pallet, &mut env, account_id), Ok(()));
    assert_eq!(create(&mut pallet, &mut env, account_id), Ok(()));
    assert_eq!(create(&mut pallet, &mut env, account_id), Ok(()));
    assert_noop(&mut pallet, &mut env, Error::NotEnoughBalance, |p, e| {
        breed(p, e, account_id, kitty_id_1, kitty_id_2)
    });
}

#[test]
fn breed_failed_count_overflow() {
    let (mut pallet, mut env) = new_test_ext();
    assert!(pallet.set_last_kitty_id(u32::max_value() - 2));
    let accound_id: u64 = 1;
    // the two kitties get indices MAX - 1 and MAX, after which the next
    // index does not fit
    let kitty_id_1 = u32::max_value() - 1;
    let kitty_id_2 = u32::max_value();
    assert_eq!(create(&mut pallet, &mut env, accound_id), Ok(()));
    assert_eq!(create(&mut pallet, &mut env, accound_id), Ok(()));
    assert_noop(&mut pallet, &mut env, Error::KittyIdOverflow, |p, e| {
        breed(p, e, accound_id, kitty_id_1, kitty_id_2)
    });
}

#[test]
fn transfer_success() {
    let (mut pallet, mut env) = new_test_ext();
    let account_id_1: u64 = 1;
    let account_id_2: u64 = 2;
    // the first kitty has index 1
    let kitty_id = 1u32;
    assert_eq!(create(&mut pallet, &mut env, account_id_1), Ok(()));
    assert_eq!(transfer(&mut pallet, &mut env, account_id_1, kitty_id, account_id_2), Ok(()));
    assert!(has_event(&pallet, Event::KittyTransferred(account_id_1, account_id_2, kitty_id)));
}

#[test]
fn transfer_failed_buyer_not_enough_balance() {
    let (mut pallet, mut env) = new_test_ext();
    let account_id_1: u64 = 1;
    let account_id_5: u64 = 5;
    // the first kitty has index 1
    let kitty_id = 1u32;
    assert_eq!(create(&mut pallet, &mut env, account_id_1), Ok(()));
    assert_noop(&mut pallet, &mut env, Error::NotEnoughBalance, |p, e| {
        transfer(p, e, account_id_1, kitty_id, account_id_5)
    });
}

#[test]
fn tests_sell_failed_not_owner() {
    let (mut pallet, mut env) = new_test_ext();
    let account_id: u64 = 1;
    let othere_account_id: u64 = 100;
    let kitty_id = 1u32;
    let price = 100u128;
    assert_eq!(create(&mut pallet, &mut env, account_id), Ok(()));
    // another account than the owner tries to sell
    assert_noop(&mut pallet, &mut env, Error::NotOwner, |p, _| {
        p.sell(othere_account_id, kitty_id, Some(price))
    });
}

#[test]
fn buy_success() {
    let (mut pallet, mut env) = new_test_ext();
    let account_id_1: u64 = 1;
    let account_id_2: u64 = 2;
    let kitty_id = 1u32;
    let price = 1000u128;
    assert_eq!(create(&mut pallet, &mut env, account_id_1), Ok(()));
    assert_eq!(pallet.kitty_owner(kitty_id), Some(account_id_1));
    assert_eq!(pallet.sell(account_id_1, kitty_id, Some(price)), Ok(()));
    // account 2 buys the listed kitty
    assert_eq!(buy(&mut pallet, &mut env, account_id_2, kitty_id), Ok(()));
    assert_eq!(pallet.kitty_owner(kitty_id), Some(account_id_2));
    // the sale is reported as a transfer from the seller to the buyer
    assert!(has_event(&pallet, Event::KittyTransferred(account_id_1, account_id_2, kitty_id)));
}

// ---------------------------------------------------------------- more of the pallet

#[test]
fn default_last_kitty_id_is_zero() {
    assert_eq!(GetDefaultValue(), 0);
    let (pallet, _env) = new_test_ext();
    assert_eq!(pallet.last_kitty_id(), 0);
    assert_eq!(pallet.max_kitty_index(), MAX_KITTY_INDEX);
    assert!(pallet.events().is_empty());
    assert_eq!(pallet.kitty_of_id(1), Err(()));
}

#[test]
fn create_reserves_the_stake_and_mints_the_next_index() {
    let (mut pallet, mut env) = new_test_ext();
    assert_eq!(create(&mut pallet, &mut env, 4), Ok(()));
    assert_eq!(create(&mut pallet, &mut env, 4), Ok(()));
    assert_eq!(create(&mut pallet, &mut env, 4), Ok(()));
    assert_eq!(env.runtime().reserved_of(4), 600);
    assert_eq!(env.runtime().free_of(4), 100);
    assert_eq!(pallet.last_kitty_id(), 3);
    for id in 1..=3 {
        assert_eq!(pallet.kitty_owner(id), Some(4));
        assert!(pallet.kitty_of_id(id).is_ok());
    }
    assert_noop(&mut pallet, &mut env, Error::NotEnoughBalance, |p, e| create(p, e, 4));
}

#[test]
fn created_dna_is_the_hash_of_seed_sender_and_extrinsic() {
    let (mut pallet, mut env) = new_test_ext();
    let seed = env.runtime().seed.clone();
    assert_eq!(create(&mut pallet, &mut env, 1), Ok(()));
    let mut payload = seed.clone();
    payload.extend_from_slice(&1u64.to_le_bytes());
    payload.push(1);
    payload.extend_from_slice(&0u32.to_le_bytes());
    let expected = sp_io::hashing::blake2_128(&payload);
    assert_eq!(pallet.kitties_info(1), Some(Kitty { dna: expected }));
}

#[test]
fn overflow_is_refused_after_the_last_index() {
    let (mut pallet, mut env) = new_test_ext();
    assert!(pallet.set_last_kitty_id(u32::MAX - 1));
    assert!(!pallet.set_last_kitty_id(5));
    assert_eq!(create(&mut pallet, &mut env, 1), Ok(()));
    assert_eq!(pallet.last_kitty_id(), u32::MAX);
    assert_eq!(pallet.kitty_owner(u32::MAX), Some(1));
    assert_noop(&mut pallet, &mut env, Error::KittyIdOverflow, |p, e| create(p, e, 1));
}

#[test]
fn the_mock_meets_its_relations() {
    let runtime = MockRuntime::new();
    let mut after = runtime.clone();
    let result = after.reserve(1, 200);
    assert!(runtime.reserve_spec(1, 200, result, after.clone()));
    assert!(!runtime.reserve_spec(1, 200, Err("InsufficientBalance"), after.clone()));
    let mut later = after.clone();
    let result = later.transfer(1, 2, 5, ExistenceRequirement::KeepAlive);
    assert!(after.transfer_spec(1, 2, 5, ExistenceRequirement::KeepAlive, result, later.clone()));
    assert!(!after.transfer_spec(1, 2, 5, ExistenceRequirement::KeepAlive, result, after.clone()));
}

#[test]
fn overflow_is_refused_after_the_stake() {
    let (mut pallet, mut env) = new_test_ext();
    assert!(pallet.set_last_kitty_id(u32::MAX));
    // a sender who cannot pay the stake is refused for want of balance
    assert_noop(&mut pallet, &mut env, Error::NotEnoughBalance, |p, e| create(p, e, 100));
    // outside a transaction, the stake of a sender who can pay stays
    // reserved when the index does not fit
    assert_eq!(pallet.create(&mut env, 1), Err(Error::KittyIdOverflow));
    assert_eq!(env.runtime().reserved_of(1), 200);
    assert_eq!(pallet.kitty_owner(u32::MAX), None);
    assert_eq!(pallet.last_kitty_id(), u32::MAX);
}

#[test]
fn breeding_meets_the_same_index_limit() {
    let (mut pallet, mut env) = new_test_ext();
    assert!(pallet.set_last_kitty_id(u32::MAX - 2));
    assert_eq!(create(&mut pallet, &mut env, 1), Ok(()));
    assert_eq!(create(&mut pallet, &mut env, 1), Ok(()));
    assert_noop(&mut pallet, &mut env, Error::KittyIdOverflow, |p, e| {
        breed(p, e, 1, u32::MAX - 1, u32::MAX)
    });
}

#[test]
fn breed_mixes_the_parents_dna() {
    let (mut pallet, mut env) = new_test_ext();
    assert_eq!(create(&mut pallet, &mut env, 1), Ok(()));
    assert_eq!(create(&mut pallet, &mut env, 1), Ok(()));
    let dna_1 = pallet.kitties_info(1).unwrap().dna;
    let dna_2 = pallet.kitties_info(2).unwrap().dna;
    // the selector is drawn for the breeder in the third extrinsic
    let selector = random_dna(&env.runtime().seed, 7, Some(2));
    assert_eq!(breed(&mut pallet, &mut env, 7, 1, 2), Err(Error::NotEnoughBalance));
    assert_eq!(breed(&mut pallet, &mut env, 2, 1, 2), Ok(()));
    let selector_2 = random_dna(&env.runtime().seed, 2, Some(2));
    assert_ne!(selector, selector_2);
    let child = pallet.kitties_info(3).unwrap().dna;
    assert_eq!(pallet.kitty_owner(3), Some(2));
    for i in 0..16 {
        assert_eq!(child[i] & selector_2[i], dna_1[i] & selector_2[i]);
        assert_eq!(child[i] & !selector_2[i], dna_2[i] & !selector_2[i]);
    }
    assert_eq!(child, breed_dna(&dna_1, &dna_2, &selector_2));
}

#[test]
fn breed_needs_no_ownership_of_the_parents() {
    let (mut pallet, mut env) = new_test_ext();
    assert_eq!(create(&mut pallet, &mut env, 1), Ok(()));
    assert_eq!(create(&mut pallet, &mut env, 1), Ok(()));
    assert_eq!(breed(&mut pallet, &mut env, 2, 2, 1), Ok(()));
    assert_eq!(pallet.kitty_owner(3), Some(2));
    assert_eq!(pallet.kitty_owner(1), Some(1));
    assert_eq!(pallet.events().last(), Some(&Event::KittyCreated(2, 3)));
}

#[test]
fn breed_refuses_a_missing_second_parent() {
    let (mut pallet, mut env) = new_test_ext();
    assert_eq!(create(&mut pallet, &mut env, 1), Ok(()));
    assert_noop(&mut pallet, &mut env, Error::InvalidKittyId, |p, e| breed(p, e, 1, 1, 9));
}

#[test]
fn transfer_moves_the_stake() {
    let (mut pallet, mut env) = new_test_ext();
    assert_eq!(create(&mut pallet, &mut env, 1), Ok(()));
    assert_eq!(transfer(&mut pallet, &mut env, 1, 1, 2), Ok(()));
    assert_eq!(pallet.kitty_owner(1), Some(2));
    assert_eq!(env.runtime().reserved_of(1), 0);
    assert_eq!(env.runtime().reserved_of(2), 200);
    assert_eq!(env.runtime().free_of(1), 1_000_000);
    assert_eq!(env.runtime().free_of(2), 9_800);
    // the old owner can no longer give it away
    assert_noop(&mut pallet, &mut env, Error::NotOwner, |p, e| transfer(p, e, 1, 1, 3));
}

#[test]
fn transfer_refuses_a_missing_kitty() {
    let (mut pallet, mut env) = new_test_ext();
    assert_noop(&mut pallet, &mut env, Error::InvalidKittyId, |p, e| transfer(p, e, 1, 1, 2));
}

#[test]
fn sell_can_take_the_price_away() {
    let (mut pallet, mut env) = new_test_ext();
    assert_eq!(create(&mut pallet, &mut env, 1), Ok(()));
    assert_eq!(pallet.sell(1, 1, Some(5)), Ok(()));
    assert_eq!(pallet.sell(1, 1, None), Ok(()));
    assert_eq!(pallet.kitties_list_for_sales(1), None);
    assert_eq!(pallet.events().last(), Some(&Event::KittyInSell(1, 1, None)));
    assert_buy_noop(&mut pallet, &mut env, Error::NotForSale, 2, 1);
}

#[test]
fn sell_refuses_a_missing_kitty() {
    let (mut pallet, mut env) = new_test_ext();
    assert_noop(&mut pallet, &mut env, Error::NotOwner, |p, _| p.sell(1, 1, Some(5)));
}

#[test]
fn buy_pays_the_seller_and_keeps_the_listing() {
    let (mut pallet, mut env) = new_test_ext();
    assert_eq!(create(&mut pallet, &mut env, 1), Ok(()));
    assert_eq!(pallet.sell(1, 1, Some(1000)), Ok(()));
    assert_eq!(buy(&mut pallet, &mut env, 2, 1), Ok(()));
    assert_eq!(pallet.kitty_owner(1), Some(2));
    assert_eq!(env.runtime().free_of(2), 10_000 - 200 - 1000);
    assert_eq!(env.runtime().reserved_of(2), 200);
    assert_eq!(env.runtime().free_of(1), 1_000_000 + 1000);
    assert_eq!(env.runtime().reserved_of(1), 0);
    assert_eq!(pallet.kitties_list_for_sales(1), Some(1000));
    // the first owner can buy it back at the same price
    assert_eq!(buy(&mut pallet, &mut env, 1, 1), Ok(()));
    assert_eq!(pallet.kitty_owner(1), Some(1));
}

#[test]
fn buy_needs_more_than_price_and_stake() {
    let (mut pallet, mut env) = new_test_ext();
    assert_eq!(create(&mut pallet, &mut env, 1), Ok(()));
    // account 2 has 10_000: exactly the price and the stake is not enough
    assert_eq!(pallet.sell(1, 1, Some(9_800)), Ok(()));
    assert_buy_noop(&mut pallet, &mut env, Error::NotEnoughBalance, 2, 1);
    assert_eq!(pallet.sell(1, 1, Some(9_799)), Ok(()));
    assert_eq!(buy(&mut pallet, &mut env, 2, 1), Ok(()));
}

#[test]
fn buy_refuses_a_missing_kitty() {
    let (mut pallet, mut env) = new_test_ext();
    assert_buy_noop(&mut pallet, &mut env, Error::InvalidKittyId, 2, 1);
}

#[test]
fn buy_reports_the_currency_failure() {
    let mut runtime = MockRuntime::new();
    runtime.existential_deposit = 500;
    let (mut pallet, mut env) = (Pallet::new(STAKE, MAX_KITTY_INDEX), Env::new(runtime));
    assert_eq!(create(&mut pallet, &mut env, 1), Ok(()));
    assert_eq!(pallet.sell(1, 1, Some(9_500)), Ok(()));
    let before = observe(&pallet, &[1]);
    let runtime_before = env.runtime().clone();
    assert_eq!(buy(&mut pallet, &mut env, 2, 1), Err(DispatchError::Currency("KeepAlive")));
    assert_eq!(observe(&pallet, &[1]), before);
    assert_eq!(*env.runtime(), runtime_before);
}

#[test]
fn each_success_reports_one_event() {
    let (mut pallet, mut env) = new_test_ext();
    assert_eq!(create(&mut pallet, &mut env, 1), Ok(()));
    assert_eq!(create(&mut pallet, &mut env, 1), Ok(()));
    assert_eq!(breed(&mut pallet, &mut env, 1, 1, 2), Ok(()));
    assert_eq!(transfer(&mut pallet, &mut env, 1, 3, 2), Ok(()));
    assert_eq!(pallet.sell(2, 3, Some(10)), Ok(()));
    assert_eq!(buy(&mut pallet, &mut env, 1, 3), Ok(()));
    assert_eq!(
        pallet.events(),
        &[
            Event::KittyCreated(1, 1),
            Event::KittyCreated(1, 2),
            Event::KittyCreated(1, 3),
            Event::KittyTransferred(1, 2, 3),
            Event::KittyInSell(2, 3, Some(10)),
            Event::KittyTransferred(2, 1, 3),
        ]
    );
}

#[test]
fn kitties_are_never_lost() {
    let (mut pallet, mut env) = new_test_ext();
    assert_eq!(create(&mut pallet, &mut env, 1), Ok(()));
    let kitty = pallet.kitties_info(1);
    let _ = create(&mut pallet, &mut env, 100);
    let _ = transfer(&mut pallet, &mut env, 1, 1, 2);
    let _ = pallet.sell(2, 1, Some(3));
    let _ = buy(&mut pallet, &mut env, 1, 1);
    let _ = breed(&mut pallet, &mut env, 5, 1, 1);
    assert_eq!(pallet.kitties_info(1), kitty);
    assert_eq!(pallet.last_kitty_id(), 1);
}

// ---------------------------------------------------------------- dna

#[test]
fn payload_is_the_scale_encoding() {
    let payload = encode_random_payload(&[9, 8, 7], 0x0102_0304_0506_0708, Some(0x0a0b_0c0d));
    assert_eq!(payload, vec![9, 8, 7, 8, 7, 6, 5, 4, 3, 2, 1, 1, 0x0d, 0x0c, 0x0b, 0x0a]);
    let payload = encode_random_payload(&[], 1, None);
    assert_eq!(payload, vec![1, 0, 0, 0, 0, 0, 0, 0, 0]);
}

#[test]
fn random_dna_is_blake2_of_the_payload() {
    let payload = encode_random_payload(&[1, 2, 3], 42, Some(3));
    let dna = random_dna(&[1, 2, 3], 42, Some(3));
    assert_eq!(dna, sp_io::hashing::blake2_128(&payload));
    assert_ne!(dna.to_vec(), payload[..16].to_vec());
}

#[test]
fn different_senders_get_different_payloads() {
    let a = encode_random_payload(&[5; 32], 1, Some(0));
    let b = encode_random_payload(&[5; 32], 2, Some(0));
    assert_ne!(a, b);
    assert_ne!(random_dna(&[5; 32], 1, Some(0)), random_dna(&[5; 32], 2, Some(0)));
}

#[test]
fn breed_dna_takes_bits_by_selector() {
    let dna_1 = [0xf0u8; 16];
    let dna_2 = [0x0fu8; 16];
    let mut selector = [0u8; 16];
    selector[0] = 0xff;
    selector[1] = 0xaa;
    let child = breed_dna(&dna_1, &dna_2, &selector);
    assert_eq!(child[0], 0xf0);
    assert_eq!(child[1], 0xa0 | 0x05);
    assert_eq!(child[2], 0x0f);
    assert_eq!(breed_dna(&dna_1, &dna_1, &selector), dna_1);
    assert_eq!(breed_dna(&dna_1, &dna_2, &[0xff; 16]), dna_1);
    assert_eq!(breed_dna(&dna_1, &dna_2, &[0; 16]), dna_2);
}
