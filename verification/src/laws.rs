//! What holds of every call of the pallet, whatever the runtime answered.

use vstd::prelude::*;
use crate::dna::{le_bytes_u64, mix_dna, mix_gene, random_payload, lemma_mix_gene_bits};
use crate::runtime::{Config, Env, OutsideCall, step};
use crate::state::{PalletState, random_dna_of};
use crate::types::{AccountId, Balance, Error, Event, ExistenceRequirement, KittyIndex};

verus! {

/// A refused call changes nothing in the pallet's storage: no kitty, owner,
/// price, index or event.
pub proof fn lemma_refused_calls_change_nothing<E>(
    pre: PalletState,
    sender: AccountId,
    id_1: KittyIndex,
    id_2: KittyIndex,
    new_owner: AccountId,
    price: Option<Balance>,
    seed: Seq<u8>,
    index: Option<u32>,
    reserved: Result<(), E>,
    balance: Balance,
    paid: Result<(), E>,
)
    ensures
        pre.create_outcome(sender, seed, index, reserved).0 is Err ==> pre.create_outcome(
            sender,
            seed,
            index,
            reserved,
        ).1 == pre,
        pre.breed_outcome(sender, id_1, id_2, seed, index, reserved).0 is Err
            ==> pre.breed_outcome(sender, id_1, id_2, seed, index, reserved).1 == pre,
        pre.transfer_outcome(sender, id_1, new_owner, reserved).0 is Err
            ==> pre.transfer_outcome(sender, id_1, new_owner, reserved).1 == pre,
        pre.sell_outcome(sender, id_1, price).0 is Err ==> pre.sell_outcome(sender, id_1, price).1
            == pre,
        pre.buy_outcome(sender, id_1, balance, reserved, paid).0 is Err
            ==> pre.buy_outcome(sender, id_1, balance, reserved, paid).1 == pre,
{
}

/// No call takes a kitty away or changes its DNA, and the last kitty index
/// never goes down.
pub proof fn lemma_kitties_are_never_lost<E>(
    pre: PalletState,
    sender: AccountId,
    id_1: KittyIndex,
    id_2: KittyIndex,
    new_owner: AccountId,
    price: Option<Balance>,
    seed: Seq<u8>,
    index: Option<u32>,
    reserved: Result<(), E>,
    balance: Balance,
    paid: Result<(), E>,
)
    requires
        pre.wf(),
    ensures
        ({
            let post = pre.create_outcome(sender, seed, index, reserved).1;
            pre.kitties.submap_of(post.kitties) && pre.last_kitty_id <= post.last_kitty_id
        }),
        ({
            let post = pre.breed_outcome(sender, id_1, id_2, seed, index, reserved).1;
            pre.kitties.submap_of(post.kitties) && pre.last_kitty_id <= post.last_kitty_id
        }),
        ({
            let post = pre.transfer_outcome(sender, id_1, new_owner, reserved).1;
            pre.kitties.submap_of(post.kitties) && pre.last_kitty_id <= post.last_kitty_id
        }),
        ({
            let post = pre.sell_outcome(sender, id_1, price).1;
            pre.kitties.submap_of(post.kitties) && pre.last_kitty_id <= post.last_kitty_id
        }),
        ({
            let post = pre.buy_outcome(sender, id_1, balance, reserved, paid).1;
            pre.kitties.submap_of(post.kitties) && pre.last_kitty_id <= post.last_kitty_id
        }),
{
    lemma_minted_kitty_is_fresh::<E>(pre, sender, random_dna_of(seed, sender, index), reserved);
    if pre.breed_check(id_1, id_2) is None {
        lemma_minted_kitty_is_fresh::<E>(
            pre,
            sender,
            mix_dna(pre.kitties[id_1], pre.kitties[id_2], random_dna_of(seed, sender, index)),
            reserved,
        );
    }
}

/// A kitty is minted under the index after the last one, which no kitty
/// had, for the account that asked, with the DNA it was given; nothing else
/// is touched but the event log.
pub proof fn lemma_minted_kitty_is_fresh<E>(
    pre: PalletState,
    sender: AccountId,
    dna: Seq<u8>,
    reserved: Result<(), E>,
)
    requires
        pre.wf(),
    ensures
        ({
            let (result, post) = pre.new_kitty_outcome(sender, dna, reserved);
            result is Ok ==> {
                &&& post.last_kitty_id == pre.last_kitty_id + 1
                &&& !pre.kitties.contains_key(post.last_kitty_id)
                &&& post.kitties == pre.kitties.insert(post.last_kitty_id, dna)
                &&& post.owners == pre.owners.insert(post.last_kitty_id, sender)
                &&& post.shop == pre.shop
                &&& post.events == pre.events.push(Event::KittyCreated(sender, post.last_kitty_id))
            }
        }),
        ({
            let (result, post) = pre.new_kitty_outcome(sender, dna, reserved);
            result is Ok ==> pre.kitties.submap_of(post.kitties)
        }),
{
}

/// Only a kitty's owner can give it away or set its price, and a buyer can
/// only take it from someone else, at its listed price, with more free
/// balance than the price and the stake; no call changes the owner of any
/// other kitty.
pub proof fn lemma_only_owners_give_kitties_away<E>(
    pre: PalletState,
    sender: AccountId,
    id: KittyIndex,
    other: KittyIndex,
    new_owner: AccountId,
    price: Option<Balance>,
    reserved: Result<(), E>,
    balance: Balance,
    paid: Result<(), E>,
)
    requires
        pre.wf(),
        other != id,
    ensures
        ({
            let (result, post) = pre.transfer_outcome(sender, id, new_owner, reserved);
            &&& result is Ok ==> pre.owners.get(id) == Some(sender) && post.owners.get(id) == Some(
                new_owner,
            )
            &&& post.owners.get(other) == pre.owners.get(other)
        }),
        ({
            let (result, post) = pre.sell_outcome(sender, id, price);
            &&& result is Ok ==> pre.owners.get(id) == Some(sender)
            &&& post.owners == pre.owners
        }),
        ({
            let (result, post) = pre.buy_outcome(sender, id, balance, reserved, paid);
            &&& result is Ok ==> {
                &&& pre.owners.contains_key(id)
                &&& pre.owners[id] != sender
                &&& pre.price(id) is Some
                &&& balance > pre.price(id)->0 + pre.kitty_stake
                &&& post.owners.get(id) == Some(sender)
            }
            &&& post.owners.get(other) == pre.owners.get(other)
        }),
{
}

/// What a successful call reports: exactly one new event at the end of the
/// log, naming who did what to which kitty; a refused call reports nothing.
pub proof fn lemma_each_success_reports_one_event<E>(
    pre: PalletState,
    sender: AccountId,
    id_1: KittyIndex,
    id_2: KittyIndex,
    new_owner: AccountId,
    price: Option<Balance>,
    seed: Seq<u8>,
    index: Option<u32>,
    reserved: Result<(), E>,
    balance: Balance,
    paid: Result<(), E>,
)
    ensures
        ({
            let (result, post) = pre.create_outcome(sender, seed, index, reserved);
            post.events == if result is Ok {
                pre.events.push(Event::KittyCreated(sender, post.last_kitty_id))
            } else {
                pre.events
            }
        }),
        ({
            let (result, post) = pre.breed_outcome(sender, id_1, id_2, seed, index, reserved);
            post.events == if result is Ok {
                pre.events.push(Event::KittyCreated(sender, post.last_kitty_id))
            } else {
                pre.events
            }
        }),
        ({
            let (result, post) = pre.transfer_outcome(sender, id_1, new_owner, reserved);
            post.events == if result is Ok {
                pre.events.push(Event::KittyTransferred(sender, new_owner, id_1))
            } else {
                pre.events
            }
        }),
        ({
            let (result, post) = pre.sell_outcome(sender, id_1, price);
            post.events == if result is Ok {
                pre.events.push(Event::KittyInSell(sender, id_1, price))
            } else {
                pre.events
            }
        }),
        ({
            let (result, post) = pre.buy_outcome(sender, id_1, balance, reserved, paid);
            post.events == if result is Ok {
                pre.events.push(Event::KittyTransferred(pre.owners[id_1], sender, id_1))
            } else {
                pre.events
            }
        }),
{
}

/// After a successful `sell`, the shop asks the price that was set; `buy`
/// leaves every price as it was.
pub proof fn lemma_shop_prices<E>(
    pre: PalletState,
    seller: AccountId,
    buyer: AccountId,
    id: KittyIndex,
    other: KittyIndex,
    price: Option<Balance>,
    balance: Balance,
    reserved: Result<(), E>,
    paid: Result<(), E>,
)
    ensures
        pre.sell_outcome(seller, id, price).0 is Ok ==> pre.sell_outcome(seller, id, price).1.price(
            id,
        ) == price,
        other != id ==> pre.sell_outcome(seller, id, price).1.price(other) == pre.price(other),
        pre.buy_outcome(buyer, id, balance, reserved, paid).1.shop == pre.shop,
{
}

/// A bred kitty's DNA takes each bit from the first parent where the
/// random selector has a 1, and from the second parent where it has a 0.
pub proof fn lemma_bred_dna_comes_from_parents<E>(
    pre: PalletState,
    sender: AccountId,
    id_1: KittyIndex,
    id_2: KittyIndex,
    seed: Seq<u8>,
    index: Option<u32>,
    reserved: Result<(), E>,
    i: int,
)
    requires
        pre.wf(),
        0 <= i < 16,
        pre.breed_outcome(sender, id_1, id_2, seed, index, reserved).0 is Ok,
    ensures
        ({
            let post = pre.breed_outcome(sender, id_1, id_2, seed, index, reserved).1;
            let child = post.kitties[post.last_kitty_id];
            let selector = random_dna_of(seed, sender, index);
            &&& child.len() == 16
            &&& child[i] & selector[i] == pre.kitties[id_1][i] & selector[i]
            &&& child[i] & !selector[i] == pre.kitties[id_2][i] & !selector[i]
        }),
{
    let selector = random_dna_of(seed, sender, index);
    let dna = mix_dna(pre.kitties[id_1], pre.kitties[id_2], selector);
    lemma_minted_kitty_is_fresh::<E>(pre, sender, dna, reserved);
    lemma_mix_gene_bits(pre.kitties[id_1][i], pre.kitties[id_2][i], selector[i]);
    assert(dna[i] == mix_gene(pre.kitties[id_1][i], pre.kitties[id_2][i], selector[i]));
}

/// Different integers have different little-endian bytes.
pub proof fn lemma_le_bytes_u64_injective(a: u64, b: u64)
    requires
        le_bytes_u64(a) == le_bytes_u64(b),
    ensures
        a == b,
{
    let (x, y) = (le_bytes_u64(a), le_bytes_u64(b));
    assert(x[0] == y[0] && x[1] == y[1] && x[2] == y[2] && x[3] == y[3]);
    assert(x[4] == y[4] && x[5] == y[5] && x[6] == y[6] && x[7] == y[7]);
    assert(a >> 0u64 == a && b >> 0u64 == b) by (bit_vector);
    assert(a == b) by (bit_vector)
        requires
            a as u8 == b as u8,
            (a >> 8u64) as u8 == (b >> 8u64) as u8,
            (a >> 16u64) as u8 == (b >> 16u64) as u8,
            (a >> 24u64) as u8 == (b >> 24u64) as u8,
            (a >> 32u64) as u8 == (b >> 32u64) as u8,
            (a >> 40u64) as u8 == (b >> 40u64) as u8,
            (a >> 48u64) as u8 == (b >> 48u64) as u8,
            (a >> 56u64) as u8 == (b >> 56u64) as u8,
    ;
}

/// Two different senders never hash the same bytes into their random DNA
/// from the same seed and extrinsic index.
pub proof fn lemma_random_payload_tells_senders_apart(
    seed: Seq<u8>,
    sender_1: AccountId,
    sender_2: AccountId,
    index: Option<u32>,
)
    requires
        sender_1 != sender_2,
    ensures
        random_payload(seed, sender_1, index) != random_payload(seed, sender_2, index),
{
    let (pa, pb) = (random_payload(seed, sender_1, index), random_payload(seed, sender_2, index));
    let n = seed.len() as int;
    if pa == pb {
        assert(pa.subrange(n, n + 8) =~= le_bytes_u64(sender_1));
        assert(pb.subrange(n, n + 8) =~= le_bytes_u64(sender_2));
        lemma_le_bytes_u64_injective(sender_1, sender_2);
    }
}

/// The calls a pallet call added to the record are steps the runtime
/// really took: the first starts from the runtime's state before the pallet
/// call, each leads to the next, and the last ends in its state after it.
pub proof fn lemma_new_calls_are_runtime_steps<R: Config>(before: Env<R>, after: Env<R>)
    requires
        before.wf(),
        after.wf(),
        after.extends(before),
    ensures
        before.states().len() == before.calls().len() + 1,
        after.states().len() == after.calls().len() + 1,
        before.calls().len() <= after.calls().len(),
        after.states()[before.calls().len() as int] == before.current(),
        after.states()[after.calls().len() as int] == after.current(),
        forall|j: int|
            before.calls().len() <= j < after.calls().len() ==> #[trigger] step(
                after.states()[j],
                after.calls()[j],
                after.states()[j + 1],
            ),
{
    before.lemma_history();
    after.lemma_history();
    let n = before.calls().len() as int;
}

/// Where the next kitty index does not fit, minting asks for the stake
/// first: a sender who cannot pay is refused for want of balance, and one
/// who can is refused for the index, with the pallet's storage unchanged
/// either way.
pub proof fn lemma_index_overflow_after_the_stake<E>(
    pre: PalletState,
    sender: AccountId,
    dna: Seq<u8>,
    reserved: Result<(), E>,
)
    requires
        pre.last_kitty_id == u32::MAX,
    ensures
        pre.new_kitty_calls(sender, reserved) == seq![
            OutsideCall::Reserve { who: sender, value: pre.kitty_stake, result: reserved },
        ],
        pre.new_kitty_outcome(sender, dna, reserved) == if reserved is Err {
            (Err::<(), Error>(Error::NotEnoughBalance), pre)
        } else {
            (Err::<(), Error>(Error::KittyIdOverflow), pre)
        },
{
}

/// A kitty costs its new owner a stake: a successful `create` or `breed`
/// (which draw randomness and then mint a kitty of some DNA) ended with the
/// runtime reserving the stake from the account that got the kitty.
pub proof fn lemma_minting_reserves_the_stake<R: Config>(
    pre: PalletState,
    before: Env<R>,
    after: Env<R>,
    sender: AccountId,
    dna: Seq<u8>,
    seed: Seq<u8>,
    index: Option<u32>,
    reserved: Result<(), R::CurrencyError>,
)
    requires
        before.wf(),
        after.wf(),
        after.extends(before),
        after.calls() == before.calls() + PalletState::random_calls(seed, index)
            + pre.new_kitty_calls(sender, reserved),
        pre.new_kitty_outcome(sender, dna, reserved).0 is Ok,
    ensures
        ({
            let last = after.calls().len() - 1;
            &&& reserved is Ok
            &&& after.calls()[last] == OutsideCall::<R::CurrencyError>::Reserve {
                who: sender,
                value: pre.kitty_stake,
                result: reserved,
            }
            &&& after.states()[last].reserve_spec(
                sender,
                pre.kitty_stake,
                reserved,
                after.current(),
            )
        }),
{
    lemma_new_calls_are_runtime_steps(before, after);
    let last = after.calls().len() - 1;
    assert(after.calls()[last] == pre.new_kitty_calls(sender, reserved)[0]);
    assert(step(after.states()[last], after.calls()[last], after.states()[last + 1]));
}

/// A transfer hands the stake over: a successful `transfer` had the runtime
/// reserve the stake from the new owner and then release the old owner's.
pub proof fn lemma_transfer_moves_the_stake<R: Config>(
    pre: PalletState,
    before: Env<R>,
    after: Env<R>,
    sender: AccountId,
    id: KittyIndex,
    new_owner: AccountId,
    reserved: Result<(), R::CurrencyError>,
    remaining: Balance,
)
    requires
        before.wf(),
        after.wf(),
        after.extends(before),
        after.calls() == before.calls() + pre.transfer_calls(
            sender,
            id,
            new_owner,
            reserved,
            remaining,
        ),
        pre.transfer_outcome(sender, id, new_owner, reserved).0 is Ok,
    ensures
        ({
            let n = before.calls().len() as int;
            &&& reserved is Ok
            &&& before.current().reserve_spec(
                new_owner,
                pre.kitty_stake,
                reserved,
                after.states()[n + 1],
            )
            &&& after.states()[n + 1].unreserve_spec(
                sender,
                pre.kitty_stake,
                remaining,
                after.current(),
            )
        }),
{
    lemma_new_calls_are_runtime_steps(before, after);
    let n = before.calls().len() as int;
    assert(pre.transfer_calls(sender, id, new_owner, reserved, remaining).len() == 2);
    assert(after.calls()[n] == pre.transfer_calls(sender, id, new_owner, reserved, remaining)[0]);
    assert(after.calls()[n + 1] == pre.transfer_calls(sender, id, new_owner, reserved, remaining)[1]);
    assert(step(after.states()[n], after.calls()[n], after.states()[n + 1]));
    let k = n + 1;
    assert(step(after.states()[k], after.calls()[k], after.states()[k + 1]));
}

/// A sale pays the seller: a successful `buy` had the runtime reserve the
/// stake from the buyer, release the seller's, and move the listed price
/// from the buyer to the seller, keeping the buyer's account alive.
pub proof fn lemma_sale_pays_the_seller<R: Config>(
    pre: PalletState,
    before: Env<R>,
    after: Env<R>,
    buyer: AccountId,
    id: KittyIndex,
    balance: Balance,
    reserved: Result<(), R::CurrencyError>,
    remaining: Balance,
    paid: Result<(), R::CurrencyError>,
)
    requires
        before.wf(),
        after.wf(),
        after.extends(before),
        after.calls() == before.calls() + pre.buy_calls(
            buyer,
            id,
            balance,
            reserved,
            remaining,
            paid,
        ),
        pre.buy_outcome(buyer, id, balance, reserved, paid).0 is Ok,
    ensures
        ({
            let n = before.calls().len() as int;
            let seller = pre.owners[id];
            &&& before.current().free_balance_spec(buyer, balance, after.states()[n + 1])
            &&& reserved is Ok && paid is Ok
            &&& after.states()[n + 1].reserve_spec(
                buyer,
                pre.kitty_stake,
                reserved,
                after.states()[n + 2],
            )
            &&& after.states()[n + 2].unreserve_spec(
                seller,
                pre.kitty_stake,
                remaining,
                after.states()[n + 3],
            )
            &&& after.states()[n + 3].transfer_spec(
                buyer,
                seller,
                pre.price(id)->0,
                ExistenceRequirement::KeepAlive,
                paid,
                after.current(),
            )
        }),
{
    lemma_new_calls_are_runtime_steps(before, after);
    let n = before.calls().len() as int;
    let new_calls = pre.buy_calls(buyer, id, balance, reserved, remaining, paid);
    assert(new_calls.len() == 4);
    assert(after.calls()[n] == new_calls[0]);
    assert(after.calls()[n + 1] == new_calls[1]);
    assert(after.calls()[n + 2] == new_calls[2]);
    assert(after.calls()[n + 3] == new_calls[3]);
    assert forall|k: int| n <= k < n + 4 implies step(
        after.states()[k],
        after.calls()[k],
        after.states()[k + 1],
    ) by {}
}

/// Giving a kitty away and getting it back restores its owner and leaves
/// every kitty, price and the last index as they were; the log holds both
/// transfers.
pub proof fn lemma_transfer_round_trip<E>(
    pre: PalletState,
    id: KittyIndex,
    a: AccountId,
    b: AccountId,
    there: Result<(), E>,
    back: Result<(), E>,
)
    requires
        pre.wf(),
        pre.transfer_outcome(a, id, b, there).0 is Ok,
        pre.transfer_outcome(a, id, b, there).1.transfer_outcome(b, id, a, back).0 is Ok,
    ensures
        ({
            let post = pre.transfer_outcome(a, id, b, there).1.transfer_outcome(b, id, a, back).1;
            &&& post.owners == pre.owners
            &&& post.kitties == pre.kitties
            &&& post.shop == pre.shop
            &&& post.last_kitty_id == pre.last_kitty_id
            &&& post.events == pre.events.push(Event::KittyTransferred(a, b, id)).push(
                Event::KittyTransferred(b, a, id),
            )
        }),
{
    let post = pre.transfer_outcome(a, id, b, there).1.transfer_outcome(b, id, a, back).1;
    assert(post.owners =~= pre.owners);
}

} // verus!
