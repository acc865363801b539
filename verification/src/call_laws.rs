//! What each call of the pallet does, stated over the storage it starts
//! from, its arguments and the runtime's answers: when it is refused and
//! with which error, what it asks of the runtime, and what it leaves.

use vstd::prelude::*;
use crate::dna::{blake2_128_digest, lemma_mix_gene_bits, mix_gene, random_payload};
use crate::runtime::OutsideCall;
use crate::state::PalletState;
use crate::types::{AccountId, Balance, DispatchError, Error, Event, ExistenceRequirement, KittyIndex};

verus! {

/// `create` asks the runtime for a seed, the extrinsic index and the
/// sender's stake, in that order. Refused for want of balance when the
/// reservation fails, and for the index when the last index is the largest;
/// otherwise the sender owns a new kitty under the next index, whose DNA is
/// the Blake2-128 digest of the encoded seed, sender and extrinsic index
/// that the runtime answered, and nothing else changes but the event log.
pub proof fn lemma_create_mints_a_random_kitty<E>(
    pre: PalletState,
    sender: AccountId,
    seed: Seq<u8>,
    index: Option<u32>,
    reserved: Result<(), E>,
)
    ensures
        pre.create_calls(sender, seed, index, reserved) == seq![
            OutsideCall::<E>::RandomSeed { seed },
            OutsideCall::<E>::ExtrinsicIndex { index },
            OutsideCall::<E>::Reserve { who: sender, value: pre.kitty_stake, result: reserved },
        ],
        reserved is Err ==> pre.create_outcome(sender, seed, index, reserved) == (
            Err::<(), Error>(Error::NotEnoughBalance),
            pre,
        ),
        reserved is Ok && pre.last_kitty_id == u32::MAX ==> pre.create_outcome(
            sender,
            seed,
            index,
            reserved,
        ) == (Err::<(), Error>(Error::KittyIdOverflow), pre),
        reserved is Ok && pre.last_kitty_id < u32::MAX ==> {
            let (result, post) = pre.create_outcome(sender, seed, index, reserved);
            let id = (pre.last_kitty_id + 1) as KittyIndex;
            &&& result is Ok
            &&& post.last_kitty_id == id
            &&& post.kitties == pre.kitties.insert(
                id,
                blake2_128_digest(random_payload(seed, sender, index)),
            )
            &&& post.owners == pre.owners.insert(id, sender)
            &&& post.shop == pre.shop
            &&& post.kitty_stake == pre.kitty_stake
            &&& post.events == pre.events.push(Event::KittyCreated(sender, id))
        },
{
    assert(pre.create_calls(sender, seed, index, reserved) =~= seq![
        OutsideCall::<E>::RandomSeed { seed },
        OutsideCall::<E>::ExtrinsicIndex { index },
        OutsideCall::<E>::Reserve { who: sender, value: pre.kitty_stake, result: reserved },
    ]);
}

/// The bytes hashed into a random DNA: the seed as it is, then the sender's
/// eight bytes from the least significant, then a tag byte (0 without an
/// extrinsic index, 1 with one), then the index's four bytes from the least
/// significant.
pub proof fn lemma_random_payload_layout(seed: Seq<u8>, sender: AccountId, index: Option<u32>)
    ensures
        ({
            let payload = random_payload(seed, sender, index);
            let n = seed.len() as int;
            &&& payload.len() == n + 8 + if index is Some {
                5int
            } else {
                1int
            }
            &&& forall|k: int| 0 <= k < n ==> #[trigger] payload[k] == seed[k]
            &&& forall|k: int|
                0 <= k < 8 ==> #[trigger] payload[n + k] == (sender >> ((8 * k) as u64)) as u8
            &&& payload[n + 8] == if index is Some {
                1u8
            } else {
                0u8
            }
            &&& index matches Some(v) ==> forall|k: int|
                0 <= k < 4 ==> #[trigger] payload[n + 9 + k] == (v >> ((8 * k) as u32)) as u8
        }),
{
}

/// Two draws that differ only in the extrinsic index hash different bytes:
/// kitties minted by one sender from one seed in different extrinsics do
/// not share their DNA by construction.
pub proof fn lemma_random_payload_tells_extrinsics_apart(
    seed: Seq<u8>,
    sender: AccountId,
    index_1: Option<u32>,
    index_2: Option<u32>,
)
    requires
        index_1 != index_2,
    ensures
        random_payload(seed, sender, index_1) != random_payload(seed, sender, index_2),
{
    lemma_random_payload_layout(seed, sender, index_1);
    lemma_random_payload_layout(seed, sender, index_2);
    let (p1, p2) = (random_payload(seed, sender, index_1), random_payload(seed, sender, index_2));
    let n = seed.len() as int;
    if p1 == p2 {
        assert(p1[n + 8] == p2[n + 8]);
        let (v1, v2) = (index_1->0, index_2->0);
        assert(index_1 is Some && index_2 is Some);
        assert(p1[n + 9] == p2[n + 9] && p1[n + 10] == p2[n + 10]);
        assert(p1[n + 11] == p2[n + 11] && p1[n + 12] == p2[n + 12]);
        assert(p1[n + 9 + 0] == (v1 >> ((8 * 0) as u32)) as u8);
        assert(p1[n + 9 + 1] == (v1 >> ((8 * 1) as u32)) as u8);
        assert(p1[n + 9 + 2] == (v1 >> ((8 * 2) as u32)) as u8);
        assert(p1[n + 9 + 3] == (v1 >> ((8 * 3) as u32)) as u8);
        assert(p2[n + 9 + 0] == (v2 >> ((8 * 0) as u32)) as u8);
        assert(p2[n + 9 + 1] == (v2 >> ((8 * 1) as u32)) as u8);
        assert(p2[n + 9 + 2] == (v2 >> ((8 * 2) as u32)) as u8);
        assert(p2[n + 9 + 3] == (v2 >> ((8 * 3) as u32)) as u8);
        assert(v1 >> 0u32 == v1 && v2 >> 0u32 == v2) by (bit_vector);
        assert(v1 == v2) by (bit_vector)
            requires
                v1 as u8 == v2 as u8,
                (v1 >> 8u32) as u8 == (v2 >> 8u32) as u8,
                (v1 >> 16u32) as u8 == (v2 >> 16u32) as u8,
                (v1 >> 24u32) as u8 == (v2 >> 24u32) as u8,
        ;
    }
}

/// `breed` is refused before the runtime is asked anything only when the
/// two parents are the same kitty or one of them does not exist; who owns
/// the parents does not matter.
pub proof fn lemma_breed_refusals<E>(
    pre: PalletState,
    sender: AccountId,
    id_1: KittyIndex,
    id_2: KittyIndex,
    seed: Seq<u8>,
    index: Option<u32>,
    reserved: Result<(), E>,
)
    ensures
        id_1 == id_2 ==> pre.breed_outcome(sender, id_1, id_2, seed, index, reserved) == (
            Err::<(), Error>(Error::SameKittyId),
            pre,
        ) && pre.breed_calls(sender, id_1, id_2, seed, index, reserved) == Seq::<
            OutsideCall<E>,
        >::empty(),
        id_1 != id_2 && (!pre.kitties.contains_key(id_1) || !pre.kitties.contains_key(id_2))
            ==> pre.breed_outcome(sender, id_1, id_2, seed, index, reserved) == (
            Err::<(), Error>(Error::InvalidKittyId),
            pre,
        ) && pre.breed_calls(sender, id_1, id_2, seed, index, reserved) == Seq::<
            OutsideCall<E>,
        >::empty(),
        id_1 != id_2 && pre.kitties.contains_key(id_1) && pre.kitties.contains_key(id_2)
            ==> pre.breed_check(id_1, id_2) is None,
{
}

/// Any account may breed any two distinct existing kitties, whoever owns
/// them: `breed` asks the runtime for a seed, the extrinsic index and the
/// breeder's stake; refused for want of balance or for the index as
/// `create` is; otherwise the breeder owns a new kitty under the next index
/// whose every bit comes from the first parent where the random selector
/// (the Blake2-128 digest of the encoded seed, breeder and extrinsic index)
/// has a 1 and from the second parent where it has a 0.
pub proof fn lemma_breed_any_two_kitties<E>(
    pre: PalletState,
    sender: AccountId,
    id_1: KittyIndex,
    id_2: KittyIndex,
    seed: Seq<u8>,
    index: Option<u32>,
    reserved: Result<(), E>,
)
    requires
        pre.wf(),
        id_1 != id_2,
        pre.kitties.contains_key(id_1),
        pre.kitties.contains_key(id_2),
    ensures
        pre.breed_calls(sender, id_1, id_2, seed, index, reserved) == seq![
            OutsideCall::<E>::RandomSeed { seed },
            OutsideCall::<E>::ExtrinsicIndex { index },
            OutsideCall::<E>::Reserve { who: sender, value: pre.kitty_stake, result: reserved },
        ],
        reserved is Err ==> pre.breed_outcome(sender, id_1, id_2, seed, index, reserved) == (
            Err::<(), Error>(Error::NotEnoughBalance),
            pre,
        ),
        reserved is Ok && pre.last_kitty_id == u32::MAX ==> pre.breed_outcome(
            sender,
            id_1,
            id_2,
            seed,
            index,
            reserved,
        ) == (Err::<(), Error>(Error::KittyIdOverflow), pre),
        reserved is Ok && pre.last_kitty_id < u32::MAX ==> {
            let (result, post) = pre.breed_outcome(sender, id_1, id_2, seed, index, reserved);
            let id = (pre.last_kitty_id + 1) as KittyIndex;
            let selector = blake2_128_digest(random_payload(seed, sender, index));
            let (dna_1, dna_2) = (pre.kitties[id_1], pre.kitties[id_2]);
            &&& result is Ok
            &&& post.last_kitty_id == id
            &&& post.kitties.dom() == pre.kitties.dom().insert(id)
            &&& forall|k: KittyIndex| #[trigger]
                pre.kitties.contains_key(k) ==> post.kitties[k] == pre.kitties[k]
            &&& post.kitties[id].len() == 16
            &&& forall|i: int|
                0 <= i < 16 ==> #[trigger] post.kitties[id][i] & selector[i] == dna_1[i]
                    & selector[i] && post.kitties[id][i] & !selector[i] == dna_2[i] & !selector[i]
            &&& post.owners == pre.owners.insert(id, sender)
            &&& post.shop == pre.shop
            &&& post.events == pre.events.push(Event::KittyCreated(sender, id))
        },
{
    assert(pre.breed_calls(sender, id_1, id_2, seed, index, reserved) =~= seq![
        OutsideCall::<E>::RandomSeed { seed },
        OutsideCall::<E>::ExtrinsicIndex { index },
        OutsideCall::<E>::Reserve { who: sender, value: pre.kitty_stake, result: reserved },
    ]);
    if reserved is Ok && pre.last_kitty_id < u32::MAX {
        let (result, post) = pre.breed_outcome(sender, id_1, id_2, seed, index, reserved);
        let id = (pre.last_kitty_id + 1) as KittyIndex;
        let selector = blake2_128_digest(random_payload(seed, sender, index));
        let (dna_1, dna_2) = (pre.kitties[id_1], pre.kitties[id_2]);
        assert(!pre.kitties.contains_key(id));
        assert(post.kitties.dom() =~= pre.kitties.dom().insert(id));
        assert forall|i: int| 0 <= i < 16 implies #[trigger] post.kitties[id][i] & selector[i]
            == dna_1[i] & selector[i] && post.kitties[id][i] & !selector[i] == dna_2[i]
            & !selector[i] by {
            lemma_mix_gene_bits(dna_1[i], dna_2[i], selector[i]);
            assert(post.kitties[id][i] == mix_gene(dna_1[i], dna_2[i], selector[i]));
        }
    }
}

/// `transfer` of an existing kitty by its owner is never refused before
/// the runtime is asked, whatever the kitty's price in the shop: the
/// runtime is asked to reserve the new owner's stake; when it fails the
/// transfer is refused for want of balance, and otherwise the old owner's
/// stake is released and the kitty belongs to the new owner, with its
/// price, its DNA and every other owner unchanged.
pub proof fn lemma_owner_may_transfer<E>(
    pre: PalletState,
    sender: AccountId,
    id: KittyIndex,
    new_owner: AccountId,
    reserved: Result<(), E>,
    remaining: Balance,
)
    requires
        pre.kitties.contains_key(id),
        pre.owners.contains_key(id),
        pre.owners[id] == sender,
    ensures
        reserved is Err ==> pre.transfer_outcome(sender, id, new_owner, reserved) == (
            Err::<(), Error>(Error::NotEnoughBalance),
            pre,
        ) && pre.transfer_calls(sender, id, new_owner, reserved, remaining) == seq![
            OutsideCall::<E>::Reserve { who: new_owner, value: pre.kitty_stake, result: reserved },
        ],
        reserved is Ok ==> {
            let (result, post) = pre.transfer_outcome(sender, id, new_owner, reserved);
            &&& result is Ok
            &&& post.owners == pre.owners.insert(id, new_owner)
            &&& post.kitties == pre.kitties
            &&& post.shop == pre.shop
            &&& post.last_kitty_id == pre.last_kitty_id
            &&& post.events == pre.events.push(Event::KittyTransferred(sender, new_owner, id))
            &&& pre.transfer_calls(sender, id, new_owner, reserved, remaining) == seq![
                OutsideCall::<E>::Reserve {
                    who: new_owner,
                    value: pre.kitty_stake,
                    result: reserved,
                },
                OutsideCall::<E>::Unreserve { who: sender, value: pre.kitty_stake, remaining },
            ]
        },
{
}

/// `transfer` is refused, before the runtime is asked anything, exactly
/// when the kitty does not exist or the sender does not own it.
pub proof fn lemma_transfer_refusals<E>(
    pre: PalletState,
    sender: AccountId,
    id: KittyIndex,
    new_owner: AccountId,
    reserved: Result<(), E>,
    remaining: Balance,
)
    ensures
        !pre.kitties.contains_key(id) ==> pre.transfer_outcome(sender, id, new_owner, reserved) == (
            Err::<(), Error>(Error::InvalidKittyId),
            pre,
        ) && pre.transfer_calls(sender, id, new_owner, reserved, remaining) == Seq::<
            OutsideCall<E>,
        >::empty(),
        pre.kitties.contains_key(id) && !(pre.owners.contains_key(id) && pre.owners[id] == sender)
            ==> pre.transfer_outcome(sender, id, new_owner, reserved) == (
            Err::<(), Error>(Error::NotOwner),
            pre,
        ) && pre.transfer_calls(sender, id, new_owner, reserved, remaining) == Seq::<
            OutsideCall<E>,
        >::empty(),
{
}

/// The owner of a kitty may always set or take away its price: `sell` by
/// the owner succeeds and the shop then holds exactly the price given;
/// by anyone else it is refused and changes nothing.
pub proof fn lemma_owner_may_always_sell(
    pre: PalletState,
    seller: AccountId,
    id: KittyIndex,
    price: Option<Balance>,
)
    ensures
        pre.owners.contains_key(id) && pre.owners[id] == seller ==> {
            let (result, post) = pre.sell_outcome(seller, id, price);
            &&& result is Ok
            &&& post.shop == pre.shop.insert(id, price)
            &&& post.owners == pre.owners
            &&& post.kitties == pre.kitties
            &&& post.last_kitty_id == pre.last_kitty_id
            &&& post.events == pre.events.push(Event::KittyInSell(seller, id, price))
        },
        !(pre.owners.contains_key(id) && pre.owners[id] == seller) ==> pre.sell_outcome(
            seller,
            id,
            price,
        ) == (Err::<(), Error>(Error::NotOwner), pre),
{
}

/// Two `sell`s by the owner, one after the other, both succeed and the
/// second price is the one the shop holds, whatever the first was
/// (taking the price away included).
pub proof fn lemma_second_sell_wins(
    pre: PalletState,
    seller: AccountId,
    id: KittyIndex,
    first: Option<Balance>,
    second: Option<Balance>,
)
    requires
        pre.owners.contains_key(id),
        pre.owners[id] == seller,
    ensures
        ({
            let (result_1, mid) = pre.sell_outcome(seller, id, first);
            let (result_2, post) = mid.sell_outcome(seller, id, second);
            &&& result_1 is Ok && result_2 is Ok
            &&& post.shop.contains_key(id) && post.shop[id] == second
        }),
{
    lemma_owner_may_always_sell(pre, seller, id, first);
    lemma_owner_may_always_sell(pre.sell_outcome(seller, id, first).1, seller, id, second);
}

/// `buy` is refused before the runtime is asked anything exactly when the
/// kitty has no owner, the buyer owns it, or the shop has no price for it.
pub proof fn lemma_buy_refusals<E>(
    pre: PalletState,
    buyer: AccountId,
    id: KittyIndex,
    balance: Balance,
    reserved: Result<(), E>,
    remaining: Balance,
    paid: Result<(), E>,
)
    ensures
        !pre.owners.contains_key(id) ==> pre.buy_outcome(buyer, id, balance, reserved, paid) == (
            Err::<(), DispatchError<E>>(DispatchError::Module(Error::InvalidKittyId)),
            pre,
        ),
        pre.owners.contains_key(id) && pre.owners[id] == buyer ==> pre.buy_outcome(
            buyer,
            id,
            balance,
            reserved,
            paid,
        ) == (Err::<(), DispatchError<E>>(DispatchError::Module(Error::NoBuySelf)), pre),
        pre.owners.contains_key(id) && pre.owners[id] != buyer && !(pre.shop.contains_key(id)
            && pre.shop[id] is Some) ==> pre.buy_outcome(buyer, id, balance, reserved, paid) == (
            Err::<(), DispatchError<E>>(DispatchError::Module(Error::NotForSale)),
            pre,
        ),
        !(pre.owners.contains_key(id) && pre.owners[id] != buyer && pre.shop.contains_key(id)
            && pre.shop[id] is Some) ==> pre.buy_calls(
            buyer,
            id,
            balance,
            reserved,
            remaining,
            paid,
        ) == Seq::<OutsideCall<E>>::empty(),
{
}

/// Buying a kitty that is someone else's and has price `p` in the shop: the
/// runtime is first asked for the buyer's free balance `b`. The sale is
/// refused for want of balance exactly when `b <= p + stake`, or when the
/// runtime does not reserve the buyer's stake; otherwise the seller's
/// stake is released and `p` is paid from buyer to seller, keeping the
/// buyer alive. If the payment fails its error comes back as it is;
/// otherwise the kitty belongs to the buyer and nothing else changes but
/// the event log.
pub proof fn lemma_buy_at_the_listed_price<E>(
    pre: PalletState,
    buyer: AccountId,
    id: KittyIndex,
    p: Balance,
    b: Balance,
    reserved: Result<(), E>,
    remaining: Balance,
    paid: Result<(), E>,
)
    requires
        pre.owners.contains_key(id),
        pre.owners[id] != buyer,
        pre.shop.contains_key(id),
        pre.shop[id] == Some(p),
    ensures
        ({
            let seller = pre.owners[id];
            let (result, post) = pre.buy_outcome(buyer, id, b, reserved, paid);
            let calls = pre.buy_calls(buyer, id, b, reserved, remaining, paid);
            let read = OutsideCall::<E>::FreeBalance { account: buyer, balance: b };
            let reserve = OutsideCall::<E>::Reserve {
                who: buyer,
                value: pre.kitty_stake,
                result: reserved,
            };
            &&& b <= p + pre.kitty_stake ==> {
                &&& (result, post) == (
                    Err::<(), DispatchError<E>>(DispatchError::Module(Error::NotEnoughBalance)),
                    pre,
                )
                &&& calls == seq![read]
            }
            &&& b > p + pre.kitty_stake && reserved is Err ==> {
                &&& (result, post) == (
                    Err::<(), DispatchError<E>>(DispatchError::Module(Error::NotEnoughBalance)),
                    pre,
                )
                &&& calls == seq![read, reserve]
            }
            &&& b > p + pre.kitty_stake && reserved is Ok ==> {
                &&& calls == seq![
                    read,
                    reserve,
                    OutsideCall::<E>::Unreserve { who: seller, value: pre.kitty_stake, remaining },
                    OutsideCall::<E>::Transfer {
                        source: buyer,
                        dest: seller,
                        value: p,
                        requirement: ExistenceRequirement::KeepAlive,
                        result: paid,
                    },
                ]
                &&& paid matches Err(e) ==> (result, post) == (
                    Err::<(), DispatchError<E>>(DispatchError::Currency(e)),
                    pre,
                )
                &&& paid is Ok ==> {
                    &&& result is Ok
                    &&& post.owners == pre.owners.insert(id, buyer)
                    &&& post.kitties == pre.kitties
                    &&& post.shop == pre.shop
                    &&& post.last_kitty_id == pre.last_kitty_id
                    &&& post.events == pre.events.push(Event::KittyTransferred(seller, buyer, id))
                }
            }
        }),
{
    let seller = pre.owners[id];
    let read = OutsideCall::<E>::FreeBalance { account: buyer, balance: b };
    let reserve = OutsideCall::<E>::Reserve { who: buyer, value: pre.kitty_stake, result: reserved };
    let calls = pre.buy_calls(buyer, id, b, reserved, remaining, paid);
    if b > p + pre.kitty_stake && reserved is Ok {
        assert(calls =~= seq![
            read,
            reserve,
            OutsideCall::<E>::Unreserve { who: seller, value: pre.kitty_stake, remaining },
            OutsideCall::<E>::Transfer {
                source: buyer,
                dest: seller,
                value: p,
                requirement: ExistenceRequirement::KeepAlive,
                result: paid,
            },
        ]);
    } else if b > p + pre.kitty_stake {
        assert(calls =~= seq![read, reserve]);
    }
}

/// A fresh chain has no kitty, owner, price or event, its last index is
/// 0, and its storage is one the pallet can reach.
pub proof fn lemma_genesis_is_empty(kitty_stake: Balance, max_kitty_index: u32)
    ensures
        ({
            let state = PalletState::genesis(kitty_stake, max_kitty_index);
            &&& state.last_kitty_id == 0
            &&& state.kitties.dom() == Set::<KittyIndex>::empty()
            &&& state.owners.dom() == Set::<KittyIndex>::empty()
            &&& state.shop.dom() == Set::<KittyIndex>::empty()
            &&& state.events.len() == 0
            &&& state.kitty_stake == kitty_stake
            &&& state.wf()
        }),
{
    let state = PalletState::genesis(kitty_stake, max_kitty_index);
    assert(state.kitties.dom() =~= Set::<KittyIndex>::empty());
    assert(state.owners.dom() =~= Set::<KittyIndex>::empty());
    assert(state.shop.dom() =~= Set::<KittyIndex>::empty());
}

} // verus!
