//! What holds of the storage between calls, and which calls keep it.

use vstd::prelude::*;
use crate::kitties::{
    after_insert_kitty, after_transfer, breed_outcome, create_outcome, transfer_outcome, Error,
    Storage,
};
use crate::laws::{
    lemma_append_keeps_others, lemma_append_owns, lemma_append_threads,
    lemma_owns_what_is_listed, lemma_remove_keeps_others, lemma_remove_owns,
    lemma_remove_threads, lemma_transfer_moves, without,
};
use crate::links::{
    links_after_append, links_after_remove, owns, threads, AccountId, KittyIndex, LinkKey,
    KittyLinkedItem, Links,
};

verus! {

/// The nodes of `account` thread some list.
pub open spec fn has_list(links: Links, account: AccountId) -> bool {
    exists|list: Seq<KittyIndex>| threads(links, account, list)
}

/// `kitty_id` stands on the list that the nodes of `account` thread.
pub open spec fn on_list(links: Links, account: AccountId, kitty_id: KittyIndex) -> bool {
    exists|list: Seq<KittyIndex>| threads(links, account, list) && list.contains(kitty_id)
}

/// Ownership is exclusive and total: every account's nodes thread a list,
/// every stored kitty has an owner, no kitty has two, and nobody owns a kitty
/// that is not stored.
pub open spec fn exclusive(store: Storage) -> bool {
    &&& forall|account: AccountId| #[trigger] has_list(store.owned_kitties, account)
    &&& forall|kitty_id: KittyIndex| #[trigger]
        store.kitties.contains_key(kitty_id) ==> exists|account: AccountId|
            owns(store.owned_kitties, account, kitty_id)
    &&& forall|a: AccountId, b: AccountId, kitty_id: KittyIndex|
        #![trigger owns(store.owned_kitties, a, kitty_id), owns(store.owned_kitties, b, kitty_id)]
        owns(store.owned_kitties, a, kitty_id) && owns(store.owned_kitties, b, kitty_id) ==> a
            == b
    &&& forall|account: AccountId, kitty_id: KittyIndex| #[trigger]
        owns(store.owned_kitties, account, kitty_id) ==> store.kitties.contains_key(kitty_id)
}

/// Storage that holds no kitty satisfies the invariant.
pub proof fn lemma_empty_is_exclusive(store: Storage)
    requires
        store.kitties == Map::<KittyIndex, Seq<u8>>::empty(),
        store.owned_kitties == Map::<LinkKey, KittyLinkedItem>::empty(),
    ensures
        exclusive(store),
{
    assert forall|account: AccountId| #[trigger] has_list(store.owned_kitties, account) by {
        assert(threads(store.owned_kitties, account, Seq::<KittyIndex>::empty()));
    }
}

/// Under the invariant every stored kitty stands on the list of exactly one
/// owner.
pub proof fn lemma_exactly_one_owner(store: Storage, kitty_id: KittyIndex)
    requires
        exclusive(store),
        store.kitties.contains_key(kitty_id),
    ensures
        exists|account: AccountId| on_list(store.owned_kitties, account, kitty_id),
        forall|a: AccountId, b: AccountId|
            on_list(store.owned_kitties, a, kitty_id) && on_list(store.owned_kitties, b, kitty_id)
                ==> a == b,
{
    let links = store.owned_kitties;
    let owner = choose|account: AccountId| owns(links, account, kitty_id);
    assert(has_list(links, owner));
    let list = choose|list: Seq<KittyIndex>| threads(links, owner, list);
    lemma_owns_what_is_listed(links, owner, list, kitty_id);
    assert(on_list(links, owner, kitty_id));
    assert forall|a: AccountId, b: AccountId|
        on_list(links, a, kitty_id) && on_list(links, b, kitty_id) implies a == b by {
        let la = choose|list: Seq<KittyIndex>| threads(links, a, list) && list.contains(kitty_id);
        let lb = choose|list: Seq<KittyIndex>| threads(links, b, list) && list.contains(kitty_id);
        lemma_owns_what_is_listed(links, a, la, kitty_id);
        lemma_owns_what_is_listed(links, b, lb, kitty_id);
    }
}

/// Storing a kitty under an identity that is not stored yet keeps the
/// invariant.
pub proof fn lemma_insert_keeps_exclusive(
    store: Storage,
    owner: AccountId,
    kitty_id: KittyIndex,
    dna: Seq<u8>,
)
    requires
        exclusive(store),
        !store.kitties.contains_key(kitty_id),
    ensures
        exclusive(after_insert_kitty(store, owner, kitty_id, dna)),
{
    let links = store.owned_kitties;
    let after = after_insert_kitty(store, owner, kitty_id, dna);
    assert(has_list(links, owner));
    let list = choose|list: Seq<KittyIndex>| threads(links, owner, list);
    lemma_owns_what_is_listed(links, owner, list, kitty_id);
    lemma_append_threads(links, owner, kitty_id, list);
    lemma_append_owns(links, owner, kitty_id, list);
    assert forall|account: AccountId| #[trigger] has_list(after.owned_kitties, account) by {
        if account == owner {
            assert(threads(after.owned_kitties, owner, seq![kitty_id] + list));
        } else {
            assert(has_list(links, account));
            let other = choose|other: Seq<KittyIndex>| threads(links, account, other);
            lemma_append_keeps_others(links, owner, kitty_id, account);
            assert(threads(after.owned_kitties, account, other));
        }
    }
    assert forall|other: KittyIndex| #[trigger] after.kitties.contains_key(other) implies exists|
        account: AccountId,
    |
        owns(after.owned_kitties, account, other) by {
        if other == kitty_id {
            assert(owns(after.owned_kitties, owner, other));
        } else {
            assert(store.kitties.contains_key(other));
            let account = choose|account: AccountId| owns(links, account, other);
            assert(owns(after.owned_kitties, account, other));
        }
    }
}

/// Handing over a kitty that the giver owns keeps the invariant.
pub proof fn lemma_transfer_keeps_exclusive(
    store: Storage,
    sender: AccountId,
    to: AccountId,
    kitty_id: KittyIndex,
)
    requires
        exclusive(store),
        owns(store.owned_kitties, sender, kitty_id),
    ensures
        exclusive(after_transfer(store, sender, to, kitty_id)),
{
    let links = store.owned_kitties;
    let taken = links_after_remove(links, sender, kitty_id);
    let after = after_transfer(store, sender, to, kitty_id);
    assert(after.owned_kitties == links_after_append(taken, to, kitty_id));
    assert(has_list(links, sender));
    let from_list = choose|list: Seq<KittyIndex>| threads(links, sender, list);
    lemma_remove_threads(links, sender, kitty_id, from_list);
    lemma_remove_owns(links, sender, kitty_id, from_list);
    assert(has_list(links, to));
    let to_before = choose|list: Seq<KittyIndex>| threads(links, to, list);
    let to_list = if to == sender {
        without(from_list, kitty_id)
    } else {
        to_before
    };
    if to != sender {
        lemma_remove_keeps_others(links, sender, kitty_id, to);
    }
    assert(threads(taken, to, to_list));
    lemma_owns_what_is_listed(taken, to, to_list, kitty_id);
    assert(!owns(taken, to, kitty_id));
    lemma_append_threads(taken, to, kitty_id, to_list);
    lemma_append_owns(taken, to, kitty_id, to_list);
    assert forall|account: AccountId| #[trigger] has_list(after.owned_kitties, account) by {
        if account == to {
            assert(threads(after.owned_kitties, to, seq![kitty_id] + to_list));
        } else {
            assert(has_list(links, account));
            let other = if account == sender {
                without(from_list, kitty_id)
            } else {
                choose|other: Seq<KittyIndex>| threads(links, account, other)
            };
            if account != sender {
                lemma_remove_keeps_others(links, sender, kitty_id, account);
            }
            assert(threads(taken, account, other));
            lemma_append_keeps_others(taken, to, kitty_id, account);
            assert(threads(after.owned_kitties, account, other));
        }
    }
    assert forall|other: KittyIndex| #[trigger] after.kitties.contains_key(other) implies exists|
        account: AccountId,
    |
        owns(after.owned_kitties, account, other) by {
        if other == kitty_id {
            assert(owns(after.owned_kitties, to, other));
        } else {
            let account = choose|account: AccountId| owns(links, account, other);
            assert(owns(taken, account, other));
            assert(owns(after.owned_kitties, account, other));
        }
    }
    assert forall|a: AccountId, b: AccountId, other: KittyIndex|
        owns(after.owned_kitties, a, other) && owns(after.owned_kitties, b, other) implies a
        == b by {
        if other == kitty_id {
            assert(!owns(taken, a, other)) by {
                if owns(taken, a, other) {
                    assert(owns(links, a, other) && owns(links, sender, other));
                }
            }
            assert(!owns(taken, b, other)) by {
                if owns(taken, b, other) {
                    assert(owns(links, b, other) && owns(links, sender, other));
                }
            }
        } else {
            assert(owns(taken, a, other) && owns(taken, b, other));
            assert(owns(links, a, other) && owns(links, b, other));
        }
    }
    assert forall|account: AccountId, other: KittyIndex| #[trigger]
        owns(after.owned_kitties, account, other) implies after.kitties.contains_key(other) by {
        if other != kitty_id {
            assert(owns(taken, account, other));
            assert(owns(links, account, other));
        }
    }
}

/// A create keeps the invariant unless the counter names a stored kitty.
pub proof fn lemma_create_keeps_exclusive(store: Storage, sender: AccountId, dna: Seq<u8>)
    requires
        exclusive(store),
        !store.kitties.contains_key(store.kitties_count),
    ensures
        exclusive(create_outcome(store, sender, dna).1),
{
    if store.kitties_count != KittyIndex::MAX {
        lemma_insert_keeps_exclusive(store, sender, store.kitties_count, dna);
    }
}

/// A breed keeps the invariant unless the counter names a stored kitty.
pub proof fn lemma_breed_keeps_exclusive(
    store: Storage,
    sender: AccountId,
    kitty_id_1: KittyIndex,
    kitty_id_2: KittyIndex,
    selector: Seq<u8>,
)
    requires
        exclusive(store),
        !store.kitties.contains_key(store.kitties_count),
    ensures
        exclusive(breed_outcome(store, sender, kitty_id_1, kitty_id_2, selector).1),
{
    if store.kitties.contains_key(kitty_id_1) && store.kitties.contains_key(kitty_id_2)
        && kitty_id_1 != kitty_id_2 {
        lemma_create_keeps_exclusive(
            store,
            sender,
            crate::dna::spec_combine(
                store.kitties[kitty_id_1],
                store.kitties[kitty_id_2],
                selector,
            ),
        );
    }
}

/// A transfer keeps the invariant, whether or not it goes through.
pub proof fn lemma_transfer_outcome_keeps_exclusive(
    store: Storage,
    sender: AccountId,
    to: AccountId,
    kitty_id: KittyIndex,
)
    requires
        exclusive(store),
    ensures
        exclusive(transfer_outcome(store, sender, to, kitty_id).1),
{
    if owns(store.owned_kitties, sender, kitty_id) {
        lemma_transfer_keeps_exclusive(store, sender, to, kitty_id);
    }
}

/// Under the invariant a transfer by the owner to another account takes the
/// kitty off the giver's list, puts it in front of the receiver's, and leaves
/// the kitties and the counter alone.
pub proof fn lemma_transfer_by_owner(
    store: Storage,
    sender: AccountId,
    to: AccountId,
    kitty_id: KittyIndex,
    from_list: Seq<KittyIndex>,
    to_list: Seq<KittyIndex>,
)
    requires
        exclusive(store),
        sender != to,
        threads(store.owned_kitties, sender, from_list),
        threads(store.owned_kitties, to, to_list),
        from_list.contains(kitty_id),
    ensures
        transfer_outcome(store, sender, to, kitty_id).0 == Ok::<(), Error>(()),
        threads(
            transfer_outcome(store, sender, to, kitty_id).1.owned_kitties,
            sender,
            without(from_list, kitty_id),
        ),
        !without(from_list, kitty_id).contains(kitty_id),
        threads(
            transfer_outcome(store, sender, to, kitty_id).1.owned_kitties,
            to,
            seq![kitty_id] + to_list,
        ),
        transfer_outcome(store, sender, to, kitty_id).1.kitties == store.kitties,
        transfer_outcome(store, sender, to, kitty_id).1.kitties_count == store.kitties_count,
{
    let links = store.owned_kitties;
    lemma_owns_what_is_listed(links, sender, from_list, kitty_id);
    lemma_owns_what_is_listed(links, to, to_list, kitty_id);
    lemma_transfer_moves(links, sender, to, kitty_id, from_list, to_list);
}

/// A transfer by an account that does not own the kitty fails and changes
/// nothing.
pub proof fn lemma_transfer_by_stranger(
    store: Storage,
    sender: AccountId,
    to: AccountId,
    kitty_id: KittyIndex,
    from_list: Seq<KittyIndex>,
)
    requires
        threads(store.owned_kitties, sender, from_list),
        !from_list.contains(kitty_id),
    ensures
        transfer_outcome(store, sender, to, kitty_id) == (
            Err::<(), Error>(Error::NoPermissionToTransferKitty),
            store,
        ),
{
    lemma_owns_what_is_listed(store.owned_kitties, sender, from_list, kitty_id);
}

/// Once the counter stands at the largest identity, a create fails with an
/// overflow and changes nothing, and so does a breed of two different stored
/// kitties.
pub proof fn lemma_overflow(
    store: Storage,
    sender: AccountId,
    dna: Seq<u8>,
    kitty_id_1: KittyIndex,
    kitty_id_2: KittyIndex,
    selector: Seq<u8>,
)
    requires
        store.kitties_count == KittyIndex::MAX,
    ensures
        create_outcome(store, sender, dna) == (
            Err::<KittyIndex, Error>(Error::KittiesCountOverflow),
            store,
        ),
        store.kitties.contains_key(kitty_id_1) && store.kitties.contains_key(kitty_id_2)
            && kitty_id_1 != kitty_id_2 ==> breed_outcome(
            store,
            sender,
            kitty_id_1,
            kitty_id_2,
            selector,
        ) == (Err::<KittyIndex, Error>(Error::KittiesCountOverflow), store),
        breed_outcome(store, sender, kitty_id_1, kitty_id_2, selector).0 is Err,
        breed_outcome(store, sender, kitty_id_1, kitty_id_2, selector).1 == store,
{
}

/// Breeding a stored kitty with itself fails for want of a second parent,
/// whoever calls and whatever the selector, and changes nothing.
pub proof fn lemma_breed_rejects_self_pairing(
    store: Storage,
    sender: AccountId,
    kitty_id: KittyIndex,
    selector: Seq<u8>,
)
    requires
        store.kitties.contains_key(kitty_id),
    ensures
        breed_outcome(store, sender, kitty_id, kitty_id, selector) == (
            Err::<KittyIndex, Error>(Error::RequireDifferentParent),
            store,
        ),
{
}

/// A create that goes through returns the counter and leaves the counter at
/// the identity it returned: the call after it is given the same identity.
pub proof fn lemma_counter_holds_last_identity(
    store: Storage,
    first: AccountId,
    first_dna: Seq<u8>,
    second: AccountId,
    second_dna: Seq<u8>,
)
    requires
        create_outcome(store, first, first_dna).0 is Ok,
    ensures
        create_outcome(store, first, first_dna).0 == Ok::<KittyIndex, Error>(store.kitties_count),
        create_outcome(store, first, first_dna).1.kitties_count == store.kitties_count,
        create_outcome(create_outcome(store, first, first_dna).1, second, second_dna).0
            == create_outcome(store, first, first_dna).0,
{
}

} // verus!
