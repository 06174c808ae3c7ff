//! The ownership index as a data structure: every node of every owner in one
//! flat map, read and written a few entries at a time.

use std::collections::HashMap;
use vstd::prelude::*;
use crate::laws::{lemma_append_threads, lemma_remove_threads, without};
use crate::links::{
    link_at, links_after_append, links_after_remove, threaded_at, threads, unlinked, AccountId,
    KittyIndex, KittyLinkedItem, LinkKey, Links,
};

verus! {

broadcast use vstd::std_specs::hash::group_hash_axioms;

/// The place of a node in the flat map: the owner in the upper bits, and in
/// the lower thirty-three bits zero for the sentinel or the kitty plus one.
pub open spec fn storage_key(account: AccountId, key: Option<KittyIndex>) -> u128 {
    (account as u128 * 0x2_0000_0000 + match key {
        None => 0,
        Some(kitty_id) => kitty_id as u128 + 1,
    }) as u128
}

/// Different nodes have different places.
pub proof fn lemma_storage_key_injective()
    ensures
        forall|a: AccountId, j: Option<KittyIndex>, b: AccountId, k: Option<KittyIndex>|
            #[trigger] storage_key(a, j) == #[trigger] storage_key(b, k) ==> a == b && j == k,
{
}

/// Computes the place of a node in the flat map.
fn storage_key_of(account: AccountId, key: Option<KittyIndex>) -> (place: u128)
    ensures
        place == storage_key(account, key),
{
    let slot: u128 = match key {
        None => 0,
        Some(kitty_id) => kitty_id as u128 + 1,
    };
    account as u128 * 0x2_0000_0000 + slot
}

/// The ownership index of all accounts.
pub struct OwnedKitties {
    cells: HashMap<u128, KittyLinkedItem>,
}

impl View for OwnedKitties {
    type V = Links;

    closed spec fn view(&self) -> Links {
        Map::new(
            |key: LinkKey| self.cells@.contains_key(storage_key(key.0, key.1)),
            |key: LinkKey| self.cells@[storage_key(key.0, key.1)],
        )
    }
}

impl OwnedKitties {
    /// An index in which nobody owns anything.
    pub fn new() -> (index: Self)
        ensures
            index@ == Map::<LinkKey, KittyLinkedItem>::empty(),
    {
        let index = OwnedKitties { cells: HashMap::new() };
        assert(index@ =~= Map::<LinkKey, KittyLinkedItem>::empty());
        index
    }

    /// The stored node under a key, if there is one.
    pub fn get(&self, account: &AccountId, key: Option<KittyIndex>) -> (item: Option<
        KittyLinkedItem,
    >)
        ensures
            item == if self@.contains_key((*account, key)) {
                Some(self@[(*account, key)])
            } else {
                None
            },
    {
        match self.cells.get(&storage_key_of(*account, key)) {
            Some(item) => Some(*item),
            None => None,
        }
    }

    /// The sentinel of an account.
    pub fn read_head(&self, account: &AccountId) -> (item: KittyLinkedItem)
        ensures
            item == link_at(self@, *account, None),
    {
        self.read(account, None)
    }

    /// Stores the sentinel of an account.
    fn write_head(&mut self, account: &AccountId, item: KittyLinkedItem)
        ensures
            final(self)@ == old(self)@.insert((*account, None), item),
    {
        self.write(account, None, item);
    }

    /// The node under a key; the unlinked node where none is stored.
    pub fn read(&self, account: &AccountId, key: Option<KittyIndex>) -> (item: KittyLinkedItem)
        ensures
            item == link_at(self@, *account, key),
    {
        match self.get(account, key) {
            Some(item) => item,
            None => KittyLinkedItem { prev: None, next: None },
        }
    }

    /// Stores a node under a key, whether or not one was there.
    fn write(&mut self, account: &AccountId, key: Option<KittyIndex>, item: KittyLinkedItem)
        ensures
            final(self)@ == old(self)@.insert((*account, key), item),
    {
        self.cells.insert(storage_key_of(*account, key), item);
        proof {
            lemma_storage_key_injective();
            assert(self@ =~= old(self)@.insert((*account, key), item));
        }
    }

    /// Takes the node under a key out of the map and hands it over.
    fn take(&mut self, account: &AccountId, key: Option<KittyIndex>) -> (item: Option<
        KittyLinkedItem,
    >)
        ensures
            item == if old(self)@.contains_key((*account, key)) {
                Some(old(self)@[(*account, key)])
            } else {
                None
            },
            final(self)@ == old(self)@.remove((*account, key)),
    {
        let item = self.cells.remove(&storage_key_of(*account, key));
        proof {
            lemma_storage_key_injective();
            assert(self@ =~= old(self)@.remove((*account, key)));
        }
        item
    }

    /// Links `kitty_id` in as the newest kitty of `account`, whatever the
    /// index holds. Where the account's nodes thread a list without the
    /// kitty, the kitty is put in front of it.
    pub fn append(&mut self, account: &AccountId, kitty_id: KittyIndex)
        ensures
            final(self)@ == links_after_append(old(self)@, *account, kitty_id),
            forall|list: Seq<KittyIndex>|
                threads(old(self)@, *account, list) && !list.contains(kitty_id) ==> #[trigger] threads(
                    final(self)@,
                    *account,
                    seq![kitty_id] + list,
                ),
    {
        let head = self.read_head(account);
        let new_head = KittyLinkedItem { prev: Some(kitty_id), next: head.next };

        self.write_head(account, new_head);

        let prev = self.read(account, head.prev);
        let new_prev = KittyLinkedItem { prev: prev.prev, next: Some(kitty_id) };
        self.write(account, head.prev, new_prev);

        let item = KittyLinkedItem { prev: head.prev, next: None };
        self.write(account, Some(kitty_id), item);

        proof {
            assert forall|list: Seq<KittyIndex>|
                threads(old(self)@, *account, list) && !list.contains(kitty_id) implies #[trigger] threads(
                self@,
                *account,
                seq![kitty_id] + list,
            ) by {
                lemma_append_threads(old(self)@, *account, kitty_id, list);
            }
        }
    }

    /// Takes the node of `kitty_id` out of the ring of `account` and joins its
    /// neighbours; nothing changes where the account has no such node. Where
    /// the account's nodes thread a list, the kitty leaves it and the others
    /// keep their order.
    pub fn remove(&mut self, account: &AccountId, kitty_id: KittyIndex)
        ensures
            final(self)@ == links_after_remove(old(self)@, *account, kitty_id),
            forall|list: Seq<KittyIndex>|
                threads(old(self)@, *account, list) ==> #[trigger] threads(
                    final(self)@,
                    *account,
                    without(list, kitty_id),
                ),
    {
        if let Some(item) = self.take(account, Some(kitty_id)) {
            let prev = self.read(account, item.prev);
            let new_prev = KittyLinkedItem { prev: prev.prev, next: item.next };

            self.write(account, item.prev, new_prev);

            let next = self.read(account, item.next);
            let new_next = KittyLinkedItem { prev: item.prev, next: next.next };

            self.write(account, item.next, new_next);
        } else {
            assert(self@ =~= old(self)@);
        }
        proof {
            assert forall|list: Seq<KittyIndex>| threads(old(self)@, *account, list) implies #[trigger] threads(
                self@,
                *account,
                without(list, kitty_id),
            ) by {
                lemma_remove_threads(old(self)@, *account, kitty_id, list);
            }
        }
    }
    /// The kitties of an account whose nodes thread a list, newest first.
    pub fn kitties_of(&self, account: &AccountId) -> (list: Vec<KittyIndex>)
        requires
            exists|list: Seq<KittyIndex>| threads(self@, *account, list),
        ensures
            threads(self@, *account, list@),
    {
        let ghost full = choose|list: Seq<KittyIndex>| threads(self@, *account, list);
        let mut list: Vec<KittyIndex> = Vec::new();
        let mut cursor = self.read_head(account).prev;
        loop
            invariant
                threads(self@, *account, full),
                list.len() <= full.len(),
                list@ == full.subrange(0, list.len() as int),
                cursor == if list.len() < full.len() {
                    Some(full[list.len() as int])
                } else {
                    None
                },
            ensures
                list@ == full,
            decreases full.len() - list.len(),
        {
            match cursor {
                None => {
                    assert(list@ =~= full);
                    break ;
                },
                Some(kitty_id) => {
                    assert(threaded_at(self@, *account, full, list.len() as int));
                    cursor = self.read(account, Some(kitty_id)).prev;
                    list.push(kitty_id);
                    assert(list@ =~= full.subrange(0, list.len() as int));
                },
            }
        }
        list
    }

}

} // verus!
