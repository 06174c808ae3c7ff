//! The kitties module: its storage and the calls that change it.

use std::collections::HashMap;
use vstd::prelude::*;
use crate::dna::{combine, spec_combine};
use crate::laws::links_after_transfer;
use crate::links::{links_after_append, owns, AccountId, KittyIndex, Links};
use crate::ownership::OwnedKitties;
use crate::seed::{blake2_128_digest, random_value, seed_payload};

verus! {

broadcast use vstd::std_specs::hash::group_hash_axioms;

/// A kitty: sixteen bytes of genetic material.
#[derive(Clone, Copy, Debug, PartialEq, Eq)]
pub struct Kitty(pub [u8; 16]);

impl View for Kitty {
    type V = Seq<u8>;

    open spec fn view(&self) -> Seq<u8> {
        self.0@
    }
}

/// Why a call was turned down.
#[derive(Clone, Copy, Debug, PartialEq, Eq)]
pub enum Error {
    /// The counter stands at the largest identity.
    KittiesCountOverflow,
    /// No kitty is stored under an identity that the call names.
    InvalidKittyId,
    /// Both parents are the same kitty.
    RequireDifferentParent,
    /// The caller does not own the kitty that is to change hands.
    NoPermissionToTransferKitty,
}

/// What the module stores, as mathematics: the genes of every kitty, the
/// identity that was given out last, and the ownership index.
pub struct Storage {
    pub kitties: Map<KittyIndex, Seq<u8>>,
    pub kitties_count: KittyIndex,
    pub owned_kitties: Links,
}

/// The storage after a kitty was stored for an owner: its genes stand under
/// its identity, the counter holds that identity, and the kitty is the newest
/// in the owner's ring.
pub open spec fn after_insert_kitty(
    store: Storage,
    owner: AccountId,
    kitty_id: KittyIndex,
    dna: Seq<u8>,
) -> Storage {
    Storage {
        kitties: store.kitties.insert(kitty_id, dna),
        kitties_count: kitty_id,
        owned_kitties: links_after_append(store.owned_kitties, owner, kitty_id),
    }
}

/// The storage after a kitty changed hands: only the ownership index differs.
pub open spec fn after_transfer(
    store: Storage,
    sender: AccountId,
    to: AccountId,
    kitty_id: KittyIndex,
) -> Storage {
    Storage {
        kitties: store.kitties,
        kitties_count: store.kitties_count,
        owned_kitties: links_after_transfer(store.owned_kitties, sender, to, kitty_id),
    }
}

/// The identity that the next kitty gets: the counter, unless it stands at
/// the largest identity.
pub open spec fn next_id(store: Storage) -> Result<KittyIndex, Error> {
    if store.kitties_count == KittyIndex::MAX {
        Err(Error::KittiesCountOverflow)
    } else {
        Ok(store.kitties_count)
    }
}

/// What creating a kitty with given genes returns and leaves behind.
pub open spec fn create_outcome(store: Storage, sender: AccountId, dna: Seq<u8>) -> (
    Result<KittyIndex, Error>,
    Storage,
) {
    match next_id(store) {
        Ok(kitty_id) => (Ok(kitty_id), after_insert_kitty(store, sender, kitty_id, dna)),
        Err(error) => (Err(error), store),
    }
}

/// What breeding two kitties under a given selector returns and leaves
/// behind: both parents must be stored and differ, and the counter must have
/// room; the child then gets the mixed genes and belongs to the caller.
pub open spec fn breed_outcome(
    store: Storage,
    sender: AccountId,
    kitty_id_1: KittyIndex,
    kitty_id_2: KittyIndex,
    selector: Seq<u8>,
) -> (Result<KittyIndex, Error>, Storage) {
    if !store.kitties.contains_key(kitty_id_1) || !store.kitties.contains_key(kitty_id_2) {
        (Err(Error::InvalidKittyId), store)
    } else if kitty_id_1 == kitty_id_2 {
        (Err(Error::RequireDifferentParent), store)
    } else {
        create_outcome(
            store,
            sender,
            spec_combine(store.kitties[kitty_id_1], store.kitties[kitty_id_2], selector),
        )
    }
}

/// What a transfer returns and leaves behind: the caller must have a node
/// for the kitty.
pub open spec fn transfer_outcome(
    store: Storage,
    sender: AccountId,
    to: AccountId,
    kitty_id: KittyIndex,
) -> (Result<(), Error>, Storage) {
    if owns(store.owned_kitties, sender, kitty_id) {
        (Ok(()), after_transfer(store, sender, to, kitty_id))
    } else {
        (Err(Error::NoPermissionToTransferKitty), store)
    }
}

/// The kitties module.
pub struct Module {
    kitties: HashMap<KittyIndex, Kitty>,
    kitties_count: KittyIndex,
    owned_kitties: OwnedKitties,
}

impl View for Module {
    type V = Storage;

    closed spec fn view(&self) -> Storage {
        Storage {
            kitties: self.kitties@.map_values(|kitty: Kitty| kitty@),
            kitties_count: self.kitties_count,
            owned_kitties: self.owned_kitties@,
        }
    }
}

impl Module {
    /// A module that stores no kitty yet.
    pub fn new() -> (module: Self)
        ensures
            module@ == (Storage {
                kitties: Map::empty(),
                kitties_count: 0,
                owned_kitties: Map::empty(),
            }),
    {
        let module = Module {
            kitties: HashMap::new(),
            kitties_count: 0,
            owned_kitties: OwnedKitties::new(),
        };
        assert(module@.kitties =~= Map::empty());
        module
    }

    /// The kitty stored under an identity.
    pub fn kitties(&self, kitty_id: KittyIndex) -> (kitty: Option<Kitty>)
        ensures
            match kitty {
                Some(kitty) => self@.kitties.contains_key(kitty_id) && kitty@
                    == self@.kitties[kitty_id],
                None => !self@.kitties.contains_key(kitty_id),
            },
    {
        match self.kitties.get(&kitty_id) {
            Some(kitty) => Some(*kitty),
            None => None,
        }
    }

    /// The identity that was given out last.
    pub fn kitties_count(&self) -> (count: KittyIndex)
        ensures
            count == self@.kitties_count,
    {
        self.kitties_count
    }

    /// The ownership index.
    pub fn owned_kitties(&self) -> (index: &OwnedKitties)
        ensures
            index@ == self@.owned_kitties,
    {
        &self.owned_kitties
    }

    /// Stores a kitty for an owner and sets the counter to its identity.
    pub fn insert_kitty(&mut self, owner: &AccountId, kitty_id: KittyIndex, kitty: Kitty)
        ensures
            final(self)@ == after_insert_kitty(old(self)@, *owner, kitty_id, kitty@),
    {
        self.kitties.insert(kitty_id, kitty);
        self.kitties_count = kitty_id;
        self.owned_kitties.append(owner, kitty_id);
        assert(self@.kitties =~= old(self)@.kitties.insert(kitty_id, kitty@));
    }

    /// The identity for the next kitty.
    pub fn next_kitty_id(&self) -> (kitty_id: Result<KittyIndex, Error>)
        ensures
            kitty_id == next_id(self@),
    {
        let kitty_id = self.kitties_count;
        if kitty_id == KittyIndex::MAX {
            return Err(Error::KittiesCountOverflow);
        }
        Ok(kitty_id)
    }

    /// Creates a kitty with the given genes for `sender`.
    pub fn create_with_dna(&mut self, sender: &AccountId, dna: [u8; 16]) -> (created: Result<
        KittyIndex,
        Error,
    >)
        ensures
            (created, final(self)@) == create_outcome(old(self)@, *sender, dna@),
    {
        let kitty_id = self.next_kitty_id()?;
        self.insert_kitty(sender, kitty_id, Kitty(dna));
        Ok(kitty_id)
    }

    /// Creates a kitty for `sender`, with genes drawn from the seed, the
    /// caller and the call's place in the block.
    pub fn create(
        &mut self,
        sender: &AccountId,
        seed: &[u8; 32],
        extrinsic_index: Option<u32>,
    ) -> (created: Result<KittyIndex, Error>)
        ensures
            (created, final(self)@) == create_outcome(
                old(self)@,
                *sender,
                blake2_128_digest(seed_payload(seed@, *sender, extrinsic_index)),
            ),
    {
        let kitty_id = self.next_kitty_id()?;
        let dna = random_value(seed, sender, extrinsic_index);
        self.insert_kitty(sender, kitty_id, Kitty(dna));
        Ok(kitty_id)
    }

    /// Hands a kitty of `sender` over to `to`.
    pub fn do_transfer(&mut self, sender: &AccountId, to: &AccountId, kitty_id: KittyIndex) -> (done:
        Result<(), Error>)
        ensures
            (done, final(self)@) == transfer_outcome(old(self)@, *sender, *to, kitty_id),
    {
        let item = self.owned_kitties.get(sender, Some(kitty_id));
        match item {
            Some(_v) => {
                self.owned_kitties.remove(sender, kitty_id);
                self.owned_kitties.append(to, kitty_id);
            },
            None => return Err(Error::NoPermissionToTransferKitty),
        };

        Ok(())
    }

    /// Breeds a child of two kitties for `sender` under the given selector.
    pub fn breed_with_selector(
        &mut self,
        sender: &AccountId,
        kitty_id_1: KittyIndex,
        kitty_id_2: KittyIndex,
        selector: &[u8; 16],
    ) -> (bred: Result<KittyIndex, Error>)
        ensures
            (bred, final(self)@) == breed_outcome(
                old(self)@,
                *sender,
                kitty_id_1,
                kitty_id_2,
                selector@,
            ),
    {
        let kitty1 = match self.kitties(kitty_id_1) {
            Some(kitty) => kitty,
            None => return Err(Error::InvalidKittyId),
        };
        let kitty2 = match self.kitties(kitty_id_2) {
            Some(kitty) => kitty,
            None => return Err(Error::InvalidKittyId),
        };

        if kitty_id_1 == kitty_id_2 {
            return Err(Error::RequireDifferentParent);
        }

        let kitty_id = self.next_kitty_id()?;

        let new_dna = combine(&kitty1.0, &kitty2.0, selector);

        self.insert_kitty(sender, kitty_id, Kitty(new_dna));

        Ok(kitty_id)
    }

    /// Breeds a child of two kitties for `sender`, under a selector drawn from
    /// the seed, the caller and the call's place in the block.
    pub fn do_breed(
        &mut self,
        sender: &AccountId,
        kitty_id_1: KittyIndex,
        kitty_id_2: KittyIndex,
        seed: &[u8; 32],
        extrinsic_index: Option<u32>,
    ) -> (bred: Result<KittyIndex, Error>)
        ensures
            (bred, final(self)@) == breed_outcome(
                old(self)@,
                *sender,
                kitty_id_1,
                kitty_id_2,
                blake2_128_digest(seed_payload(seed@, *sender, extrinsic_index)),
            ),
    {
        let selector = random_value(seed, sender, extrinsic_index);
        self.breed_with_selector(sender, kitty_id_1, kitty_id_2, &selector)
    }
}

} // verus!
