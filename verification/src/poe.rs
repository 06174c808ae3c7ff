//! Proof of existence: who claimed a piece of data first, and when.

use vstd::prelude::*;
use crate::links::AccountId;
use crate::table::{Table, TableKey};

verus! {

/// The number of a block.
pub type BlockNumber = u64;

impl TableKey for Vec<u8> {
    type Id = Seq<u8>;

    open spec fn id(&self) -> Seq<u8> {
        self@
    }

    fn same_as(&self, other: &Self) -> (same: bool) {
        if self.len() != other.len() {
            return false;
        }
        let mut i: usize = 0;
        while i < self.len()
            invariant
                i <= self.len(),
                self.len() == other.len(),
                forall|j: int| 0 <= j < i ==> self@[j] == other@[j],
            decreases self.len() - i,
        {
            if self[i] != other[i] {
                return false;
            }
            i += 1;
        }
        assert(self@ =~= other@);
        true
    }
}

/// Why a call was turned down.
#[derive(Clone, Copy, Debug, PartialEq, Eq)]
pub enum Error {
    /// The claim is taken.
    ProofAlreadyExist,
    /// Nobody holds the claim.
    ClaimNotExist,
    /// The caller does not hold the claim.
    NotClaimOwner,
    /// The claim is longer than the module takes.
    ProofTooLong,
}

/// What a call lets the world know.
#[derive(Debug, PartialEq, Eq)]
pub enum Event {
    /// An account made a claim.
    ClaimCreated(AccountId, Vec<u8>),
    /// An account gave up its claim.
    ClaimRevoked(AccountId, Vec<u8>),
}

/// An event as mathematics.
pub enum EventView {
    ClaimCreated(AccountId, Seq<u8>),
    ClaimRevoked(AccountId, Seq<u8>),
}

impl View for Event {
    type V = EventView;

    open spec fn view(&self) -> EventView {
        match *self {
            Event::ClaimCreated(who, claim) => EventView::ClaimCreated(who, claim@),
            Event::ClaimRevoked(who, claim) => EventView::ClaimRevoked(who, claim@),
        }
    }
}

/// What a call returned, as mathematics.
pub open spec fn seen(result: Result<Event, Error>) -> Result<EventView, Error> {
    match result {
        Ok(event) => Ok(event@),
        Err(error) => Err(error),
    }
}

/// What the module stores, as mathematics: for every claim its holder and the
/// block in which the holder got it, and the longest claim it takes.
pub struct Proofs {
    pub proofs: Map<Seq<u8>, (AccountId, BlockNumber)>,
    pub max_claim_length: u32,
}

/// The length of a claim as the module measures it: in thirty-two bits.
pub open spec fn measured(claim: Seq<u8>) -> u32 {
    claim.len() as usize as u32
}

/// What making a claim returns and leaves behind: the claim must be free and
/// no longer than the module takes.
pub open spec fn create_claim_outcome(
    store: Proofs,
    sender: AccountId,
    claim: Seq<u8>,
    now: BlockNumber,
) -> (Result<EventView, Error>, Proofs) {
    if store.proofs.contains_key(claim) {
        (Err(Error::ProofAlreadyExist), store)
    } else if store.max_claim_length < measured(claim) {
        (Err(Error::ProofTooLong), store)
    } else {
        (
            Ok(EventView::ClaimCreated(sender, claim)),
            Proofs {
                proofs: store.proofs.insert(claim, (sender, now)),
                max_claim_length: store.max_claim_length,
            },
        )
    }
}

/// What giving up a claim returns and leaves behind: the caller must hold it.
pub open spec fn revoke_claim_outcome(store: Proofs, sender: AccountId, claim: Seq<u8>) -> (
    Result<EventView, Error>,
    Proofs,
) {
    if !store.proofs.contains_key(claim) {
        (Err(Error::ClaimNotExist), store)
    } else if store.proofs[claim].0 != sender {
        (Err(Error::NotClaimOwner), store)
    } else {
        (
            Ok(EventView::ClaimRevoked(sender, claim)),
            Proofs {
                proofs: store.proofs.remove(claim),
                max_claim_length: store.max_claim_length,
            },
        )
    }
}

/// What handing a claim over returns and leaves behind: the caller must hold
/// it; the receiver then holds it as of the current block.
pub open spec fn transfer_claim_outcome(
    store: Proofs,
    sender: AccountId,
    claim: Seq<u8>,
    dest: AccountId,
    now: BlockNumber,
) -> (Result<(), Error>, Proofs) {
    if !store.proofs.contains_key(claim) {
        (Err(Error::ClaimNotExist), store)
    } else if store.proofs[claim].0 != sender {
        (Err(Error::NotClaimOwner), store)
    } else {
        (
            Ok(()),
            Proofs {
                proofs: store.proofs.insert(claim, (dest, now)),
                max_claim_length: store.max_claim_length,
            },
        )
    }
}

/// The proof-of-existence module.
pub struct Module {
    proofs: Table<Vec<u8>, (AccountId, BlockNumber)>,
    max_claim_length: u32,
}

impl View for Module {
    type V = Proofs;

    closed spec fn view(&self) -> Proofs {
        Proofs { proofs: self.proofs.map(), max_claim_length: self.max_claim_length }
    }
}

/// A copy of a claim.
fn copy_of(claim: &Vec<u8>) -> (copy: Vec<u8>)
    ensures
        copy@ == claim@,
{
    let mut copy: Vec<u8> = Vec::new();
    let mut i: usize = 0;
    while i < claim.len()
        invariant
            i <= claim.len(),
            copy@ == claim@.subrange(0, i as int),
        decreases claim.len() - i,
    {
        copy.push(claim[i]);
        assert(copy@ =~= claim@.subrange(0, i + 1));
        i += 1;
    }
    assert(copy@ =~= claim@);
    copy
}

impl Module {
    /// No claim stands twice in the store.
    pub closed spec fn well_formed(&self) -> bool {
        self.proofs.well_formed()
    }

    /// A module without claims that takes claims of up to the given length.
    pub fn new(max_claim_length: u32) -> (module: Self)
        ensures
            module.well_formed(),
            module@ == (Proofs { proofs: Map::empty(), max_claim_length }),
    {
        Module { proofs: Table::new(), max_claim_length }
    }

    /// The holder of a claim and the block in which the holder got it.
    pub fn proofs(&self, claim: &Vec<u8>) -> (held: Option<(AccountId, BlockNumber)>)
        requires
            self.well_formed(),
        ensures
            held == if self@.proofs.contains_key(claim@) {
                Some(self@.proofs[claim@])
            } else {
                None
            },
    {
        self.proofs.get(claim)
    }

    /// Lets `sender` claim a piece of data that nobody has claimed, as of the
    /// block `now`.
    pub fn create_claim(&mut self, sender: AccountId, claim: Vec<u8>, now: BlockNumber) -> (created:
        Result<Event, Error>)
        requires
            old(self).well_formed(),
        ensures
            final(self).well_formed(),
            (seen(created), final(self)@) == create_claim_outcome(old(self)@, sender, claim@, now),
    {
        if self.proofs.get(&claim).is_some() {
            return Err(Error::ProofAlreadyExist);
        }
        if self.max_claim_length < #[verifier::truncate] (claim.len() as u32) {
            return Err(Error::ProofTooLong);
        }
        self.proofs.insert(copy_of(&claim), (sender, now));

        Ok(Event::ClaimCreated(sender, claim))
    }

    /// Lets the holder give up a claim.
    pub fn revoke_claim(&mut self, sender: AccountId, claim: Vec<u8>) -> (revoked: Result<
        Event,
        Error,
    >)
        requires
            old(self).well_formed(),
        ensures
            final(self).well_formed(),
            (seen(revoked), final(self)@) == revoke_claim_outcome(old(self)@, sender, claim@),
    {
        let owner = match self.proofs.get(&claim) {
            Some((owner, _)) => owner,
            None => return Err(Error::ClaimNotExist),
        };
        if sender != owner {
            return Err(Error::NotClaimOwner);
        }
        self.proofs.remove(&claim);

        Ok(Event::ClaimRevoked(sender, claim))
    }

    /// Lets the holder hand a claim over to `dest`, as of the block `now`.
    pub fn transfer_claim(
        &mut self,
        sender: AccountId,
        claim: Vec<u8>,
        dest: AccountId,
        now: BlockNumber,
    ) -> (done: Result<(), Error>)
        requires
            old(self).well_formed(),
        ensures
            final(self).well_formed(),
            (done, final(self)@) == transfer_claim_outcome(old(self)@, sender, claim@, dest, now),
    {
        let owner = match self.proofs.get(&claim) {
            Some((owner, _)) => owner,
            None => return Err(Error::ClaimNotExist),
        };
        if owner != sender {
            return Err(Error::NotClaimOwner);
        }
        self.proofs.insert(claim, (dest, now));

        Ok(())
    }
}

} // verus!
