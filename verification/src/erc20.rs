//! A token ledger: balances, allowances, and the transfers between accounts.

use vstd::prelude::*;
use crate::table::{Table, TableKey};

verus! {

/// An amount of tokens.
pub type Balance = u128;

/// An account of the ledger: thirty-two bytes.
#[derive(Clone, Copy, Debug, PartialEq, Eq)]
pub struct AccountId(pub [u8; 32]);

impl View for AccountId {
    type V = Seq<u8>;

    open spec fn view(&self) -> Seq<u8> {
        self.0@
    }
}

impl TableKey for AccountId {
    type Id = Seq<u8>;

    open spec fn id(&self) -> Seq<u8> {
        self@
    }

    fn same_as(&self, other: &Self) -> (same: bool) {
        let mut i: usize = 0;
        while i < 32
            invariant
                i <= 32,
                forall|j: int| 0 <= j < i ==> self.0@[j] == other.0@[j],
            decreases 32 - i,
        {
            if self.0[i] != other.0[i] {
                return false;
            }
            i += 1;
        }
        assert(self.0@ =~= other.0@);
        true
    }
}

/// The pair that an allowance is kept under: who owns and who may spend.
#[derive(Clone, Copy, Debug, PartialEq, Eq)]
pub struct Grant {
    pub owner: AccountId,
    pub spender: AccountId,
}

impl TableKey for Grant {
    type Id = (Seq<u8>, Seq<u8>);

    open spec fn id(&self) -> (Seq<u8>, Seq<u8>) {
        (self.owner@, self.spender@)
    }

    fn same_as(&self, other: &Self) -> (same: bool) {
        self.owner.same_as(&other.owner) && self.spender.same_as(&other.spender)
    }
}

/// Tokens went from one account to another.
#[derive(Clone, Copy, Debug, PartialEq, Eq)]
pub struct Transfer {
    pub from: AccountId,
    pub to: AccountId,
    pub value: Balance,
}

/// An owner allowed a spender to draw on the owner's tokens.
#[derive(Clone, Copy, Debug, PartialEq, Eq)]
pub struct Approval {
    pub owner: AccountId,
    pub spender: AccountId,
    pub value: Balance,
}

/// Why a call was turned down.
#[derive(Clone, Copy, Debug, PartialEq, Eq)]
pub enum Error {
    /// The giver has fewer tokens than the call moves.
    InSufficientBalance,
    /// The spender may draw fewer tokens than the call moves.
    NotEnoughAllowance,
}

/// What a call returns: its value, or why it was turned down.
pub type Result<T> = core::result::Result<T, Error>;

/// The ledger as mathematics.
pub struct Ledger {
    pub total_supply: Balance,
    pub balances: Map<Seq<u8>, Balance>,
    pub allowances: Map<(Seq<u8>, Seq<u8>), Balance>,
}

/// The tokens of an account: nothing where the ledger has no entry for it.
pub open spec fn balance_in(ledger: Ledger, owner: Seq<u8>) -> Balance {
    if ledger.balances.contains_key(owner) {
        ledger.balances[owner]
    } else {
        0
    }
}

/// What a spender may draw on an owner's tokens: nothing where the ledger has
/// no entry for the pair.
pub open spec fn allowance_in(ledger: Ledger, owner: Seq<u8>, spender: Seq<u8>) -> Balance {
    if ledger.allowances.contains_key((owner, spender)) {
        ledger.allowances[(owner, spender)]
    } else {
        0
    }
}

/// The ledger after `value` tokens went from `from` to `to`: the giver has
/// that many less and the receiver that many more; an account that gives to
/// itself keeps what it has.
pub open spec fn after_move(ledger: Ledger, from: Seq<u8>, to: Seq<u8>, value: Balance) -> Ledger {
    Ledger {
        total_supply: ledger.total_supply,
        balances: if from == to {
            ledger.balances.insert(from, balance_in(ledger, from))
        } else {
            ledger.balances.insert(from, (balance_in(ledger, from) - value) as Balance).insert(
                to,
                (balance_in(ledger, to) + value) as Balance,
            )
        },
        allowances: ledger.allowances,
    }
}

/// What moving tokens returns and leaves behind: the giver must have them.
pub open spec fn move_outcome(ledger: Ledger, from: AccountId, to: AccountId, value: Balance) -> (
    Result<Transfer>,
    Ledger,
) {
    if balance_in(ledger, from@) < value {
        (Err(Error::InSufficientBalance), ledger)
    } else {
        (Ok(Transfer { from, to, value }), after_move(ledger, from@, to@, value))
    }
}

/// What an approval returns and leaves behind.
pub open spec fn approve_outcome(
    ledger: Ledger,
    owner: AccountId,
    spender: AccountId,
    value: Balance,
) -> (Result<Approval>, Ledger) {
    (
        Ok(Approval { owner, spender, value }),
        Ledger {
            total_supply: ledger.total_supply,
            balances: ledger.balances,
            allowances: ledger.allowances.insert((owner@, spender@), value),
        },
    )
}

/// What a transfer by a spender returns and leaves behind: the spender must
/// be allowed the amount and the owner must have it; the allowance then
/// shrinks by the amount.
pub open spec fn spend_outcome(
    ledger: Ledger,
    who: AccountId,
    from: AccountId,
    to: AccountId,
    value: Balance,
) -> (Result<Transfer>, Ledger) {
    if allowance_in(ledger, from@, who@) < value {
        (Err(Error::NotEnoughAllowance), ledger)
    } else if balance_in(ledger, from@) < value {
        (Err(Error::InSufficientBalance), ledger)
    } else {
        (
            Ok(Transfer { from, to, value }),
            Ledger {
                total_supply: ledger.total_supply,
                balances: after_move(ledger, from@, to@, value).balances,
                allowances: ledger.allowances.insert(
                    (from@, who@),
                    (allowance_in(ledger, from@, who@) - value) as Balance,
                ),
            },
        )
    }
}

/// The token ledger.
pub struct Erc20 {
    total_supply: Balance,
    balances: Table<AccountId, Balance>,
    allowances: Table<Grant, Balance>,
}

impl View for Erc20 {
    type V = Ledger;

    closed spec fn view(&self) -> Ledger {
        Ledger {
            total_supply: self.total_supply,
            balances: self.balances.map(),
            allowances: self.allowances.map(),
        }
    }
}

impl Erc20 {
    /// No account stands twice in the ledger, and the balances add up to the
    /// total supply.
    pub closed spec fn well_formed(&self) -> bool {
        &&& self.balances.well_formed()
        &&& self.allowances.well_formed()
        &&& self.balances.sum() == self.total_supply
    }

    /// A ledger whose whole supply belongs to `caller`.
    pub fn new(caller: AccountId, total_supply: Balance) -> (ledger: Self)
        ensures
            ledger.well_formed(),
            ledger@ == (Ledger {
                total_supply,
                balances: Map::<Seq<u8>, Balance>::empty().insert(caller@, total_supply),
                allowances: Map::empty(),
            }),
    {
        let mut balances = Table::new();
        let ghost empty = balances;
        balances.insert(caller, total_supply);
        proof {
            Table::lemma_insert_sum(empty, balances, caller, total_supply);
        }
        let instance = Erc20 { total_supply, balances, allowances: Table::new() };

        instance
    }

    /// All tokens there are.
    pub fn total_supply(&self) -> (supply: Balance)
        ensures
            supply == self@.total_supply,
    {
        self.total_supply
    }

    /// The tokens of an account.
    pub fn balance_of(&self, owner: AccountId) -> (balance: Balance)
        requires
            self.well_formed(),
        ensures
            balance == balance_in(self@, owner@),
    {
        match self.balances.get(&owner) {
            Some(balance) => balance,
            None => 0,
        }
    }

    /// What `spender` may draw on the tokens of `owner`.
    pub fn allowance_of(&self, owner: AccountId, spender: AccountId) -> (allowance: Balance)
        requires
            self.well_formed(),
        ensures
            allowance == allowance_in(self@, owner@, spender@),
    {
        match self.allowances.get(&Grant { owner, spender }) {
            Some(allowance) => allowance,
            None => 0,
        }
    }

    /// Moves tokens of the caller `who` to `to`.
    pub fn transfer(&mut self, who: AccountId, to: AccountId, value: Balance) -> (moved: Result<
        Transfer,
    >)
        requires
            old(self).well_formed(),
        ensures
            final(self).well_formed(),
            (moved, final(self)@) == move_outcome(old(self)@, who, to, value),
    {
        self._transfer_from_to(who, to, value)
    }

    /// Lets `spender` draw up to `value` on the tokens of the caller `owner`.
    pub fn approve(&mut self, owner: AccountId, spender: AccountId, value: Balance) -> (approved:
        Result<Approval>)
        requires
            old(self).well_formed(),
        ensures
            final(self).well_formed(),
            (approved, final(self)@) == approve_outcome(old(self)@, owner, spender, value),
    {
        self.allowances.insert(Grant { owner, spender }, value);
        Ok(Approval { owner, spender, value })
    }

    /// Moves tokens of `from` to `to` on behalf of the caller `who`, within
    /// what `from` has allowed `who`.
    pub fn transfer_from(
        &mut self,
        who: AccountId,
        from: AccountId,
        to: AccountId,
        value: Balance,
    ) -> (moved: Result<Transfer>)
        requires
            old(self).well_formed(),
        ensures
            final(self).well_formed(),
            (moved, final(self)@) == spend_outcome(old(self)@, who, from, to, value),
    {
        let from_allowance = self.allowance_of(from, who);
        if from_allowance < value {
            return Err(Error::NotEnoughAllowance);
        }
        let moved = self._transfer_from_to(from, to, value)?;
        self.allowances.insert(Grant { owner: from, spender: who }, from_allowance - value);
        Ok(moved)
    }

    /// Moves tokens from one account to another.
    fn _transfer_from_to(&mut self, from: AccountId, to: AccountId, value: Balance) -> (moved:
        Result<Transfer>)
        requires
            old(self).well_formed(),
        ensures
            final(self).well_formed(),
            (moved, final(self)@) == move_outcome(old(self)@, from, to, value),
    {
        let from_balance = self.balance_of(from);
        if from_balance < value {
            return Err(Error::InSufficientBalance);
        }
        self.balances.insert(from, from_balance - value);
        let to_balance = match self.balances.get(&to) {
            Some(balance) => balance,
            None => 0,
        };
        let ghost debited = self.balances;
        proof {
            Table::lemma_insert_sum(old(self).balances, debited, from, (from_balance - value) as u128);
            if debited.map().contains_key(to@) {
                debited.lemma_balance_bounded(to@);
            }
        }
        self.balances.insert(to, to_balance + value);
        proof {
            Table::lemma_insert_sum(debited, self.balances, to, (to_balance + value) as u128);
            assert(self@.balances =~= after_move(old(self)@, from@, to@, value).balances);
        }

        Ok(Transfer { from, to, value })
    }
}

} // verus!
