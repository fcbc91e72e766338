//! The ledger: the mints, the token holding accounts and the vault records
//! that exist, and the steps that change them.

use crate::address::{derive_address, derived_address, seeds_view, Address};
use crate::error::EscrowError;
use crate::states::{
    check_authority, check_vault_address, find_vault_address, vault_address, vault_authority,
    Vault,
};
use crate::supply::{
    held, lemma_total_none, lemma_total_one, lemma_total_push, lemma_total_remove,
    lemma_total_two, lemma_total_update, total,
};
use crate::table::{has_key, index_of, lemma_entry, lemma_index, Table};
use crate::token::{
    associated_address, associated_token_address, check_holding_account, CloseAccount, Mint,
    TokenAccount, TransferChecked,
};
use vstd::prelude::*;

verus! {

/// What a ledger holds, as maps from addresses.
pub struct LedgerView {
    /// The address of the escrow program, under which vault addresses are
    /// derived.
    pub program: Address,
    /// The mints that exist.
    pub mints: Map<Address, Mint>,
    /// The token holding accounts that exist.
    pub tokens: Map<Address, TokenAccount>,
    /// The vault records that are live.
    pub vaults: Map<Address, Vault>,
}

impl LedgerView {
    /// The holding account at `a` is of a mint that exists, and `a` is the
    /// canonical address for its owner and mint.
    pub open spec fn token_inv(self, a: Address) -> bool {
        &&& self.mints.contains_key(self.tokens[a].mint)
        &&& associated_address(self.tokens[a].owner, self.tokens[a].mint) == Some(a)
    }

    /// The vault record at `v` sits at the address that its seed derives,
    /// the program signs for that address with the stored bump seed, both
    /// amounts are positive, its initializer is no vault, and its custody
    /// account exists and holds exactly the amount that was locked.
    pub open spec fn vault_inv(self, v: Address) -> bool {
        let r = self.vaults[v];
        &&& vault_address(self.program, r.seed) == Some((v, r.bump))
        &&& vault_authority(self.program, r.seed, r.bump) == Some(v)
        &&& r.initializer_amount > 0
        &&& r.taker_amount > 0
        &&& self.mints.contains_key(r.mint_b)
        &&& !self.vaults.contains_key(r.initializer)
        &&& associated_address(v, r.mint_a) matches Some(c)
        &&& self.tokens.contains_key(c)
        &&& self.tokens[c] == (TokenAccount {
            mint: r.mint_a,
            owner: v,
            amount: r.initializer_amount,
        })
    }

    /// Every holding account and every vault record is in order.
    pub open spec fn inv(self) -> bool {
        &&& forall|a: Address| #[trigger] self.tokens.contains_key(a) ==> self.token_inv(a)
        &&& forall|v: Address| #[trigger] self.vaults.contains_key(v) ==> self.vault_inv(v)
    }

    /// No two holding accounts of one mint hold more together than an
    /// account can hold.
    pub open spec fn pair_bounded(self) -> bool {
        forall|a: Address, b: Address|
            a != b && #[trigger] self.tokens.contains_key(a) && #[trigger] self.tokens.contains_key(
                b,
            ) && self.tokens[a].mint == self.tokens[b].mint ==> self.tokens[a].amount
                + self.tokens[b].amount <= u64::MAX
    }

    /// The decimal precision of the mint at `mint`; 0 where none exists.
    pub open spec fn decimals(self, mint: Address) -> u8 {
        if self.mints.contains_key(mint) {
            self.mints[mint].decimals
        } else {
            0
        }
    }

    /// The balance of the holding account at `a`; nothing where none exists.
    pub open spec fn balance(self, a: Address) -> nat {
        if self.tokens.contains_key(a) {
            self.tokens[a].amount as nat
        } else {
            0
        }
    }
}

/// The ledger after a new mint with no supply was created at `mint`, or
/// `None` where a mint exists there already.
pub open spec fn spec_create_mint(s: LedgerView, mint: Address, decimals: u8) -> Option<LedgerView> {
    if s.mints.contains_key(mint) {
        None
    } else {
        Some(LedgerView { mints: s.mints.insert(mint, Mint { decimals, supply: 0 }), ..s })
    }
}

/// The address of the canonical holding account of `owner` for `mint`, and
/// the ledger after that account was opened with no balance where it did
/// not exist. `None` where the mint does not exist, no address can be
/// derived, or the address is taken by an account of another owner or mint.
pub open spec fn spec_open_account(s: LedgerView, owner: Address, mint: Address) -> Option<
    (Address, LedgerView),
> {
    if !s.mints.contains_key(mint) {
        None
    } else {
        match associated_address(owner, mint) {
            None => None,
            Some(a) => if s.tokens.contains_key(a) {
                if s.tokens[a].owner == owner && s.tokens[a].mint == mint {
                    Some((a, s))
                } else {
                    None
                }
            } else {
                Some(
                    (
                        a,
                        LedgerView {
                            tokens: s.tokens.insert(a, TokenAccount { mint, owner, amount: 0 }),
                            ..s
                        },
                    ),
                )
            },
        }
    }
}

/// The ledger after `amount` new tokens were credited to the holding
/// account at `account`. `None` where no such account exists, where it
/// belongs to a live vault, or where the supply of its mint would pass what
/// an account can hold.
pub open spec fn spec_mint_to(s: LedgerView, account: Address, amount: u64) -> Option<LedgerView> {
    if !s.tokens.contains_key(account) {
        None
    } else {
        let t = s.tokens[account];
        if s.vaults.contains_key(t.owner) || !s.mints.contains_key(t.mint) || s.mints[t.mint].supply
            + amount > u64::MAX {
            None
        } else {
            let m = s.mints[t.mint];
            Some(
                LedgerView {
                    mints: s.mints.insert(
                        t.mint,
                        Mint { supply: (m.supply + amount) as u64, ..m },
                    ),
                    tokens: s.tokens.insert(
                        account,
                        TokenAccount { amount: (t.amount + amount) as u64, ..t },
                    ),
                    ..s
                },
            )
        }
    }
}

/// The ledger after `amount` tokens of the mint moved from one holding
/// account to another on the word of the owner of the first, or the reason
/// for which the transfer is refused: the mint must exist with the decimal
/// precision stated, both accounts must exist and be of the mint, the
/// authority must own the account that is debited, neither the authority
/// nor the owner of the account that is credited may be a live vault, and
/// the balance must cover the amount. A transfer from an account to itself
/// changes nothing. On a ledger in order no credit passes what an account
/// can hold: the supply of a mint bounds what two of its accounts hold.
pub open spec fn spec_transfer_checked(
    s: LedgerView,
    t: TransferChecked,
    amount: u64,
    decimals: u8,
) -> Result<LedgerView, EscrowError> {
    if !s.mints.contains_key(t.mint) || s.mints[t.mint].decimals != decimals {
        Err(EscrowError::InvalidMint)
    } else if !s.tokens.contains_key(t.from) || !s.tokens.contains_key(t.to) {
        Err(EscrowError::InvalidTokenAccount)
    } else if s.tokens[t.from].mint != t.mint || s.tokens[t.to].mint != t.mint {
        Err(EscrowError::InvalidMint)
    } else if s.tokens[t.from].owner != t.authority || s.vaults.contains_key(t.authority)
        || s.vaults.contains_key(s.tokens[t.to].owner) {
        Err(EscrowError::Unauthorized)
    } else if s.tokens[t.from].amount < amount {
        Err(EscrowError::InsufficientFunds)
    } else if t.from == t.to {
        Ok(s)
    } else {
        Ok(
            LedgerView {
                tokens: s.tokens.insert(
                    t.from,
                    TokenAccount {
                        amount: (s.tokens[t.from].amount - amount) as u64,
                        ..s.tokens[t.from]
                    },
                ).insert(
                    t.to,
                    TokenAccount {
                        amount: (s.tokens[t.to].amount + amount) as u64,
                        ..s.tokens[t.to]
                    },
                ),
                ..s
            },
        )
    }
}

/// Whether `a` is the initializer of a live vault.
pub open spec fn is_initializer(s: LedgerView, a: Address) -> bool {
    exists|v: Address| #[trigger] s.vaults.contains_key(v) && s.vaults[v].initializer == a
}

/// The ledger after a vault was opened at `vault` with the record `record`,
/// and `amount` tokens moved from the initializer's holding account into
/// the vault's custody account, which is created where it does not exist;
/// or the reason for which this is refused. `t` names the account that is
/// debited, the mint, the custody account and the initializer.
///
/// In this order: the address must be the one that the record's seed
/// derives, with the record's bump seed; no live vault may exist there; the
/// address may not be that of the initializer, nor of the initializer of a
/// live vault; the initializer must be the record's and no vault; both
/// amounts must be positive and `amount` the one to lock; the mint must be
/// the record's mint A and exist with the decimal precision stated, and
/// mint B must exist; the custody account must be the canonical one of the
/// vault and, where it exists, be the vault's and empty; and the account
/// that is debited must exist, be of the mint, be the initializer's and
/// cover the amount.
pub open spec fn spec_lock(
    s: LedgerView,
    vault: Address,
    record: Vault,
    t: TransferChecked,
    amount: u64,
    decimals: u8,
) -> Result<LedgerView, EscrowError> {
    let custody = TokenAccount { mint: record.mint_a, owner: vault, amount: 0 };
    if vault_address(s.program, record.seed) != Some((vault, record.bump)) {
        Err(EscrowError::AuthorityDerivationMismatch)
    } else if s.vaults.contains_key(vault) {
        Err(EscrowError::DuplicateVault)
    } else if t.authority == vault || is_initializer(s, vault) {
        Err(EscrowError::AuthorityDerivationMismatch)
    } else if record.initializer != t.authority || s.vaults.contains_key(t.authority) {
        Err(EscrowError::Unauthorized)
    } else if record.initializer_amount == 0 || record.taker_amount == 0 || amount
        != record.initializer_amount {
        Err(EscrowError::InvalidAmount)
    } else if record.mint_a != t.mint || !s.mints.contains_key(t.mint) || s.mints[t.mint].decimals
        != decimals || !s.mints.contains_key(record.mint_b) {
        Err(EscrowError::InvalidMint)
    } else if associated_address(vault, record.mint_a) != Some(t.to) {
        Err(EscrowError::InvalidTokenAccount)
    } else if s.tokens.contains_key(t.to) && s.tokens[t.to] != custody {
        Err(EscrowError::InvalidTokenAccount)
    } else if !s.tokens.contains_key(t.from) {
        Err(EscrowError::InsufficientFunds)
    } else if s.tokens[t.from].mint != t.mint {
        Err(EscrowError::InvalidMint)
    } else if s.tokens[t.from].owner != t.authority {
        Err(EscrowError::Unauthorized)
    } else if s.tokens[t.from].amount < amount {
        Err(EscrowError::InsufficientFunds)
    } else {
        Ok(
            LedgerView {
                tokens: s.tokens.insert(
                    t.from,
                    TokenAccount {
                        amount: (s.tokens[t.from].amount - amount) as u64,
                        ..s.tokens[t.from]
                    },
                ).insert(t.to, TokenAccount { amount, ..custody }),
                vaults: s.vaults.insert(vault, record),
                ..s
            },
        )
    }
}

/// The ledger after the program, signing with `seeds` for the vault at
/// `t.authority`, moved all that the vault's custody account holds to the
/// holding account `t.to`, and closed the custody account and the vault
/// record; or the reason for which this is refused.
///
/// In this order: the seeds must derive the authority's address; a live
/// vault must exist there; the account that is closed must be the one that
/// is debited, on the same authority; the rent of what is closed must be
/// destined for the vault's initializer; the mint must be the record's mint
/// A and exist with the decimal precision stated; the account that is
/// debited must be the vault's custody account; `amount` must be all that
/// it holds; and the account that is credited must exist, be another one,
/// be of the mint and belong to no live vault.
pub open spec fn spec_release(
    s: LedgerView,
    t: TransferChecked,
    close: CloseAccount,
    seeds: Seq<Seq<u8>>,
    amount: u64,
    decimals: u8,
) -> Result<LedgerView, EscrowError> {
    let v = t.authority;
    if derived_address(seeds, s.program) != Some(v) {
        Err(EscrowError::AuthorityDerivationMismatch)
    } else if !s.vaults.contains_key(v) {
        Err(EscrowError::VaultAlreadyClosed)
    } else if close.account != t.from || close.authority != v {
        Err(EscrowError::InvalidTokenAccount)
    } else if close.destination != s.vaults[v].initializer {
        Err(EscrowError::Unauthorized)
    } else if t.mint != s.vaults[v].mint_a || !s.mints.contains_key(t.mint)
        || s.mints[t.mint].decimals != decimals {
        Err(EscrowError::InvalidMint)
    } else if associated_address(v, s.vaults[v].mint_a) != Some(t.from) || !s.tokens.contains_key(
        t.from,
    ) {
        Err(EscrowError::InvalidTokenAccount)
    } else if amount != s.tokens[t.from].amount {
        Err(EscrowError::InvalidAmount)
    } else if !s.tokens.contains_key(t.to) || t.to == t.from {
        Err(EscrowError::InvalidTokenAccount)
    } else if s.tokens[t.to].mint != t.mint {
        Err(EscrowError::InvalidMint)
    } else if s.vaults.contains_key(s.tokens[t.to].owner) {
        Err(EscrowError::Unauthorized)
    } else {
        Ok(
            LedgerView {
                tokens: s.tokens.insert(
                    t.to,
                    TokenAccount {
                        amount: (s.tokens[t.to].amount + amount) as u64,
                        ..s.tokens[t.to]
                    },
                ).remove(t.from),
                vaults: s.vaults.remove(v),
                ..s
            },
        )
    }
}

/// The mints, token holding accounts and vault records that exist.
pub struct Ledger {
    program: Address,
    mints: Table<Mint>,
    tokens: Table<TokenAccount>,
    vaults: Table<Vault>,
}

impl View for Ledger {
    type V = LedgerView;

    closed spec fn view(&self) -> LedgerView {
        LedgerView {
            program: self.program,
            mints: self.mints.map(),
            tokens: self.tokens.map(),
            vaults: self.vaults.map(),
        }
    }
}

impl Ledger {
    /// The ledger is in order: every holding account and vault record is,
    /// and the supply of every mint is what the holding accounts keep of it.
    pub closed spec fn wf(&self) -> bool {
        &&& self.mints.wf()
        &&& self.tokens.wf()
        &&& self.vaults.wf()
        &&& self@.inv()
        &&& forall|m: Address| #[trigger]
            self.mints.map().contains_key(m) ==> total(self.tokens.entries@, m)
                == self.mints.map()[m].supply
    }

    /// What follows from a ledger being in order.
    pub proof fn lemma_wf(&self)
        requires
            self.wf(),
        ensures
            self@.inv(),
            self@.pair_bounded(),
    {
        let s = self@;
        assert forall|a: Address, b: Address|
            a != b && #[trigger] s.tokens.contains_key(a) && #[trigger] s.tokens.contains_key(b)
                && s.tokens[a].mint == s.tokens[b].mint implies s.tokens[a].amount
            + s.tokens[b].amount <= u64::MAX by {
            let e = self.tokens.entries@;
            lemma_index(e, a);
            lemma_index(e, b);
            let i = index_of(e, a);
            let j = index_of(e, b);
            lemma_entry(e, i);
            lemma_entry(e, j);
            let m = s.tokens[a].mint;
            assert(s.token_inv(a));
            assert(self.mints.map().contains_key(m));
            if i < j {
                lemma_total_two(e, i, j, m);
            } else {
                lemma_total_two(e, j, i, m);
            }
        }
    }

    /// A ledger for the escrow program at `program`, with nothing in it.
    pub fn new(program: Address) -> (r: Ledger)
        ensures
            r.wf(),
            r@ == (LedgerView {
                program,
                mints: Map::empty(),
                tokens: Map::empty(),
                vaults: Map::empty(),
            }),
    {
        Ledger { program, mints: Table::new(), tokens: Table::new(), vaults: Table::new() }
    }

    /// The address of the escrow program.
    pub fn program(&self) -> (r: Address)
        ensures
            r == self@.program,
    {
        self.program
    }

    /// The mint at `a`, if one exists.
    pub fn mint(&self, a: &Address) -> (r: Option<Mint>)
        requires
            self.wf(),
        ensures
            r == (if self@.mints.contains_key(*a) {
                Some(self@.mints[*a])
            } else {
                None
            }),
    {
        self.mints.get(a)
    }

    /// The decimal precision of the mint at `mint`; 0 where none exists.
    pub fn decimals(&self, mint: &Address) -> (r: u8)
        requires
            self.wf(),
        ensures
            r == self@.decimals(*mint),
    {
        match self.mints.get(mint) {
            Some(m) => m.decimals,
            None => 0,
        }
    }

    /// The token holding account at `a`, if one exists.
    pub fn token_account(&self, a: &Address) -> (r: Option<TokenAccount>)
        requires
            self.wf(),
        ensures
            r == (if self@.tokens.contains_key(*a) {
                Some(self@.tokens[*a])
            } else {
                None
            }),
    {
        self.tokens.get(a)
    }

    /// The balance of the token holding account at `a`, if one exists.
    pub fn balance(&self, a: &Address) -> (r: Option<u64>)
        requires
            self.wf(),
        ensures
            r == (if self@.tokens.contains_key(*a) {
                Some(self@.tokens[*a].amount)
            } else {
                None
            }),
    {
        match self.tokens.get(a) {
            Some(t) => Some(t.amount),
            None => None,
        }
    }

    /// The live vault record at `a`, if there is one.
    pub fn vault(&self, a: &Address) -> (r: Option<Vault>)
        requires
            self.wf(),
        ensures
            r == (if self@.vaults.contains_key(*a) {
                Some(self@.vaults[*a])
            } else {
                None
            }),
    {
        self.vaults.get(a)
    }

    /// Sets the holding account at `a`.
    fn put_token(&mut self, a: Address, t: TokenAccount)
        requires
            old(self).tokens.wf(),
        ensures
            final(self).tokens.wf(),
            final(self).tokens.map() == old(self).tokens.map().insert(a, t),
            final(self).program == old(self).program,
            final(self).mints == old(self).mints,
            final(self).vaults == old(self).vaults,
            forall|m: Address|
                total(final(self).tokens.entries@, m) == #[trigger] total(
                    old(self).tokens.entries@,
                    m,
                ) - (if old(self).tokens.map().contains_key(a) {
                    held(old(self).tokens.map()[a], m)
                } else {
                    0
                }) + held(t, m),
    {
        proof {
            let e = self.tokens.entries@;
            assert forall|m: Address|
                total(
                    if has_key(e, a) {
                        e.update(index_of(e, a), (a, t))
                    } else {
                        e.push((a, t))
                    },
                    m,
                ) == #[trigger] total(e, m) - (if self.tokens.map().contains_key(a) {
                    held(self.tokens.map()[a], m)
                } else {
                    0
                }) + held(t, m) by {
                if has_key(e, a) {
                    lemma_index(e, a);
                    lemma_entry(e, index_of(e, a));
                    lemma_total_update(e, index_of(e, a), (a, t), m);
                } else {
                    lemma_total_push(e, (a, t), m);
                }
            }
        }
        self.tokens.insert(a, t);
    }

    /// Takes the holding account at `a` out.
    fn drop_token(&mut self, a: Address)
        requires
            old(self).tokens.wf(),
            old(self).tokens.map().contains_key(a),
        ensures
            final(self).tokens.wf(),
            final(self).tokens.map() == old(self).tokens.map().remove(a),
            final(self).program == old(self).program,
            final(self).mints == old(self).mints,
            final(self).vaults == old(self).vaults,
            forall|m: Address|
                total(final(self).tokens.entries@, m) == #[trigger] total(
                    old(self).tokens.entries@,
                    m,
                ) - held(old(self).tokens.map()[a], m),
    {
        proof {
            let e = self.tokens.entries@;
            lemma_index(e, a);
            lemma_entry(e, index_of(e, a));
            assert forall|m: Address|
                total(e.remove(index_of(e, a)), m) == #[trigger] total(e, m) - held(
                    self.tokens.map()[a],
                    m,
                ) by {
                lemma_total_remove(e, index_of(e, a), m);
            }
        }
        self.tokens.remove(&a);
    }

    /// Moves `amount` tokens between two holding accounts of one mint, on
    /// the word of the owner of the account that is debited.
    pub fn transfer_checked(&mut self, accounts: &TransferChecked, amount: u64, decimals: u8) -> (r:
        Result<(), EscrowError>)
        requires
            old(self).wf(),
        ensures
            final(self).wf(),
            match spec_transfer_checked(old(self)@, *accounts, amount, decimals) {
                Ok(post) => r is Ok && final(self)@ == post,
                Err(e) => r == Err::<(), EscrowError>(e) && final(self)@ == old(self)@,
            },
    {
        match self.mints.get(&accounts.mint) {
            Some(m) => {
                if m.decimals != decimals {
                    return Err(EscrowError::InvalidMint);
                }
            },
            None => {
                return Err(EscrowError::InvalidMint);
            },
        }
        let from = match self.tokens.get(&accounts.from) {
            Some(t) => t,
            None => {
                return Err(EscrowError::InvalidTokenAccount);
            },
        };
        let to = match self.tokens.get(&accounts.to) {
            Some(t) => t,
            None => {
                return Err(EscrowError::InvalidTokenAccount);
            },
        };
        if from.mint != accounts.mint || to.mint != accounts.mint {
            return Err(EscrowError::InvalidMint);
        }
        if from.owner != accounts.authority || self.vaults.contains(&accounts.authority)
            || self.vaults.contains(&to.owner) {
            return Err(EscrowError::Unauthorized);
        }
        if from.amount < amount {
            return Err(EscrowError::InsufficientFunds);
        }
        if accounts.from == accounts.to {
            return Ok(());
        }
        proof {
            self.lemma_wf();
        }
        self.put_token(accounts.from, TokenAccount { amount: from.amount - amount, ..from });
        self.put_token(accounts.to, TokenAccount { amount: to.amount + amount, ..to });
        proof {
            assert(self@.inv()) by {
                assert forall|b: Address| #[trigger] self@.tokens.contains_key(b) implies self@.token_inv(
                    b,
                ) by {
                    assert(old(self)@.token_inv(b));
                    assert(old(self)@.token_inv(accounts.from));
                    assert(old(self)@.token_inv(accounts.to));
                }
                assert forall|v: Address| #[trigger] self@.vaults.contains_key(v) implies self@.vault_inv(
                    v,
                ) by {
                    assert(old(self)@.vault_inv(v));
                }
            }
            assert forall|m: Address| #[trigger]
                self.mints.map().contains_key(m) implies total(self.tokens.entries@, m)
                == self.mints.map()[m].supply by {
                assert(old(self).mints.map().contains_key(m));
                assert(total(old(self).tokens.entries@, m) == old(self).mints.map()[m].supply);
            }
        }
        Ok(())
    }

    /// Whether `a` is the initializer of a live vault.
    fn has_initializer(&self, a: &Address) -> (r: bool)
        requires
            self.vaults.wf(),
        ensures
            r == is_initializer(self@, *a),
    {
        let mut i: usize = 0;
        while i < self.vaults.entries.len()
            invariant
                i <= self.vaults.entries@.len(),
                self.vaults.wf(),
                forall|j: int| 0 <= j < i ==> self.vaults.entries@[j].1.initializer != *a,
            decreases self.vaults.entries@.len() - i,
        {
            if self.vaults.entries[i].1.initializer == *a {
                proof {
                    lemma_entry(self.vaults.entries@, i as int);
                    assert(self@.vaults.contains_key(self.vaults.entries@[i as int].0));
                }
                return true;
            }
            i += 1;
        }
        proof {
            assert forall|v: Address| #[trigger] self@.vaults.contains_key(v) implies self@.vaults[v].initializer
                != *a by {
                lemma_index(self.vaults.entries@, v);
                lemma_entry(self.vaults.entries@, index_of(self.vaults.entries@, v));
            }
        }
        false
    }

    /// Opens a vault at `vault` and moves `amount` tokens from the
    /// initializer's holding account into its custody account.
    pub(crate) fn lock(
        &mut self,
        vault: &Address,
        record: &Vault,
        accounts: &TransferChecked,
        amount: u64,
        decimals: u8,
    ) -> (r: Result<(), EscrowError>)
        requires
            old(self).wf(),
        ensures
            final(self).wf(),
            match spec_lock(old(self)@, *vault, *record, *accounts, amount, decimals) {
                Ok(post) => r is Ok && final(self)@ == post,
                Err(e) => r == Err::<(), EscrowError>(e) && final(self)@ == old(self)@,
            },
    {
        match check_vault_address(find_vault_address(&self.program, record.seed), vault) {
            Ok(bump) => {
                if bump != record.bump {
                    return Err(EscrowError::AuthorityDerivationMismatch);
                }
            },
            Err(e) => {
                return Err(e);
            },
        }
        if self.vaults.contains(vault) {
            return Err(EscrowError::DuplicateVault);
        }
        if accounts.authority == *vault || self.has_initializer(vault) {
            return Err(EscrowError::AuthorityDerivationMismatch);
        }
        if record.initializer != accounts.authority || self.vaults.contains(&accounts.authority) {
            return Err(EscrowError::Unauthorized);
        }
        if record.initializer_amount == 0 || record.taker_amount == 0 || amount
            != record.initializer_amount {
            return Err(EscrowError::InvalidAmount);
        }
        if record.mint_a != accounts.mint {
            return Err(EscrowError::InvalidMint);
        }
        match self.mints.get(&accounts.mint) {
            Some(m) => {
                if m.decimals != decimals {
                    return Err(EscrowError::InvalidMint);
                }
            },
            None => {
                return Err(EscrowError::InvalidMint);
            },
        }
        if !self.mints.contains(&record.mint_b) {
            return Err(EscrowError::InvalidMint);
        }
        match check_holding_account(
            associated_token_address(vault, &record.mint_a),
            &accounts.to,
        ) {
            Ok(()) => {},
            Err(e) => {
                return Err(e);
            },
        }
        match self.tokens.get(&accounts.to) {
            Some(c) => {
                if c.mint != record.mint_a || c.owner != *vault || c.amount != 0 {
                    return Err(EscrowError::InvalidTokenAccount);
                }
            },
            None => {},
        }
        let from = match self.tokens.get(&accounts.from) {
            Some(t) => t,
            None => {
                return Err(EscrowError::InsufficientFunds);
            },
        };
        if from.mint != accounts.mint {
            return Err(EscrowError::InvalidMint);
        }
        if from.owner != accounts.authority {
            return Err(EscrowError::Unauthorized);
        }
        if from.amount < amount {
            return Err(EscrowError::InsufficientFunds);
        }
        self.put_token(accounts.from, TokenAccount { amount: from.amount - amount, ..from });
        self.put_token(
            accounts.to,
            TokenAccount { mint: record.mint_a, owner: *vault, amount },
        );
        self.vaults.insert(*vault, *record);
        proof {
            assert(self@.inv()) by {
                assert forall|b: Address| #[trigger] self@.tokens.contains_key(b) implies self@.token_inv(
                    b,
                ) by {
                    assert(old(self)@.token_inv(accounts.from));
                    if b != accounts.to {
                        assert(old(self)@.token_inv(b));
                    }
                }
                assert forall|v: Address| #[trigger] self@.vaults.contains_key(v) implies self@.vault_inv(
                    v,
                ) by {
                    if v != *vault {
                        assert(old(self)@.vaults.contains_key(v));
                        assert(old(self)@.vault_inv(v));
                    }
                }
            }
            assert forall|m: Address| #[trigger]
                self.mints.map().contains_key(m) implies total(self.tokens.entries@, m)
                == self.mints.map()[m].supply by {
                assert(old(self).mints.map().contains_key(m));
                assert(total(old(self).tokens.entries@, m) == old(self).mints.map()[m].supply);
            }
        }
        Ok(())
    }

    /// Moves all that a vault's custody account holds to another holding
    /// account and closes the custody account and the vault record, the
    /// program signing for the vault with `seeds`.
    pub(crate) fn release(
        &mut self,
        accounts: &TransferChecked,
        close: &CloseAccount,
        seeds: &Vec<Vec<u8>>,
        amount: u64,
        decimals: u8,
    ) -> (r: Result<(), EscrowError>)
        requires
            old(self).wf(),
        ensures
            final(self).wf(),
            match spec_release(
                old(self)@,
                *accounts,
                *close,
                seeds_view(seeds@),
                amount,
                decimals,
            ) {
                Ok(post) => r is Ok && final(self)@ == post,
                Err(e) => r == Err::<(), EscrowError>(e) && final(self)@ == old(self)@,
            },
    {
        match check_authority(derive_address(seeds, &self.program), &accounts.authority) {
            Ok(()) => {},
            Err(e) => {
                return Err(e);
            },
        }
        let record = match self.vaults.get(&accounts.authority) {
            Some(v) => v,
            None => {
                return Err(EscrowError::VaultAlreadyClosed);
            },
        };
        if close.account != accounts.from || close.authority != accounts.authority {
            return Err(EscrowError::InvalidTokenAccount);
        }
        if close.destination != record.initializer {
            return Err(EscrowError::Unauthorized);
        }
        if accounts.mint != record.mint_a {
            return Err(EscrowError::InvalidMint);
        }
        match self.mints.get(&accounts.mint) {
            Some(m) => {
                if m.decimals != decimals {
                    return Err(EscrowError::InvalidMint);
                }
            },
            None => {
                return Err(EscrowError::InvalidMint);
            },
        }
        match check_holding_account(
            associated_token_address(&accounts.authority, &record.mint_a),
            &accounts.from,
        ) {
            Ok(()) => {},
            Err(e) => {
                return Err(e);
            },
        }
        let from = match self.tokens.get(&accounts.from) {
            Some(t) => t,
            None => {
                return Err(EscrowError::InvalidTokenAccount);
            },
        };
        if amount != from.amount {
            return Err(EscrowError::InvalidAmount);
        }
        let to = match self.tokens.get(&accounts.to) {
            Some(t) => t,
            None => {
                return Err(EscrowError::InvalidTokenAccount);
            },
        };
        if accounts.to == accounts.from {
            return Err(EscrowError::InvalidTokenAccount);
        }
        if to.mint != accounts.mint {
            return Err(EscrowError::InvalidMint);
        }
        if self.vaults.contains(&to.owner) {
            return Err(EscrowError::Unauthorized);
        }
        proof {
            self.lemma_wf();
            assert(old(self)@.vault_inv(accounts.authority));
        }
        self.put_token(accounts.to, TokenAccount { amount: to.amount + amount, ..to });
        self.drop_token(accounts.from);
        self.vaults.remove(&accounts.authority);
        proof {
            assert(self@.inv()) by {
                assert forall|b: Address| #[trigger] self@.tokens.contains_key(b) implies self@.token_inv(
                    b,
                ) by {
                    assert(old(self)@.token_inv(b));
                }
                assert forall|v: Address| #[trigger] self@.vaults.contains_key(v) implies self@.vault_inv(
                    v,
                ) by {
                    assert(old(self)@.vaults.contains_key(v));
                    assert(old(self)@.vault_inv(v));
                }
            }
            assert forall|m: Address| #[trigger]
                self.mints.map().contains_key(m) implies total(self.tokens.entries@, m)
                == self.mints.map()[m].supply by {
                assert(old(self).mints.map().contains_key(m));
                assert(total(old(self).tokens.entries@, m) == old(self).mints.map()[m].supply);
            }
        }
        Ok(())
    }

    /// Starts a transaction: a working copy of the ledger, on which the
    /// steps of an operation run.
    pub fn begin(&self) -> (tx: Transaction)
        requires
            self.wf(),
        ensures
            tx.wf(),
            tx@ == self@,
    {
        Transaction { ledger: self.duplicate() }
    }

    /// A ledger that holds the same.
    fn duplicate(&self) -> (r: Ledger)
        ensures
            r@ == self@,
            r.wf() == self.wf(),
    {
        Ledger {
            program: self.program,
            mints: self.mints.duplicate(),
            tokens: self.tokens.duplicate(),
            vaults: self.vaults.duplicate(),
        }
    }

    /// Makes the state of a transaction the state of the ledger.
    pub(crate) fn commit(&mut self, tx: Transaction)
        requires
            tx.wf(),
        ensures
            final(self).wf(),
            final(self)@ == tx@,
    {
        *self = tx.ledger;
    }

    /// Creates a mint with no supply at `mint`. Gives `false`, and changes
    /// nothing, where a mint exists there already.
    pub fn create_mint(&mut self, mint: Address, decimals: u8) -> (r: bool)
        requires
            old(self).wf(),
        ensures
            final(self).wf(),
            match spec_create_mint(old(self)@, mint, decimals) {
                Some(post) => r && final(self)@ == post,
                None => !r && final(self)@ == old(self)@,
            },
    {
        if self.mints.contains(&mint) {
            return false;
        }
        proof {
            let e = self.tokens.entries@;
            assert forall|i: int| 0 <= i < e.len() implies (#[trigger] e[i]).1.mint != mint by {
                lemma_entry(e, i);
                assert(self@.tokens.contains_key(e[i].0));
                assert(self@.token_inv(e[i].0));
            }
            lemma_total_none(e, mint);
        }
        self.mints.insert(mint, Mint { decimals, supply: 0 });
        proof {
            assert(self@.inv()) by {
                assert forall|a: Address| #[trigger] self@.tokens.contains_key(a) implies self@.token_inv(
                    a,
                ) by {
                    assert(old(self)@.token_inv(a));
                }
                assert forall|v: Address| #[trigger] self@.vaults.contains_key(v) implies self@.vault_inv(
                    v,
                ) by {
                    assert(old(self)@.vault_inv(v));
                }
            }
        }
        true
    }

    /// Opens the canonical holding account of `owner` for `mint` with no
    /// balance, where it does not exist yet, and gives its address.
    pub fn open_account(&mut self, owner: &Address, mint: &Address) -> (r: Option<Address>)
        requires
            old(self).wf(),
        ensures
            final(self).wf(),
            match spec_open_account(old(self)@, *owner, *mint) {
                Some((a, post)) => r == Some(a) && final(self)@ == post,
                None => r is None && final(self)@ == old(self)@,
            },
    {
        if !self.mints.contains(mint) {
            return None;
        }
        let a = match associated_token_address(owner, mint) {
            Some(a) => a,
            None => {
                return None;
            },
        };
        match self.tokens.get(&a) {
            Some(t) => {
                if t.owner == *owner && t.mint == *mint {
                    Some(a)
                } else {
                    None
                }
            },
            None => {
                let account = TokenAccount { mint: *mint, owner: *owner, amount: 0 };
                proof {
                    assert forall|m: Address| #[trigger]
                        self.mints.map().contains_key(m) implies total(
                        self.tokens.entries@.push((a, account)),
                        m,
                    ) == self.mints.map()[m].supply by {
                        lemma_total_push(self.tokens.entries@, (a, account), m);
                    }
                }
                self.tokens.insert(a, account);
                proof {
                    assert(self@.inv()) by {
                        assert forall|b: Address| #[trigger]
                            self@.tokens.contains_key(b) implies self@.token_inv(b) by {
                            if b != a {
                                assert(old(self)@.token_inv(b));
                            }
                        }
                        assert forall|v: Address| #[trigger]
                            self@.vaults.contains_key(v) implies self@.vault_inv(v) by {
                            assert(old(self)@.vault_inv(v));
                        }
                    }
                }
                Some(a)
            },
        }
    }

    /// Credits `amount` new tokens to the holding account at `account`.
    /// Gives `false`, and changes nothing, where no such account exists,
    /// where it belongs to a live vault, or where the supply of its mint
    /// would pass what an account can hold.
    pub fn mint_to(&mut self, account: &Address, amount: u64) -> (r: bool)
        requires
            old(self).wf(),
        ensures
            final(self).wf(),
            match spec_mint_to(old(self)@, *account, amount) {
                Some(post) => r && final(self)@ == post,
                None => !r && final(self)@ == old(self)@,
            },
    {
        let t = match self.tokens.get(account) {
            Some(t) => t,
            None => {
                return false;
            },
        };
        if self.vaults.contains(&t.owner) {
            return false;
        }
        let m = match self.mints.get(&t.mint) {
            Some(m) => m,
            None => {
                return false;
            },
        };
        if amount > u64::MAX - m.supply {
            return false;
        }
        proof {
            let e = self.tokens.entries@;
            lemma_index(e, *account);
            lemma_entry(e, index_of(e, *account));
            lemma_total_one(e, index_of(e, *account), t.mint);
        }
        let credited = TokenAccount { amount: t.amount + amount, ..t };
        proof {
            let e = self.tokens.entries@;
            let i = index_of(e, *account);
            assert forall|k: Address| #[trigger]
                self.mints.map().insert(
                    t.mint,
                    Mint { supply: (m.supply + amount) as u64, ..m },
                ).contains_key(k) implies total(e.update(i, (*account, credited)), k)
                == self.mints.map().insert(
                t.mint,
                Mint { supply: (m.supply + amount) as u64, ..m },
            )[k].supply by {
                lemma_total_update(e, i, (*account, credited), k);
                assert(self.mints.map().contains_key(k));
            }
        }
        self.tokens.insert(*account, credited);
        self.mints.insert(t.mint, Mint { supply: m.supply + amount, ..m });
        proof {
            assert(self@.inv()) by {
                assert forall|b: Address| #[trigger] self@.tokens.contains_key(b) implies self@.token_inv(
                    b,
                ) by {
                    assert(old(self)@.token_inv(b));
                }
                assert forall|v: Address| #[trigger] self@.vaults.contains_key(v) implies self@.vault_inv(
                    v,
                ) by {
                    assert(old(self)@.vault_inv(v));
                }
            }
        }
        true
    }
}

/// A working copy of a ledger, on which the steps of one operation run.
/// What it holds becomes the state of the ledger only where the operation
/// as a whole succeeds.
pub struct Transaction {
    ledger: Ledger,
}

impl View for Transaction {
    type V = LedgerView;

    closed spec fn view(&self) -> LedgerView {
        self.ledger@
    }
}

impl Transaction {
    /// The working copy is in order.
    pub closed spec fn wf(&self) -> bool {
        self.ledger.wf()
    }

    /// What follows from a working copy being in order.
    pub proof fn lemma_wf(&self)
        requires
            self.wf(),
        ensures
            self@.inv(),
            self@.pair_bounded(),
    {
        self.ledger.lemma_wf();
    }

    /// The working copy, to read.
    pub fn ledger(&self) -> (r: &Ledger)
        ensures
            r@ == self@,
            r.wf() == self.wf(),
    {
        &self.ledger
    }

    /// `Ledger::open_account` on the working copy.
    pub(crate) fn open_account(&mut self, owner: &Address, mint: &Address) -> (r: Option<Address>)
        requires
            old(self).wf(),
        ensures
            final(self).wf(),
            match spec_open_account(old(self)@, *owner, *mint) {
                Some((a, post)) => r == Some(a) && final(self)@ == post,
                None => r is None && final(self)@ == old(self)@,
            },
    {
        self.ledger.open_account(owner, mint)
    }

    /// `Ledger::transfer_checked` on the working copy.
    pub(crate) fn transfer_checked(
        &mut self,
        accounts: &TransferChecked,
        amount: u64,
        decimals: u8,
    ) -> (r: Result<(), EscrowError>)
        requires
            old(self).wf(),
        ensures
            final(self).wf(),
            match spec_transfer_checked(old(self)@, *accounts, amount, decimals) {
                Ok(post) => r is Ok && final(self)@ == post,
                Err(e) => r == Err::<(), EscrowError>(e) && final(self)@ == old(self)@,
            },
    {
        self.ledger.transfer_checked(accounts, amount, decimals)
    }

    /// `Ledger::lock` on the working copy.
    pub(crate) fn lock(
        &mut self,
        vault: &Address,
        record: &Vault,
        accounts: &TransferChecked,
        amount: u64,
        decimals: u8,
    ) -> (r: Result<(), EscrowError>)
        requires
            old(self).wf(),
        ensures
            final(self).wf(),
            match spec_lock(old(self)@, *vault, *record, *accounts, amount, decimals) {
                Ok(post) => r is Ok && final(self)@ == post,
                Err(e) => r == Err::<(), EscrowError>(e) && final(self)@ == old(self)@,
            },
    {
        self.ledger.lock(vault, record, accounts, amount, decimals)
    }

    /// `Ledger::release` on the working copy.
    pub(crate) fn release(
        &mut self,
        accounts: &TransferChecked,
        close: &CloseAccount,
        seeds: &Vec<Vec<u8>>,
        amount: u64,
        decimals: u8,
    ) -> (r: Result<(), EscrowError>)
        requires
            old(self).wf(),
        ensures
            final(self).wf(),
            match spec_release(
                old(self)@,
                *accounts,
                *close,
                seeds_view(seeds@),
                amount,
                decimals,
            ) {
                Ok(post) => r is Ok && final(self)@ == post,
                Err(e) => r == Err::<(), EscrowError>(e) && final(self)@ == old(self)@,
            },
    {
        self.ledger.release(accounts, close, seeds, amount, decimals)
    }

    /// A working copy of the working copy.
    pub(crate) fn fork(&self) -> (r: Transaction)
        ensures
            r@ == self@,
            r.wf() == self.wf(),
    {
        Transaction { ledger: self.ledger.duplicate() }
    }
}

} // verus!
