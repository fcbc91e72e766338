//! The sum of the balances that a list of holding accounts keeps of one mint.

use crate::address::Address;
use crate::token::TokenAccount;
use vstd::prelude::*;

verus! {

/// What one holding account keeps of `mint`: its balance where the mint is
/// its own, nothing where it is not.
pub open spec fn held(account: TokenAccount, mint: Address) -> int {
    if account.mint == mint {
        account.amount as int
    } else {
        0
    }
}

/// What the holding accounts of a list keep of `mint`, taken together.
pub open spec fn total(s: Seq<(Address, TokenAccount)>, mint: Address) -> int
    decreases s.len(),
{
    if s.len() == 0 {
        0
    } else {
        total(s.drop_last(), mint) + held(s.last().1, mint)
    }
}

/// One more account adds what it keeps.
pub proof fn lemma_total_push(s: Seq<(Address, TokenAccount)>, e: (Address, TokenAccount), mint: Address)
    ensures
        total(s.push(e), mint) == total(s, mint) + held(e.1, mint),
{
    assert(s.push(e).drop_last() =~= s);
}

/// A change to one account changes the total by the difference of what it
/// keeps.
pub proof fn lemma_total_update(
    s: Seq<(Address, TokenAccount)>,
    i: int,
    e: (Address, TokenAccount),
    mint: Address,
)
    requires
        0 <= i < s.len(),
    ensures
        total(s.update(i, e), mint) == total(s, mint) - held(s[i].1, mint) + held(e.1, mint),
    decreases s.len(),
{
    let t = s.update(i, e);
    if i == s.len() - 1 {
        assert(t.drop_last() =~= s.drop_last());
    } else {
        assert(t.drop_last() =~= s.drop_last().update(i, e));
        lemma_total_update(s.drop_last(), i, e, mint);
    }
}

/// Taking one account out takes what it keeps off the total.
pub proof fn lemma_total_remove(s: Seq<(Address, TokenAccount)>, i: int, mint: Address)
    requires
        0 <= i < s.len(),
    ensures
        total(s.remove(i), mint) == total(s, mint) - held(s[i].1, mint),
    decreases s.len(),
{
    let t = s.remove(i);
    if i == s.len() - 1 {
        assert(t =~= s.drop_last());
    } else {
        assert(t.drop_last() =~= s.drop_last().remove(i));
        assert(t.last() == s.last());
        lemma_total_remove(s.drop_last(), i, mint);
    }
}

/// No account keeps more than all of them together.
pub proof fn lemma_total_one(s: Seq<(Address, TokenAccount)>, i: int, mint: Address)
    requires
        0 <= i < s.len(),
    ensures
        0 <= held(s[i].1, mint) <= total(s, mint),
    decreases s.len(),
{
    lemma_total_nonnegative(s.drop_last(), mint);
    if i < s.len() - 1 {
        lemma_total_one(s.drop_last(), i, mint);
    }
}

/// A total is never negative.
pub proof fn lemma_total_nonnegative(s: Seq<(Address, TokenAccount)>, mint: Address)
    ensures
        0 <= total(s, mint),
    decreases s.len(),
{
    if s.len() > 0 {
        lemma_total_nonnegative(s.drop_last(), mint);
    }
}

/// No two accounts keep more than all of them together.
pub proof fn lemma_total_two(s: Seq<(Address, TokenAccount)>, i: int, j: int, mint: Address)
    requires
        0 <= i < j < s.len(),
    ensures
        held(s[i].1, mint) + held(s[j].1, mint) <= total(s, mint),
    decreases s.len(),
{
    if j == s.len() - 1 {
        lemma_total_one(s.drop_last(), i, mint);
    } else {
        lemma_total_two(s.drop_last(), i, j, mint);
    }
}

/// Where no account is of `mint`, nothing is kept of it.
pub proof fn lemma_total_none(s: Seq<(Address, TokenAccount)>, mint: Address)
    requires
        forall|i: int| 0 <= i < s.len() ==> (#[trigger] s[i]).1.mint != mint,
    ensures
        total(s, mint) == 0,
    decreases s.len(),
{
    if s.len() > 0 {
        assert(s.last() == s[s.len() - 1]);
        assert forall|i: int| 0 <= i < s.drop_last().len() implies (#[trigger] s.drop_last()[i]).1.mint
            != mint by {
            assert(s.drop_last()[i] == s[i]);
        }
        lemma_total_none(s.drop_last(), mint);
    }
}

} // verus!
