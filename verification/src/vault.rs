//! The vault: owns each user's deposited collateral, grants bounded
//! revocable liens on it to staking modules, and reconciles every
//! speculative grant when the asynchronous reply to its dispatch arrives.
//!
//! Every stake request widens the lien's speculative `high` bound before the
//! message is dispatched, and the reply handler either confirms (`low`
//! catches up) or reverts (`high` falls back) — those two sites are the only
//! lien mutations, so solvency reduces to checking them.

use vstd::prelude::*;

use crate::coin::Coin;
use crate::error::ContractError;
use crate::range::ValueRange;

verus! {

/// One user's deposited collateral.
#[derive(Debug, Clone, PartialEq, Eq)]
pub struct UserAccount {
    pub owner: String,
    pub collateral: u128,
}

/// One lien: a claim by `lienholder` on `owner`'s collateral, tracked as a
/// bounded uncertainty range.
#[derive(Debug, Clone, PartialEq, Eq)]
pub struct LienRecord {
    pub owner: String,
    pub lienholder: String,
    pub amount: ValueRange,
}

/// The context stored for one in-flight dispatch, keyed by its correlation
/// id, so the reply can be resolved without any call-stack state.
#[derive(Debug, Clone, PartialEq, Eq)]
pub struct PendingOp {
    pub id: u64,
    pub owner: String,
    pub lienholder: String,
    pub amount: u128,
}

/// One entry of the per-owner claim enumeration.
#[derive(Debug, Clone, PartialEq, Eq)]
pub struct LienResponse {
    pub lienholder: String,
    pub amount: ValueRange,
}

/// The outbound instruction a stake request produces: forward the funds and
/// the staking message to the local staking module, correlated by
/// `reply_id`.
#[derive(Debug, Clone, PartialEq, Eq)]
pub struct StakeInstruction {
    pub reply_id: u64,
    pub receiver: String,
    pub owner: String,
    pub amount: u128,
    pub msg: String,
}

/// The contribution of one account to an owner's collateral.
pub open spec fn collateral_of(accs: Seq<UserAccount>, owner: Seq<char>) -> int
    decreases accs.len(),
{
    if accs.len() == 0 {
        0
    } else if accs[0].owner@ == owner {
        accs[0].collateral as int
    } else {
        collateral_of(accs.drop_first(), owner)
    }
}

/// Whether an account exists for `owner`.
pub open spec fn has_account(accs: Seq<UserAccount>, owner: Seq<char>) -> bool
    decreases accs.len(),
{
    if accs.len() == 0 {
        false
    } else {
        accs[0].owner@ == owner || has_account(accs.drop_first(), owner)
    }
}

/// What one lien record adds to an owner's speculative exposure.
pub open spec fn lien_contrib(r: LienRecord, owner: Seq<char>) -> int {
    if r.owner@ == owner {
        r.amount.high as int
    } else {
        0
    }
}

/// The sum of speculative `high` bounds over all of `owner`'s liens: the
/// owner's worst-case exposure.
pub open spec fn sum_high(liens: Seq<LienRecord>, owner: Seq<char>) -> int
    decreases liens.len(),
{
    if liens.len() == 0 {
        0
    } else {
        lien_contrib(liens[0], owner) + sum_high(liens.drop_first(), owner)
    }
}

/// The range of the lien held by `lienholder` on `owner`; an absent lien
/// reads as a confirmed zero.
pub open spec fn lien_of(liens: Seq<LienRecord>, owner: Seq<char>, lienholder: Seq<char>) -> ValueRange
    decreases liens.len(),
{
    if liens.len() == 0 {
        ValueRange::spec_new_val(0)
    } else if liens[0].owner@ == owner && liens[0].lienholder@ == lienholder {
        liens[0].amount
    } else {
        lien_of(liens.drop_first(), owner, lienholder)
    }
}

/// Whether a lien record exists for the pair.
pub open spec fn has_lien(liens: Seq<LienRecord>, owner: Seq<char>, lienholder: Seq<char>) -> bool
    decreases liens.len(),
{
    if liens.len() == 0 {
        false
    } else {
        (liens[0].owner@ == owner && liens[0].lienholder@ == lienholder) || has_lien(
            liens.drop_first(),
            owner,
            lienholder,
        )
    }
}

/// What one pending operation holds in flight for the pair.
pub open spec fn pending_contrib(op: PendingOp, owner: Seq<char>, lienholder: Seq<char>) -> int {
    if op.owner@ == owner && op.lienholder@ == lienholder {
        op.amount as int
    } else {
        0
    }
}

/// The total amount in flight for the pair: what has been dispatched but
/// not yet confirmed or reverted.
pub open spec fn pending_sum(ops: Seq<PendingOp>, owner: Seq<char>, lienholder: Seq<char>) -> int
    decreases ops.len(),
{
    if ops.len() == 0 {
        0
    } else {
        pending_contrib(ops[0], owner, lienholder) + pending_sum(ops.drop_first(), owner, lienholder)
    }
}

/// The index of the pending operation with this correlation id, or -1.
pub open spec fn pending_index(ops: Seq<PendingOp>, id: u64) -> int
    decreases ops.len(),
{
    if ops.len() == 0 {
        -1
    } else if ops[0].id == id {
        0
    } else if pending_index(ops.drop_first(), id) == -1 {
        -1
    } else {
        1 + pending_index(ops.drop_first(), id)
    }
}

/// Whether a dispatch with this correlation id is awaiting its reply.
pub open spec fn has_pending(ops: Seq<PendingOp>, id: u64) -> bool {
    pending_index(ops, id) >= 0
}

/// The pending operation with this correlation id.
pub open spec fn pending_at(ops: Seq<PendingOp>, id: u64) -> PendingOp {
    ops[pending_index(ops, id)]
}

/// A first-match lookup scan pins `collateral_of` and `has_account`.
pub proof fn lemma_collateral_lookup(accs: Seq<UserAccount>, owner: Seq<char>, idx: int)
    requires
        0 <= idx <= accs.len(),
        forall|j: int| 0 <= j < idx ==> accs[j].owner@ != owner,
        idx < accs.len() ==> accs[idx].owner@ == owner,
    ensures
        has_account(accs, owner) == (idx < accs.len()),
        collateral_of(accs, owner) == if idx < accs.len() {
            accs[idx].collateral as int
        } else {
            0
        },
    decreases accs.len(),
{
    if accs.len() > 0 && idx > 0 {
        lemma_collateral_lookup(accs.drop_first(), owner, idx - 1);
    }
}

/// Collateral is a machine amount: never negative, never above `u128::MAX`.
pub proof fn lemma_collateral_bounds(accs: Seq<UserAccount>, owner: Seq<char>)
    ensures
        0 <= collateral_of(accs, owner) <= u128::MAX,
    decreases accs.len(),
{
    if accs.len() > 0 {
        lemma_collateral_bounds(accs.drop_first(), owner);
    }
}

/// Replacing the first account of an owner rewrites that owner's collateral
/// and nobody else's.
pub proof fn lemma_collateral_update(
    accs: Seq<UserAccount>,
    i: int,
    a: UserAccount,
    owner: Seq<char>,
)
    requires
        0 <= i < accs.len(),
        a.owner@ == accs[i].owner@,
        forall|j: int| 0 <= j < i ==> accs[j].owner@ != accs[i].owner@,
    ensures
        collateral_of(accs.update(i, a), owner) == if owner == a.owner@ {
            a.collateral as int
        } else {
            collateral_of(accs, owner)
        },
        has_account(accs.update(i, a), owner) == has_account(accs, owner),
    decreases accs.len(),
{
    if i == 0 {
        assert(accs.update(0, a).drop_first() =~= accs.drop_first());
    } else {
        assert(accs.update(i, a).drop_first() =~= accs.drop_first().update(i - 1, a));
        lemma_collateral_update(accs.drop_first(), i - 1, a, owner);
    }
}

/// Appending an account for a new owner gives that owner its collateral and
/// leaves every other owner's reading alone.
pub proof fn lemma_collateral_push(accs: Seq<UserAccount>, a: UserAccount, owner: Seq<char>)
    requires
        !has_account(accs, a.owner@),
    ensures
        collateral_of(accs.push(a), owner) == if owner == a.owner@ {
            a.collateral as int
        } else {
            collateral_of(accs, owner)
        },
        has_account(accs.push(a), owner) == (has_account(accs, owner) || owner == a.owner@),
    decreases accs.len(),
{
    assert(accs.push(a).len() == accs.len() + 1);
    if accs.len() == 0 {
        assert(accs.push(a)[0] == a);
        assert(accs.push(a).drop_first() =~= Seq::<UserAccount>::empty());
        assert(!has_account(Seq::<UserAccount>::empty(), owner));
        assert(collateral_of(Seq::<UserAccount>::empty(), owner) == 0);
    } else {
        assert(accs.push(a)[0] == accs[0]);
        assert(accs.push(a).drop_first() =~= accs.drop_first().push(a));
        lemma_collateral_push(accs.drop_first(), a, owner);
    }
}

/// A first-match lookup scan pins `lien_of` and `has_lien`.
pub proof fn lemma_lien_lookup(
    liens: Seq<LienRecord>,
    owner: Seq<char>,
    lienholder: Seq<char>,
    idx: int,
)
    requires
        0 <= idx <= liens.len(),
        forall|j: int|
            0 <= j < idx ==> !(liens[j].owner@ == owner && liens[j].lienholder@ == lienholder),
        idx < liens.len() ==> liens[idx].owner@ == owner && liens[idx].lienholder@ == lienholder,
    ensures
        has_lien(liens, owner, lienholder) == (idx < liens.len()),
        lien_of(liens, owner, lienholder) == if idx < liens.len() {
            liens[idx].amount
        } else {
            ValueRange::spec_new_val(0)
        },
    decreases liens.len(),
{
    if liens.len() > 0 && idx > 0 {
        lemma_lien_lookup(liens.drop_first(), owner, lienholder, idx - 1);
    }
}

/// Replacing the first record of a pair rewrites that pair's range and no
/// other, and keeps the set of recorded pairs.
pub proof fn lemma_lien_update(
    liens: Seq<LienRecord>,
    i: int,
    r: LienRecord,
    owner: Seq<char>,
    lienholder: Seq<char>,
)
    requires
        0 <= i < liens.len(),
        r.owner@ == liens[i].owner@,
        r.lienholder@ == liens[i].lienholder@,
        forall|j: int|
            0 <= j < i ==> !(liens[j].owner@ == liens[i].owner@ && liens[j].lienholder@
                == liens[i].lienholder@),
    ensures
        lien_of(liens.update(i, r), owner, lienholder) == if owner == r.owner@ && lienholder
            == r.lienholder@ {
            r.amount
        } else {
            lien_of(liens, owner, lienholder)
        },
        has_lien(liens.update(i, r), owner, lienholder) == has_lien(liens, owner, lienholder),
    decreases liens.len(),
{
    if i == 0 {
        assert(liens.update(0, r).drop_first() =~= liens.drop_first());
    } else {
        assert(liens.update(i, r).drop_first() =~= liens.drop_first().update(i - 1, r));
        lemma_lien_update(liens.drop_first(), i - 1, r, owner, lienholder);
    }
}

/// Appending a record for a new pair gives that pair its range and leaves
/// every other pair's reading alone.
pub proof fn lemma_lien_push(
    liens: Seq<LienRecord>,
    r: LienRecord,
    owner: Seq<char>,
    lienholder: Seq<char>,
)
    requires
        !has_lien(liens, r.owner@, r.lienholder@),
    ensures
        lien_of(liens.push(r), owner, lienholder) == if owner == r.owner@ && lienholder
            == r.lienholder@ {
            r.amount
        } else {
            lien_of(liens, owner, lienholder)
        },
        has_lien(liens.push(r), owner, lienholder) == (has_lien(liens, owner, lienholder) || (owner
            == r.owner@ && lienholder == r.lienholder@)),
    decreases liens.len(),
{
    assert(liens.push(r).len() == liens.len() + 1);
    if liens.len() == 0 {
        assert(liens.push(r)[0] == r);
        assert(liens.push(r).drop_first() =~= Seq::<LienRecord>::empty());
        assert(!has_lien(Seq::<LienRecord>::empty(), owner, lienholder));
        assert(lien_of(Seq::<LienRecord>::empty(), owner, lienholder)
            == ValueRange::spec_new_val(0));
    } else {
        assert(liens.push(r)[0] == liens[0]);
        assert(liens.push(r).drop_first() =~= liens.drop_first().push(r));
        lemma_lien_push(liens.drop_first(), r, owner, lienholder);
    }
}

/// Exposure sums change exactly by the difference the replaced record makes.
pub proof fn lemma_sum_high_update(liens: Seq<LienRecord>, i: int, r: LienRecord, owner: Seq<char>)
    requires
        0 <= i < liens.len(),
    ensures
        sum_high(liens.update(i, r), owner) == sum_high(liens, owner) - lien_contrib(
            liens[i],
            owner,
        ) + lien_contrib(r, owner),
    decreases liens.len(),
{
    if i == 0 {
        assert(liens.update(0, r).drop_first() =~= liens.drop_first());
    } else {
        assert(liens.update(i, r).drop_first() =~= liens.drop_first().update(i - 1, r));
        lemma_sum_high_update(liens.drop_first(), i - 1, r, owner);
    }
}

/// Exposure sums grow exactly by what the appended record contributes.
pub proof fn lemma_sum_high_push(liens: Seq<LienRecord>, r: LienRecord, owner: Seq<char>)
    ensures
        sum_high(liens.push(r), owner) == sum_high(liens, owner) + lien_contrib(r, owner),
    decreases liens.len(),
{
    assert(liens.push(r).len() == liens.len() + 1);
    if liens.len() == 0 {
        assert(liens.push(r)[0] == r);
        assert(liens.push(r).drop_first() =~= Seq::<LienRecord>::empty());
        assert(sum_high(Seq::<LienRecord>::empty(), owner) == 0);
    } else {
        assert(liens.push(r)[0] == liens[0]);
        assert(liens.push(r).drop_first() =~= liens.drop_first().push(r));
        lemma_sum_high_push(liens.drop_first(), r, owner);
    }
}

/// An exposure sum is never negative.
pub proof fn lemma_sum_high_nonneg(liens: Seq<LienRecord>, owner: Seq<char>)
    ensures
        0 <= sum_high(liens, owner),
    decreases liens.len(),
{
    if liens.len() > 0 {
        lemma_sum_high_nonneg(liens.drop_first(), owner);
    }
}

/// An exposure sum splits at any point into the prefix's and the suffix's.
pub proof fn lemma_sum_high_split(liens: Seq<LienRecord>, owner: Seq<char>, i: int)
    requires
        0 <= i <= liens.len(),
    ensures
        sum_high(liens, owner) == sum_high(liens.take(i), owner) + sum_high(liens.skip(i), owner),
    decreases i,
{
    if i == 0 {
        assert(liens.take(0) =~= Seq::<LienRecord>::empty());
        assert(liens.skip(0) =~= liens);
    } else {
        assert(liens.take(i).drop_first() =~= liens.drop_first().take(i - 1));
        assert(liens.skip(i) =~= liens.drop_first().skip(i - 1));
        lemma_sum_high_split(liens.drop_first(), owner, i - 1);
    }
}

/// One record's speculative bound never exceeds its owner's exposure sum.
pub proof fn lemma_lien_high_le_sum(liens: Seq<LienRecord>, i: int, owner: Seq<char>)
    requires
        0 <= i < liens.len(),
        liens[i].owner@ == owner,
    ensures
        liens[i].amount.high <= sum_high(liens, owner),
{
    lemma_sum_high_split(liens, owner, i);
    lemma_sum_high_nonneg(liens.take(i), owner);
    assert(liens.skip(i).drop_first() =~= liens.skip(i + 1));
    assert(liens.skip(i)[0] == liens[i]);
    lemma_sum_high_nonneg(liens.skip(i + 1), owner);
}

/// A first-match scan over the pending table pins `pending_index`.
pub proof fn lemma_pending_lookup(ops: Seq<PendingOp>, id: u64, idx: int)
    requires
        0 <= idx <= ops.len(),
        forall|j: int| 0 <= j < idx ==> ops[j].id != id,
        idx < ops.len() ==> ops[idx].id == id,
    ensures
        pending_index(ops, id) == if idx < ops.len() {
            idx
        } else {
            -1
        },
    decreases ops.len(),
{
    if ops.len() > 0 && idx > 0 {
        lemma_pending_lookup(ops.drop_first(), id, idx - 1);
    }
}

/// In-flight sums grow exactly by what the appended operation holds.
pub proof fn lemma_pending_sum_push(
    ops: Seq<PendingOp>,
    op: PendingOp,
    owner: Seq<char>,
    lienholder: Seq<char>,
)
    ensures
        pending_sum(ops.push(op), owner, lienholder) == pending_sum(ops, owner, lienholder)
            + pending_contrib(op, owner, lienholder),
    decreases ops.len(),
{
    assert(ops.push(op).len() == ops.len() + 1);
    if ops.len() == 0 {
        assert(ops.push(op)[0] == op);
        assert(ops.push(op).drop_first() =~= Seq::<PendingOp>::empty());
        assert(pending_sum(Seq::<PendingOp>::empty(), owner, lienholder) == 0);
    } else {
        assert(ops.push(op)[0] == ops[0]);
        assert(ops.push(op).drop_first() =~= ops.drop_first().push(op));
        lemma_pending_sum_push(ops.drop_first(), op, owner, lienholder);
    }
}

/// In-flight sums shrink exactly by what the removed operation held.
pub proof fn lemma_pending_sum_remove(
    ops: Seq<PendingOp>,
    i: int,
    owner: Seq<char>,
    lienholder: Seq<char>,
)
    requires
        0 <= i < ops.len(),
    ensures
        pending_sum(ops.remove(i), owner, lienholder) == pending_sum(ops, owner, lienholder)
            - pending_contrib(ops[i], owner, lienholder),
    decreases ops.len(),
{
    if i == 0 {
        assert(ops.remove(0) =~= ops.drop_first());
    } else {
        assert(ops.remove(i).drop_first() =~= ops.drop_first().remove(i - 1));
        lemma_pending_sum_remove(ops.drop_first(), i - 1, owner, lienholder);
    }
}

/// An in-flight sum is never negative.
pub proof fn lemma_pending_sum_nonneg(ops: Seq<PendingOp>, owner: Seq<char>, lienholder: Seq<char>)
    ensures
        0 <= pending_sum(ops, owner, lienholder),
    decreases ops.len(),
{
    if ops.len() > 0 {
        lemma_pending_sum_nonneg(ops.drop_first(), owner, lienholder);
    }
}

/// An in-flight sum splits at any point into the prefix's and the suffix's.
pub proof fn lemma_pending_sum_split(
    ops: Seq<PendingOp>,
    owner: Seq<char>,
    lienholder: Seq<char>,
    i: int,
)
    requires
        0 <= i <= ops.len(),
    ensures
        pending_sum(ops, owner, lienholder) == pending_sum(ops.take(i), owner, lienholder)
            + pending_sum(ops.skip(i), owner, lienholder),
    decreases i,
{
    if i == 0 {
        assert(ops.take(0) =~= Seq::<PendingOp>::empty());
        assert(ops.skip(0) =~= ops);
    } else {
        assert(ops.take(i).drop_first() =~= ops.drop_first().take(i - 1));
        assert(ops.skip(i) =~= ops.drop_first().skip(i - 1));
        lemma_pending_sum_split(ops.drop_first(), owner, lienholder, i - 1);
    }
}

/// One pending operation never holds more in flight than the pair's sum.
pub proof fn lemma_pending_amount_le_sum(ops: Seq<PendingOp>, i: int)
    requires
        0 <= i < ops.len(),
    ensures
        ops[i].amount <= pending_sum(ops, ops[i].owner@, ops[i].lienholder@),
{
    let o = ops[i].owner@;
    let l = ops[i].lienholder@;
    lemma_pending_sum_split(ops, o, l, i);
    lemma_pending_sum_nonneg(ops.take(i), o, l);
    assert(ops.skip(i).drop_first() =~= ops.skip(i + 1));
    assert(ops.skip(i)[0] == ops[i]);
    lemma_pending_sum_nonneg(ops.skip(i + 1), o, l);
}


/// The claim list for one owner, in ledger order: each lienholder with its
/// current range.
pub open spec fn claims_of(liens: Seq<LienRecord>, owner: Seq<char>) -> Seq<LienResponse>
    decreases liens.len(),
{
    if liens.len() == 0 {
        Seq::empty()
    } else {
        claims_of(liens.drop_last(), owner) + if liens.last().owner@ == owner {
            seq![LienResponse { lienholder: liens.last().lienholder, amount: liens.last().amount }]
        } else {
            Seq::empty()
        }
    }
}

/// The claims strictly after the first entry for `start`: the pagination
/// window anchored at the last lienholder of the previous page. When no
/// entry matches, the window is empty.
pub open spec fn claims_after(claims: Seq<LienResponse>, start: Seq<char>) -> Seq<LienResponse>
    decreases claims.len(),
{
    if claims.len() == 0 {
        Seq::empty()
    } else if claims[0].lienholder@ == start {
        claims.drop_first()
    } else {
        claims_after(claims.drop_first(), start)
    }
}

/// A page: at most `limit` claims off the front of the window.
pub open spec fn page_of(claims: Seq<LienResponse>, limit: Option<u32>) -> Seq<LienResponse> {
    match limit {
        None => claims,
        Some(l) => if (l as int) < claims.len() {
            claims.take(l as int)
        } else {
            claims
        },
    }
}

/// A first-match scan pins the pagination window as a suffix.
pub proof fn lemma_claims_after_lookup(claims: Seq<LienResponse>, start: Seq<char>, pos: int)
    requires
        0 <= pos <= claims.len(),
        forall|j: int| 0 <= j < pos ==> claims[j].lienholder@ != start,
        pos < claims.len() ==> claims[pos].lienholder@ == start,
    ensures
        claims_after(claims, start) == if pos < claims.len() {
            claims.skip(pos + 1)
        } else {
            Seq::<LienResponse>::empty()
        },
    decreases claims.len(),
{
    if claims.len() == 0 {
    } else if pos == 0 {
        assert(claims.drop_first() =~= claims.skip(1));
    } else {
        if pos < claims.len() {
            assert(claims.drop_first().skip(pos) =~= claims.skip(pos + 1));
        }
        lemma_claims_after_lookup(claims.drop_first(), start, pos - 1);
    }
}

/// The vault contract: collateral, liens, and the pending-operation table
/// that correlates each dispatched stake with its eventual reply.
#[derive(Debug, Clone, PartialEq, Eq)]
pub struct VaultContract {
    /// The one denom this vault accounts in.
    pub denom: String,
    /// The local staking module stake requests are forwarded to.
    pub local_staking: String,
    /// The funds the vault itself currently holds.
    pub balance: u128,
    /// Deposited collateral, one record per owner.
    pub accounts: Vec<UserAccount>,
    /// The lien ledger, one record per (owner, lienholder) pair.
    pub liens: Vec<LienRecord>,
    /// In-flight dispatches awaiting their reply.
    pub pending: Vec<PendingOp>,
    /// The next fresh correlation id.
    pub next_reply_id: u64,
}

impl VaultContract {
    /// The vault's internal consistency:
    /// - one account per owner, one lien record per pair, one pending record
    ///   per correlation id, and ids are never reissued;
    /// - every lien is a well-formed range, and every pending operation has
    ///   its lien record;
    /// - solvency: no owner's speculative exposure exceeds their collateral;
    /// - every lien's uncertainty width is exactly what is in flight for it.
    pub open spec fn wf(&self) -> bool {
        &&& forall|i: int, j: int|
            0 <= i < j < self.accounts@.len() ==> self.accounts@[i].owner@
                != self.accounts@[j].owner@
        &&& forall|i: int, j: int|
            0 <= i < j < self.liens@.len() ==> !(self.liens@[i].owner@ == self.liens@[j].owner@
                && self.liens@[i].lienholder@ == self.liens@[j].lienholder@)
        &&& forall|i: int| 0 <= i < self.liens@.len() ==> (#[trigger] self.liens@[i]).amount.wf()
        &&& forall|i: int, j: int|
            0 <= i < j < self.pending@.len() ==> self.pending@[i].id != self.pending@[j].id
        &&& forall|i: int|
            0 <= i < self.pending@.len() ==> (#[trigger] self.pending@[i]).id < self.next_reply_id
        &&& forall|i: int|
            0 <= i < self.pending@.len() ==> has_lien(
                self.liens@,
                (#[trigger] self.pending@[i]).owner@,
                self.pending@[i].lienholder@,
            )
        &&& forall|o: Seq<char>|
            #[trigger] sum_high(self.liens@, o) <= collateral_of(self.accounts@, o)
        &&& forall|o: Seq<char>, l: Seq<char>|
            #[trigger] pending_sum(self.pending@, o, l) == lien_of(self.liens@, o, l).high
                - lien_of(self.liens@, o, l).low
    }

    /// A fresh vault for `denom`, forwarding stakes to `local_staking`.
    pub fn new(denom: String, local_staking: String) -> (r: VaultContract)
        ensures
            r.denom == denom,
            r.local_staking == local_staking,
            r.balance == 0,
            r.accounts@.len() == 0,
            r.liens@.len() == 0,
            r.pending@.len() == 0,
            r.next_reply_id == 0,
            r.wf(),
    {
        let r = VaultContract {
            denom,
            local_staking,
            balance: 0,
            accounts: Vec::new(),
            liens: Vec::new(),
            pending: Vec::new(),
            next_reply_id: 0,
        };
        proof {
            assert forall|o: Seq<char>| #[trigger] sum_high(r.liens@, o) <= collateral_of(
                r.accounts@,
                o,
            ) by {
                assert(sum_high(r.liens@, o) == 0);
                assert(collateral_of(r.accounts@, o) == 0);
            }
            assert forall|o: Seq<char>, l: Seq<char>| #[trigger] pending_sum(r.pending@, o, l)
                == lien_of(r.liens@, o, l).high - lien_of(r.liens@, o, l).low by {
                assert(pending_sum(r.pending@, o, l) == 0);
                assert(lien_of(r.liens@, o, l) == ValueRange::spec_new_val(0));
            }
        }
        r
    }

    /// First-match scan for an owner's account.
    fn find_account(&self, owner: &String) -> (idx: usize)
        ensures
            idx <= self.accounts@.len(),
            forall|j: int| 0 <= j < idx ==> self.accounts@[j].owner@ != owner@,
            idx < self.accounts@.len() ==> self.accounts@[idx as int].owner@ == owner@,
            has_account(self.accounts@, owner@) == (idx < self.accounts@.len()),
            collateral_of(self.accounts@, owner@) == if idx < self.accounts@.len() {
                self.accounts@[idx as int].collateral as int
            } else {
                0
            },
    {
        let n = self.accounts.len();
        let mut i: usize = 0;
        let mut idx: usize = n;
        while i < n && idx == n
            invariant
                i <= n,
                idx <= n,
                n == self.accounts@.len(),
                idx == n ==> forall|j: int| 0 <= j < i ==> self.accounts@[j].owner@ != owner@,
                idx < n ==> idx < i && self.accounts@[idx as int].owner@ == owner@ && forall|
                    j: int,
                |
                    0 <= j < idx ==> self.accounts@[j].owner@ != owner@,
            decreases n - i,
        {
            if self.accounts[i].owner == *owner {
                idx = i;
            }
            i += 1;
        }
        proof {
            lemma_collateral_lookup(self.accounts@, owner@, idx as int);
        }
        idx
    }

    /// First-match scan for a pair's lien record.
    fn find_lien(&self, owner: &String, lienholder: &String) -> (idx: usize)
        ensures
            idx <= self.liens@.len(),
            forall|j: int|
                0 <= j < idx ==> !(self.liens@[j].owner@ == owner@ && self.liens@[j].lienholder@
                    == lienholder@),
            idx < self.liens@.len() ==> self.liens@[idx as int].owner@ == owner@
                && self.liens@[idx as int].lienholder@ == lienholder@,
            has_lien(self.liens@, owner@, lienholder@) == (idx < self.liens@.len()),
            lien_of(self.liens@, owner@, lienholder@) == if idx < self.liens@.len() {
                self.liens@[idx as int].amount
            } else {
                ValueRange::spec_new_val(0)
            },
    {
        let n = self.liens.len();
        let mut i: usize = 0;
        let mut idx: usize = n;
        while i < n && idx == n
            invariant
                i <= n,
                idx <= n,
                n == self.liens@.len(),
                idx == n ==> forall|j: int|
                    0 <= j < i ==> !(self.liens@[j].owner@ == owner@ && self.liens@[j].lienholder@
                        == lienholder@),
                idx < n ==> idx < i && self.liens@[idx as int].owner@ == owner@
                    && self.liens@[idx as int].lienholder@ == lienholder@ && forall|j: int|
                    0 <= j < idx ==> !(self.liens@[j].owner@ == owner@ && self.liens@[j].lienholder@
                        == lienholder@),
            decreases n - i,
        {
            if self.liens[i].owner == *owner && self.liens[i].lienholder == *lienholder {
                idx = i;
            }
            i += 1;
        }
        proof {
            lemma_lien_lookup(self.liens@, owner@, lienholder@, idx as int);
        }
        idx
    }

    /// First-match scan for a correlation id in the pending table.
    fn find_pending(&self, id: u64) -> (idx: usize)
        ensures
            idx <= self.pending@.len(),
            forall|j: int| 0 <= j < idx ==> self.pending@[j].id != id,
            idx < self.pending@.len() ==> self.pending@[idx as int].id == id,
            pending_index(self.pending@, id) == if idx < self.pending@.len() {
                idx as int
            } else {
                -1
            },
            has_pending(self.pending@, id) == (idx < self.pending@.len()),
    {
        let n = self.pending.len();
        let mut i: usize = 0;
        let mut idx: usize = n;
        while i < n && idx == n
            invariant
                i <= n,
                idx <= n,
                n == self.pending@.len(),
                idx == n ==> forall|j: int| 0 <= j < i ==> self.pending@[j].id != id,
                idx < n ==> idx < i && self.pending@[idx as int].id == id && forall|j: int|
                    0 <= j < idx ==> self.pending@[j].id != id,
            decreases n - i,
        {
            if self.pending[i].id == id {
                idx = i;
            }
            i += 1;
        }
        proof {
            lemma_pending_lookup(self.pending@, id, idx as int);
        }
        idx
    }

    /// Sum the speculative bounds of all of `owner`'s liens: the exposure the
    /// solvency check holds against the collateral.
    fn sum_lien_highs(&self, owner: &String) -> (t: u128)
        requires
            self.wf(),
        ensures
            t as int == sum_high(self.liens@, owner@),
    {
        proof {
            lemma_collateral_bounds(self.accounts@, owner@);
        }
        let n = self.liens.len();
        let mut i: usize = 0;
        let mut total: u128 = 0;
        while i < n
            invariant
                i <= n,
                n == self.liens@.len(),
                self.wf(),
                total as int == sum_high(self.liens@.take(i as int), owner@),
                sum_high(self.liens@.take(i as int), owner@) <= collateral_of(
                    self.accounts@,
                    owner@,
                ),
                collateral_of(self.accounts@, owner@) <= u128::MAX,
            decreases n - i,
        {
            proof {
                assert(self.liens@.take(i + 1) =~= self.liens@.take(i as int).push(
                    self.liens@[i as int],
                ));
                lemma_sum_high_push(self.liens@.take(i as int), self.liens@[i as int], owner@);
                lemma_sum_high_split(self.liens@, owner@, i + 1);
                lemma_sum_high_nonneg(self.liens@.skip(i + 1), owner@);
            }
            let rec = &self.liens[i];
            if rec.owner == *owner {
                total = total + rec.amount.high;
            }
            i += 1;
        }
        proof {
            assert(self.liens@.take(n as int) =~= self.liens@);
        }
        total
    }

    /// Read a pair's lien; an absent lien is a confirmed zero.
    pub fn lien(&self, owner: &String, lienholder: &String) -> (r: ValueRange)
        ensures
            r == lien_of(self.liens@, owner@, lienholder@),
    {
        let idx = self.find_lien(owner, lienholder);
        if idx < self.liens.len() {
            self.liens[idx].amount
        } else {
            ValueRange::new_val(0)
        }
    }

    /// Read an owner's deposited collateral; an owner never seen reads as
    /// zero.
    pub fn collateral_for(&self, owner: &String) -> (c: u128)
        ensures
            c as int == collateral_of(self.accounts@, owner@),
    {
        let idx = self.find_account(owner);
        if idx < self.accounts.len() {
            self.accounts[idx].collateral
        } else {
            0
        }
    }

    /// How much of `owner`'s collateral is not yet under any speculative
    /// claim: what a new stake may draw on.
    pub fn free_collateral(&self, owner: &String) -> (f: u128)
        requires
            self.wf(),
        ensures
            f as int == collateral_of(self.accounts@, owner@) - sum_high(self.liens@, owner@),
    {
        let idx = self.find_account(owner);
        let c: u128 = if idx < self.accounts.len() {
            self.accounts[idx].collateral
        } else {
            0
        };
        let total = self.sum_lien_highs(owner);
        proof {
            lemma_sum_high_nonneg(self.liens@, owner@);
        }
        c - total
    }

    /// Deposit the attached funds as the sender's collateral. Requires
    /// exactly one attached coin of the vault's denom, and a non-zero
    /// amount; always succeeds for such input.
    pub fn bond(&mut self, sender: &String, funds: &Vec<Coin>) -> (r: Result<(), ContractError>)
        requires
            old(self).wf(),
            funds@.len() == 1 ==> collateral_of(old(self).accounts@, sender@) + funds@[0].amount
                <= u128::MAX && old(self).balance + funds@[0].amount <= u128::MAX,
        ensures
            final(self).wf(),
            final(self).denom == old(self).denom,
            final(self).local_staking == old(self).local_staking,
            final(self).liens == old(self).liens,
            final(self).pending == old(self).pending,
            final(self).next_reply_id == old(self).next_reply_id,
            r is Err ==> *final(self) == *old(self),
            funds@.len() != 1 ==> r == Err::<(), ContractError>(ContractError::Payment),
            funds@.len() == 1 && funds@[0].denom@ != old(self).denom@ ==> (r matches Err(
                ContractError::WrongDenom(d),
            ) && d@ == funds@[0].denom@),
            funds@.len() == 1 && funds@[0].denom@ == old(self).denom@ && funds@[0].amount == 0
                ==> r == Err::<(), ContractError>(ContractError::Payment),
            funds@.len() == 1 && funds@[0].denom@ == old(self).denom@ && funds@[0].amount > 0 ==> r
                == Ok::<(), ContractError>(()) && collateral_of(final(self).accounts@, sender@)
                == collateral_of(old(self).accounts@, sender@) + funds@[0].amount && (forall|
                o: Seq<char>,
            |
                o != sender@ ==> collateral_of(final(self).accounts@, o) == collateral_of(
                    old(self).accounts@,
                    o,
                )) && final(self).balance == old(self).balance + funds@[0].amount,
    {
        if funds.len() != 1 {
            return Err(ContractError::Payment);
        }
        let amount = funds[0].amount;
        if !(funds[0].denom == self.denom) {
            return Err(ContractError::WrongDenom(funds[0].denom.clone()));
        }
        if amount == 0 {
            return Err(ContractError::Payment);
        }
        let ghost accs0 = self.accounts@;
        let idx = self.find_account(sender);
        if idx < self.accounts.len() {
            let newacc = UserAccount {
                owner: self.accounts[idx].owner.clone(),
                collateral: self.accounts[idx].collateral + amount,
            };
            proof {
                lemma_collateral_update(accs0, idx as int, newacc, sender@);
            }
            self.accounts[idx] = newacc;
            proof {
                assert forall|o: Seq<char>| o != sender@ implies collateral_of(
                    self.accounts@,
                    o,
                ) == collateral_of(accs0, o) by {
                    lemma_collateral_update(accs0, idx as int, self.accounts@[idx as int], o);
                }
                assert forall|o: Seq<char>| #[trigger] sum_high(self.liens@, o) <= collateral_of(
                    self.accounts@,
                    o,
                ) by {
                    lemma_collateral_update(accs0, idx as int, self.accounts@[idx as int], o);
                    lemma_sum_high_nonneg(self.liens@, o);
                }
            }
        } else {
            let newacc = UserAccount { owner: sender.clone(), collateral: amount };
            proof {
                lemma_collateral_push(accs0, newacc, sender@);
            }
            self.accounts.push(newacc);
            proof {
                assert forall|o: Seq<char>| o != sender@ implies collateral_of(
                    self.accounts@,
                    o,
                ) == collateral_of(accs0, o) by {
                    lemma_collateral_push(accs0, self.accounts@[accs0.len() as int], o);
                }
                assert forall|o: Seq<char>| #[trigger] sum_high(self.liens@, o) <= collateral_of(
                    self.accounts@,
                    o,
                ) by {
                    lemma_collateral_push(accs0, self.accounts@[accs0.len() as int], o);
                    lemma_sum_high_nonneg(self.liens@, o);
                }
            }
        }
        self.balance = self.balance + amount;
        Ok(())
    }

    /// Stake `amount` of the sender's free collateral through the local
    /// staking module: the lien on the sender widens speculatively by the
    /// amount, the funds and the staking message are handed out for
    /// dispatch under a fresh correlation id, and the grant stays
    /// speculative until that id's reply is processed. A request beyond the
    /// free collateral is rejected before anything is dispatched.
    pub fn stake_local(
        &mut self,
        sender: &String,
        funds: &Vec<Coin>,
        amount: &Coin,
        msg: String,
    ) -> (r: Result<StakeInstruction, ContractError>)
        requires
            old(self).wf(),
            old(self).next_reply_id < u64::MAX,
        ensures
            final(self).wf(),
            final(self).denom == old(self).denom,
            final(self).local_staking == old(self).local_staking,
            final(self).accounts == old(self).accounts,
            r is Err ==> *final(self) == *old(self),
            funds@.len() != 0 ==> r == Err::<StakeInstruction, ContractError>(
                ContractError::Payment,
            ),
            funds@.len() == 0 && amount.denom@ != old(self).denom@ ==> (r matches Err(
                ContractError::WrongDenom(d),
            ) && d@ == amount.denom@),
            funds@.len() == 0 && amount.denom@ == old(self).denom@ && amount.amount > collateral_of(
                old(self).accounts@,
                sender@,
            ) - sum_high(old(self).liens@, sender@) ==> r == Err::<StakeInstruction, ContractError>(
                ContractError::InsufficientCollateral,
            ),
            funds@.len() == 0 && amount.denom@ == old(self).denom@ && amount.amount <= collateral_of(
                old(self).accounts@,
                sender@,
            ) - sum_high(old(self).liens@, sender@) && amount.amount > old(self).balance ==> (
            r matches Err(ContractError::Std(_))),
            funds@.len() == 0 && amount.denom@ == old(self).denom@ && amount.amount <= collateral_of(
                old(self).accounts@,
                sender@,
            ) - sum_high(old(self).liens@, sender@) && amount.amount <= old(self).balance ==> (
            r matches Ok(instr) && instr.reply_id == old(self).next_reply_id && instr.receiver@
                == old(self).local_staking@ && instr.owner@ == sender@ && instr.amount
                == amount.amount && instr.msg == msg) && final(self).next_reply_id == old(self).next_reply_id + 1 && final(self).balance == old(self).balance - amount.amount && final(self).pending@ == old(self).pending@.push(
                (PendingOp {
                    id: old(self).next_reply_id,
                    owner: *sender,
                    lienholder: old(self).local_staking,
                    amount: amount.amount,
                }),
            ) && lien_of(final(self).liens@, sender@, old(self).local_staking@) == lien_of(
                old(self).liens@,
                sender@,
                old(self).local_staking@,
            ).spec_increase_high(amount.amount) && (forall|o: Seq<char>, l: Seq<char>|
                !(o == sender@ && l == old(self).local_staking@) ==> lien_of(
                    final(self).liens@,
                    o,
                    l,
                ) == lien_of(old(self).liens@, o, l)) && sum_high(final(self).liens@, sender@)
                == sum_high(old(self).liens@, sender@) + amount.amount && (forall|o: Seq<char>|
                o != sender@ ==> sum_high(final(self).liens@, o) == sum_high(old(self).liens@, o)),
    {
        if funds.len() != 0 {
            return Err(ContractError::Payment);
        }
        if !(amount.denom == self.denom) {
            return Err(ContractError::WrongDenom(amount.denom.clone()));
        }
        let free = self.free_collateral(sender);
        if amount.amount > free {
            return Err(ContractError::InsufficientCollateral);
        }
        if amount.amount > self.balance {
            return Err(ContractError::Std("insufficient funds held by the vault".to_owned()));
        }
        let delta = amount.amount;
        let ghost liens0 = self.liens@;
        let ghost pend0 = self.pending@;
        let lienholder = self.local_staking.clone();
        let idx = self.find_lien(sender, &lienholder);
        proof {
            lemma_collateral_bounds(self.accounts@, sender@);
            lemma_sum_high_nonneg(self.liens@, sender@);
            if idx < self.liens@.len() {
                lemma_lien_high_le_sum(self.liens@, idx as int, sender@);
            }
        }
        if idx < self.liens.len() {
            let newrec = LienRecord {
                owner: self.liens[idx].owner.clone(),
                lienholder: self.liens[idx].lienholder.clone(),
                amount: self.liens[idx].amount.increase_high(delta),
            };
            self.liens[idx] = newrec;
            proof {
                assert forall|o: Seq<char>, l: Seq<char>|
                    !(o == sender@ && l == old(self).local_staking@) implies #[trigger] lien_of(
                    self.liens@,
                    o,
                    l,
                ) == lien_of(liens0, o, l) by {
                    lemma_lien_update(liens0, idx as int, self.liens@[idx as int], o, l);
                }
                assert(lien_of(self.liens@, sender@, old(self).local_staking@) == lien_of(
                    liens0,
                    sender@,
                    old(self).local_staking@,
                ).spec_increase_high(delta)) by {
                    lemma_lien_update(
                        liens0,
                        idx as int,
                        self.liens@[idx as int],
                        sender@,
                        old(self).local_staking@,
                    );
                }
                assert forall|o: Seq<char>, l: Seq<char>| #[trigger] has_lien(self.liens@, o, l)
                    == has_lien(liens0, o, l) by {
                    lemma_lien_update(liens0, idx as int, self.liens@[idx as int], o, l);
                }
                assert forall|o: Seq<char>| o != sender@ implies #[trigger] sum_high(
                    self.liens@,
                    o,
                ) == sum_high(liens0, o) by {
                    lemma_sum_high_update(liens0, idx as int, self.liens@[idx as int], o);
                }
                assert(sum_high(self.liens@, sender@) == sum_high(liens0, sender@) + delta) by {
                    lemma_sum_high_update(liens0, idx as int, self.liens@[idx as int], sender@);
                }
                assert(self.liens@[idx as int].owner@ == liens0[idx as int].owner@);
                assert(self.liens@[idx as int].lienholder@ == liens0[idx as int].lienholder@);
                assert forall|i: int, j: int| 0 <= i < j < self.liens@.len() implies !(
                self.liens@[i].owner@ == self.liens@[j].owner@ && self.liens@[i].lienholder@
                    == self.liens@[j].lienholder@) by {
                    assert(liens0[i].owner@ != liens0[j].owner@ || liens0[i].lienholder@
                        != liens0[j].lienholder@);
                }
                assert forall|i: int| 0 <= i < self.liens@.len() implies (#[trigger] self.liens@[i]).amount.wf() by {
                    assert(liens0[i].amount.wf());
                }
            }
        } else {
            let newrec = LienRecord {
                owner: sender.clone(),
                lienholder: lienholder.clone(),
                amount: ValueRange::new_val(0).increase_high(delta),
            };
            self.liens.push(newrec);
            proof {
                assert forall|o: Seq<char>, l: Seq<char>|
                    !(o == sender@ && l == old(self).local_staking@) implies #[trigger] lien_of(
                    self.liens@,
                    o,
                    l,
                ) == lien_of(liens0, o, l) by {
                    lemma_lien_push(liens0, self.liens@[liens0.len() as int], o, l);
                }
                assert(lien_of(self.liens@, sender@, old(self).local_staking@) == lien_of(
                    liens0,
                    sender@,
                    old(self).local_staking@,
                ).spec_increase_high(delta)) by {
                    lemma_lien_push(
                        liens0,
                        self.liens@[liens0.len() as int],
                        sender@,
                        old(self).local_staking@,
                    );
                    assert(lien_of(liens0, sender@, old(self).local_staking@)
                        == ValueRange::spec_new_val(0));
                }
                assert forall|o: Seq<char>, l: Seq<char>| #[trigger] has_lien(self.liens@, o, l)
                    == (has_lien(liens0, o, l) || (o == sender@ && l == old(
                    self,
                ).local_staking@)) by {
                    lemma_lien_push(liens0, self.liens@[liens0.len() as int], o, l);
                }
                assert forall|o: Seq<char>| o != sender@ implies #[trigger] sum_high(
                    self.liens@,
                    o,
                ) == sum_high(liens0, o) by {
                    lemma_sum_high_push(liens0, self.liens@[liens0.len() as int], o);
                }
                assert(sum_high(self.liens@, sender@) == sum_high(liens0, sender@) + delta) by {
                    lemma_sum_high_push(liens0, self.liens@[liens0.len() as int], sender@);
                }
                assert(self.liens@[liens0.len() as int].owner@ == sender@);
                assert(self.liens@[liens0.len() as int].lienholder@ == old(self).local_staking@);
                assert forall|i: int, j: int| 0 <= i < j < self.liens@.len() implies !(
                self.liens@[i].owner@ == self.liens@[j].owner@ && self.liens@[i].lienholder@
                    == self.liens@[j].lienholder@) by {
                    if j < liens0.len() {
                        assert(liens0[i].owner@ != liens0[j].owner@ || liens0[i].lienholder@
                            != liens0[j].lienholder@);
                    } else {
                        assert(!(liens0[i].owner@ == sender@ && liens0[i].lienholder@ == old(
                            self,
                        ).local_staking@));
                    }
                }
                assert forall|i: int| 0 <= i < self.liens@.len() implies (#[trigger] self.liens@[i]).amount.wf() by {
                    if i < liens0.len() {
                        assert(liens0[i].amount.wf());
                    }
                }
            }
        }
        let id = self.next_reply_id;
        let op = PendingOp {
            id,
            owner: sender.clone(),
            lienholder: lienholder.clone(),
            amount: delta,
        };
        self.pending.push(op);
        self.next_reply_id = id + 1;
        self.balance = self.balance - delta;
        proof {
            assert forall|o: Seq<char>, l: Seq<char>| true implies #[trigger] pending_sum(
                self.pending@,
                o,
                l,
            ) == pending_sum(pend0, o, l) + if o == sender@ && l == old(self).local_staking@ {
                delta as int
            } else {
                0
            } by {
                lemma_pending_sum_push(pend0, self.pending@[pend0.len() as int], o, l);
            }
            assert forall|i: int| 0 <= i < self.pending@.len() implies has_lien(
                self.liens@,
                (#[trigger] self.pending@[i]).owner@,
                self.pending@[i].lienholder@,
            ) by {
                if i < pend0.len() {
                    assert(self.pending@[i] == pend0[i]);
                }
            }
        }
        Ok(
            StakeInstruction {
                reply_id: id,
                receiver: lienholder,
                owner: sender.clone(),
                amount: delta,
                msg,
            },
        )
    }

    /// Resolve the reply correlated to `id`: on success the lien's
    /// confirmed bound catches up by the dispatched amount; on failure the
    /// speculative widening is reverted exactly and the funds return to the
    /// vault. A correlation id that no dispatch owns — including one already
    /// resolved — is rejected with `InvalidReplyId`, so a reply applies at
    /// most once.
    pub fn process_reply(&mut self, id: u64, success: bool) -> (r: Result<(), ContractError>)
        requires
            old(self).wf(),
        ensures
            final(self).wf(),
            final(self).denom == old(self).denom,
            final(self).local_staking == old(self).local_staking,
            final(self).accounts == old(self).accounts,
            final(self).next_reply_id == old(self).next_reply_id,
            r is Err ==> *final(self) == *old(self),
            r is Ok ==> !has_pending(final(self).pending@, id),
            !has_pending(old(self).pending@, id) ==> r == Err::<(), ContractError>(
                ContractError::InvalidReplyId(id),
            ),
            has_pending(old(self).pending@, id) ==> ({
                let op = pending_at(old(self).pending@, id);
                let oldlien = lien_of(old(self).liens@, op.owner@, op.lienholder@);
                if success {
                    r == Ok::<(), ContractError>(()) && final(self).pending@ == old(self).pending@.remove(pending_index(old(self).pending@, id)) && lien_of(
                        final(self).liens@,
                        op.owner@,
                        op.lienholder@,
                    ) == oldlien.spec_increase_low(op.amount) && (forall|o: Seq<char>, l: Seq<char>|
                        !(o == op.owner@ && l == op.lienholder@) ==> lien_of(
                            final(self).liens@,
                            o,
                            l,
                        ) == lien_of(old(self).liens@, o, l)) && (forall|o: Seq<char>|
                        sum_high(final(self).liens@, o) == sum_high(old(self).liens@, o)) && final(self).balance == old(self).balance
                } else if old(self).balance + op.amount <= u128::MAX {
                    r == Ok::<(), ContractError>(()) && final(self).pending@ == old(self).pending@.remove(pending_index(old(self).pending@, id)) && lien_of(
                        final(self).liens@,
                        op.owner@,
                        op.lienholder@,
                    ) == oldlien.spec_decrease_high(op.amount) && (forall|o: Seq<char>, l: Seq<char>|
                        !(o == op.owner@ && l == op.lienholder@) ==> lien_of(
                            final(self).liens@,
                            o,
                            l,
                        ) == lien_of(old(self).liens@, o, l)) && sum_high(
                        final(self).liens@,
                        op.owner@,
                    ) == sum_high(old(self).liens@, op.owner@) - op.amount && (forall|o: Seq<char>|
                        o != op.owner@ ==> sum_high(final(self).liens@, o) == sum_high(
                            old(self).liens@,
                            o,
                        )) && final(self).balance == old(self).balance + op.amount
                } else {
                    (r matches Err(ContractError::Std(_)))
                }
            }),
    {
        let idx = self.find_pending(id);
        if idx >= self.pending.len() {
            return Err(ContractError::InvalidReplyId(id));
        }
        if !success && self.pending[idx].amount > u128::MAX - self.balance {
            return Err(ContractError::Std("vault balance would overflow".to_owned()));
        }
        let ghost pend0 = self.pending@;
        let ghost liens0 = self.liens@;
        proof {
            lemma_pending_amount_le_sum(pend0, idx as int);
        }
        let op = self.pending.remove(idx);
        let lidx = self.find_lien(&op.owner, &op.lienholder);
        proof {
            assert(has_lien(liens0, op.owner@, op.lienholder@));
            assert(lidx < self.liens@.len());
        }
        let checked = if success {
            self.liens[lidx].amount.increase_low(op.amount)
        } else {
            self.liens[lidx].amount.decrease_high(op.amount)
        };
        let na = match checked {
            Ok(a) => a,
            Err(e) => {
                proof {
                    assert(op.amount <= liens0[lidx as int].amount.high
                        - liens0[lidx as int].amount.low);
                    assert(false);
                }
                return Err(e);
            },
        };
        let newrec = LienRecord {
            owner: self.liens[lidx].owner.clone(),
            lienholder: self.liens[lidx].lienholder.clone(),
            amount: na,
        };
        self.liens[lidx] = newrec;
        if !success {
            self.balance = self.balance + op.amount;
        }
        proof {
            pend0.remove_ensures(idx as int);
            assert forall|o: Seq<char>, l: Seq<char>| true implies #[trigger] pending_sum(
                self.pending@,
                o,
                l,
            ) == pending_sum(pend0, o, l) - pending_contrib(pend0[idx as int], o, l) by {
                lemma_pending_sum_remove(pend0, idx as int, o, l);
            }
            assert forall|o: Seq<char>, l: Seq<char>|
                !(o == op.owner@ && l == op.lienholder@) implies #[trigger] lien_of(
                self.liens@,
                o,
                l,
            ) == lien_of(liens0, o, l) by {
                lemma_lien_update(liens0, lidx as int, self.liens@[lidx as int], o, l);
            }
            assert(lien_of(self.liens@, op.owner@, op.lienholder@)
                == self.liens@[lidx as int].amount) by {
                lemma_lien_update(liens0, lidx as int, self.liens@[lidx as int], op.owner@, op.lienholder@);
            }
            assert forall|o: Seq<char>, l: Seq<char>| #[trigger] has_lien(self.liens@, o, l)
                == has_lien(liens0, o, l) by {
                lemma_lien_update(liens0, lidx as int, self.liens@[lidx as int], o, l);
            }
            assert forall|o: Seq<char>| #[trigger] sum_high(self.liens@, o) == sum_high(
                liens0,
                o,
            ) - lien_contrib(liens0[lidx as int], o) + lien_contrib(
                self.liens@[lidx as int],
                o,
            ) by {
                lemma_sum_high_update(liens0, lidx as int, self.liens@[lidx as int], o);
            }
            assert forall|o: Seq<char>| #[trigger] sum_high(self.liens@, o) <= collateral_of(
                self.accounts@,
                o,
            ) by {
                lemma_sum_high_nonneg(liens0, o);
            }
            assert forall|i: int| 0 <= i < self.pending@.len() implies has_lien(
                self.liens@,
                (#[trigger] self.pending@[i]).owner@,
                self.pending@[i].lienholder@,
            ) by {
                if i < idx {
                    assert(self.pending@[i] == pend0[i]);
                } else {
                    assert(self.pending@[i] == pend0[i + 1]);
                }
            }
            assert forall|i: int, j: int| 0 <= i < j < self.pending@.len() implies self.pending@[i].id
                != self.pending@[j].id by {
                assert(self.pending@[i] == if i < idx { pend0[i] } else { pend0[i + 1] });
                assert(self.pending@[j] == if j < idx { pend0[j] } else { pend0[j + 1] });
            }
            assert forall|i: int| 0 <= i < self.pending@.len() implies (
            #[trigger] self.pending@[i]).id < self.next_reply_id by {
                assert(self.pending@[i] == if i < idx { pend0[i] } else { pend0[i + 1] });
            }
            assert forall|j: int| 0 <= j < self.pending@.len() implies self.pending@[j].id != id by {
                assert(self.pending@[j] == if j < idx { pend0[j] } else { pend0[j + 1] });
                if j < idx {
                    assert(pend0[j].id != pend0[idx as int].id);
                } else {
                    assert(pend0[j + 1].id != pend0[idx as int].id);
                }
            }
            lemma_pending_lookup(self.pending@, id, self.pending@.len() as int);
            assert(self.liens@[lidx as int].owner@ == liens0[lidx as int].owner@);
            assert(self.liens@[lidx as int].lienholder@ == liens0[lidx as int].lienholder@);
            assert forall|i: int, j: int| 0 <= i < j < self.liens@.len() implies !(
            self.liens@[i].owner@ == self.liens@[j].owner@ && self.liens@[i].lienholder@
                == self.liens@[j].lienholder@) by {
                assert(liens0[i].owner@ != liens0[j].owner@ || liens0[i].lienholder@
                    != liens0[j].lienholder@);
            }
            assert forall|i: int| 0 <= i < self.liens@.len() implies (#[trigger] self.liens@[i]).amount.wf() by {
                assert(liens0[i].amount.wf());
            }
        }
        Ok(())
    }

    /// Take back `amount` of confirmed stake: the lienholder returns the
    /// funds and the lien commits to the confirmed value less the amount.
    /// Only the calling lienholder's own lien is touched; returning more
    /// than the ledger has confirmed at risk is an accounting mismatch.
    pub fn release_local_stake(&mut self, sender: &String, owner: &String, funds: &Vec<Coin>) -> (r:
        Result<(), ContractError>)
        requires
            old(self).wf(),
        ensures
            final(self).wf(),
            final(self).denom == old(self).denom,
            final(self).local_staking == old(self).local_staking,
            final(self).accounts == old(self).accounts,
            final(self).pending == old(self).pending,
            final(self).next_reply_id == old(self).next_reply_id,
            r is Err ==> *final(self) == *old(self),
            funds@.len() != 1 ==> r == Err::<(), ContractError>(ContractError::Payment),
            funds@.len() == 1 && funds@[0].denom@ != old(self).denom@ ==> (r matches Err(
                ContractError::WrongDenom(d),
            ) && d@ == funds@[0].denom@),
            funds@.len() == 1 && funds@[0].denom@ == old(self).denom@ && funds@[0].amount == 0
                ==> r == Err::<(), ContractError>(ContractError::Payment),
            funds@.len() == 1 && funds@[0].denom@ == old(self).denom@ && funds@[0].amount > 0
                && funds@[0].amount > lien_of(old(self).liens@, owner@, sender@).low ==> r == Err::<
                (),
                ContractError,
            >(ContractError::AccountingMismatch),
            funds@.len() == 1 && funds@[0].denom@ == old(self).denom@ && funds@[0].amount > 0
                && funds@[0].amount <= lien_of(old(self).liens@, owner@, sender@).low && old(
                self,
            ).balance + funds@[0].amount > u128::MAX ==> (r matches Err(ContractError::Std(_))),
            funds@.len() == 1 && funds@[0].denom@ == old(self).denom@ && funds@[0].amount > 0
                && funds@[0].amount <= lien_of(old(self).liens@, owner@, sender@).low && old(
                self,
            ).balance + funds@[0].amount <= u128::MAX ==> ({
                let a = funds@[0].amount;
                let oldlien = lien_of(old(self).liens@, owner@, sender@);
                r == Ok::<(), ContractError>(()) && lien_of(final(self).liens@, owner@, sender@)
                    == (ValueRange {
                    low: (oldlien.low - a) as u128,
                    high: (oldlien.high - a) as u128,
                }) && (forall|o: Seq<char>, l: Seq<char>|
                    !(o == owner@ && l == sender@) ==> lien_of(final(self).liens@, o, l) == lien_of(
                        old(self).liens@,
                        o,
                        l,
                    )) && sum_high(final(self).liens@, owner@) == sum_high(
                    old(self).liens@,
                    owner@,
                ) - a && (forall|o: Seq<char>|
                    o != owner@ ==> sum_high(final(self).liens@, o) == sum_high(
                        old(self).liens@,
                        o,
                    )) && final(self).balance == old(self).balance + a
            }),
    {
        if funds.len() != 1 {
            return Err(ContractError::Payment);
        }
        let amount = funds[0].amount;
        if !(funds[0].denom == self.denom) {
            return Err(ContractError::WrongDenom(funds[0].denom.clone()));
        }
        if amount == 0 {
            return Err(ContractError::Payment);
        }
        let ghost liens0 = self.liens@;
        let lidx = self.find_lien(owner, sender);
        if lidx >= self.liens.len() || amount > self.liens[lidx].amount.low {
            return Err(ContractError::AccountingMismatch);
        }
        if amount > u128::MAX - self.balance {
            return Err(ContractError::Std("vault balance would overflow".to_owned()));
        }
        let newrec = LienRecord {
            owner: self.liens[lidx].owner.clone(),
            lienholder: self.liens[lidx].lienholder.clone(),
            amount: ValueRange {
                low: self.liens[lidx].amount.low - amount,
                high: self.liens[lidx].amount.high - amount,
            },
        };
        self.liens[lidx] = newrec;
        self.balance = self.balance + amount;
        proof {
            assert forall|o: Seq<char>, l: Seq<char>|
                !(o == owner@ && l == sender@) implies #[trigger] lien_of(self.liens@, o, l)
                == lien_of(liens0, o, l) by {
                lemma_lien_update(liens0, lidx as int, self.liens@[lidx as int], o, l);
            }
            assert(lien_of(self.liens@, owner@, sender@) == self.liens@[lidx as int].amount) by {
                lemma_lien_update(liens0, lidx as int, self.liens@[lidx as int], owner@, sender@);
            }
            assert forall|o: Seq<char>, l: Seq<char>| #[trigger] has_lien(self.liens@, o, l)
                == has_lien(liens0, o, l) by {
                lemma_lien_update(liens0, lidx as int, self.liens@[lidx as int], o, l);
            }
            assert forall|o: Seq<char>| o != owner@ implies #[trigger] sum_high(self.liens@, o)
                == sum_high(liens0, o) by {
                lemma_sum_high_update(liens0, lidx as int, self.liens@[lidx as int], o);
            }
            assert(sum_high(self.liens@, owner@) == sum_high(liens0, owner@) - amount) by {
                lemma_sum_high_update(liens0, lidx as int, self.liens@[lidx as int], owner@);
            }
            assert forall|o: Seq<char>| #[trigger] sum_high(self.liens@, o) <= collateral_of(
                self.accounts@,
                o,
            ) by {
                lemma_sum_high_nonneg(liens0, o);
            }
            assert forall|i: int, j: int| 0 <= i < j < self.liens@.len() implies !(
            self.liens@[i].owner@ == self.liens@[j].owner@ && self.liens@[i].lienholder@
                == self.liens@[j].lienholder@) by {
                assert(liens0[i].owner@ != liens0[j].owner@ || liens0[i].lienholder@
                    != liens0[j].lienholder@);
            }
            assert forall|i: int| 0 <= i < self.liens@.len() implies (#[trigger] self.liens@[i]).amount.wf() by {
                assert(liens0[i].amount.wf());
            }
        }
        Ok(())
    }

    /// Account a reported slash: the calling lienholder's lien and the
    /// owner's collateral both settle `amount` lower. Exposure never
    /// increases here, and a report beyond the confirmed at-risk amount is
    /// an accounting mismatch.
    pub fn local_slash(&mut self, sender: &String, owner: &String, amount: u128) -> (r: Result<
        (),
        ContractError,
    >)
        requires
            old(self).wf(),
        ensures
            final(self).wf(),
            final(self).denom == old(self).denom,
            final(self).local_staking == old(self).local_staking,
            final(self).pending == old(self).pending,
            final(self).next_reply_id == old(self).next_reply_id,
            final(self).balance == old(self).balance,
            r is Err ==> *final(self) == *old(self),
            amount > lien_of(old(self).liens@, owner@, sender@).low ==> r == Err::<
                (),
                ContractError,
            >(ContractError::AccountingMismatch),
            amount <= lien_of(old(self).liens@, owner@, sender@).low ==> ({
                let oldlien = lien_of(old(self).liens@, owner@, sender@);
                r == Ok::<(), ContractError>(()) && lien_of(final(self).liens@, owner@, sender@)
                    == (ValueRange {
                    low: (oldlien.low - amount) as u128,
                    high: (oldlien.high - amount) as u128,
                }) && (forall|o: Seq<char>, l: Seq<char>|
                    !(o == owner@ && l == sender@) ==> lien_of(final(self).liens@, o, l) == lien_of(
                        old(self).liens@,
                        o,
                        l,
                    )) && collateral_of(final(self).accounts@, owner@) == collateral_of(
                    old(self).accounts@,
                    owner@,
                ) - amount && (forall|o: Seq<char>|
                    o != owner@ ==> collateral_of(final(self).accounts@, o) == collateral_of(
                        old(self).accounts@,
                        o,
                    ))
            }),
    {
        let ghost liens0 = self.liens@;
        let ghost accs0 = self.accounts@;
        let lidx = self.find_lien(owner, sender);
        if lidx >= self.liens.len() {
            if amount > 0 {
                return Err(ContractError::AccountingMismatch);
            }
            return Ok(());
        }
        if amount > self.liens[lidx].amount.low {
            return Err(ContractError::AccountingMismatch);
        }
        proof {
            lemma_lien_high_le_sum(liens0, lidx as int, owner@);
            lemma_collateral_bounds(accs0, owner@);
        }
        let aidx = self.find_account(owner);
        let newrec = LienRecord {
            owner: self.liens[lidx].owner.clone(),
            lienholder: self.liens[lidx].lienholder.clone(),
            amount: ValueRange {
                low: self.liens[lidx].amount.low - amount,
                high: self.liens[lidx].amount.high - amount,
            },
        };
        self.liens[lidx] = newrec;
        if aidx < self.accounts.len() {
            let newacc = UserAccount {
                owner: self.accounts[aidx].owner.clone(),
                collateral: self.accounts[aidx].collateral - amount,
            };
            self.accounts[aidx] = newacc;
            proof {
                assert forall|o: Seq<char>| o != owner@ implies #[trigger] collateral_of(
                    self.accounts@,
                    o,
                ) == collateral_of(accs0, o) by {
                    lemma_collateral_update(accs0, aidx as int, self.accounts@[aidx as int], o);
                }
                assert(collateral_of(self.accounts@, owner@) == collateral_of(accs0, owner@)
                    - amount) by {
                    lemma_collateral_update(accs0, aidx as int, self.accounts@[aidx as int], owner@);
                }
                assert forall|o: Seq<char>| true implies #[trigger] has_account(self.accounts@, o)
                    == has_account(accs0, o) by {
                    lemma_collateral_update(accs0, aidx as int, self.accounts@[aidx as int], o);
                }
                assert forall|i: int, j: int| 0 <= i < j < self.accounts@.len() implies
                    self.accounts@[i].owner@ != self.accounts@[j].owner@ by {
                    assert(accs0[i].owner@ != accs0[j].owner@);
                }
            }
        } else {
            proof {
                assert(collateral_of(accs0, owner@) == 0);
                assert(amount == 0);
            }
        }
        proof {
            assert forall|o: Seq<char>, l: Seq<char>|
                !(o == owner@ && l == sender@) implies #[trigger] lien_of(self.liens@, o, l)
                == lien_of(liens0, o, l) by {
                lemma_lien_update(liens0, lidx as int, self.liens@[lidx as int], o, l);
            }
            assert(lien_of(self.liens@, owner@, sender@) == self.liens@[lidx as int].amount) by {
                lemma_lien_update(liens0, lidx as int, self.liens@[lidx as int], owner@, sender@);
            }
            assert forall|o: Seq<char>, l: Seq<char>| #[trigger] has_lien(self.liens@, o, l)
                == has_lien(liens0, o, l) by {
                lemma_lien_update(liens0, lidx as int, self.liens@[lidx as int], o, l);
            }
            assert forall|o: Seq<char>| o != owner@ implies #[trigger] sum_high(self.liens@, o)
                == sum_high(liens0, o) by {
                lemma_sum_high_update(liens0, lidx as int, self.liens@[lidx as int], o);
            }
            assert(sum_high(self.liens@, owner@) == sum_high(liens0, owner@) - amount) by {
                lemma_sum_high_update(liens0, lidx as int, self.liens@[lidx as int], owner@);
            }
            assert forall|o: Seq<char>| #[trigger] sum_high(self.liens@, o) <= collateral_of(
                self.accounts@,
                o,
            ) by {
                lemma_sum_high_nonneg(liens0, o);
            }
            assert forall|i: int, j: int| 0 <= i < j < self.liens@.len() implies !(
            self.liens@[i].owner@ == self.liens@[j].owner@ && self.liens@[i].lienholder@
                == self.liens@[j].lienholder@) by {
                assert(liens0[i].owner@ != liens0[j].owner@ || liens0[i].lienholder@
                    != liens0[j].lienholder@);
            }
            assert forall|i: int| 0 <= i < self.liens@.len() implies (#[trigger] self.liens@[i]).amount.wf() by {
                assert(liens0[i].amount.wf());
            }
        }
        Ok(())
    }

    /// Enumerate an owner's claims: each lienholder with its range, in
    /// ledger order, optionally starting after a previous page's last
    /// lienholder and capped at `limit` entries. Read-only.
    pub fn account_claims(
        &self,
        owner: &String,
        start_after: Option<String>,
        limit: Option<u32>,
    ) -> (r: Vec<LienResponse>)
        ensures
            start_after is None ==> r@ == page_of(claims_of(self.liens@, owner@), limit),
            start_after matches Some(s) ==> r@ == page_of(
                claims_after(claims_of(self.liens@, owner@), s@),
                limit,
            ),
    {
        let n = self.liens.len();
        let mut all: Vec<LienResponse> = Vec::new();
        let mut i: usize = 0;
        while i < n
            invariant
                i <= n,
                n == self.liens@.len(),
                all@ == claims_of(self.liens@.take(i as int), owner@),
            decreases n - i,
        {
            proof {
                assert(self.liens@.take(i + 1).drop_last() =~= self.liens@.take(i as int));
                assert(self.liens@.take(i + 1).last() == self.liens@[i as int]);
            }
            let rec = &self.liens[i];
            if rec.owner == *owner {
                all.push(
                    LienResponse { lienholder: rec.lienholder.clone(), amount: rec.amount },
                );
                proof {
                    assert(all@ =~= claims_of(self.liens@.take(i + 1), owner@));
                }
            } else {
                proof {
                    assert(all@ =~= claims_of(self.liens@.take(i + 1), owner@));
                }
            }
            i += 1;
        }
        proof {
            assert(self.liens@.take(n as int) =~= self.liens@);
        }
        let ghost base = claims_of(self.liens@, owner@);
        let m = all.len();
        let start: usize = match &start_after {
            None => 0,
            Some(sa) => {
                let mut k: usize = 0;
                let mut pos: usize = m;
                while k < m && pos == m
                    invariant
                        k <= m,
                        pos <= m,
                        m == all@.len(),
                        pos == m ==> forall|j: int| 0 <= j < k ==> all@[j].lienholder@ != sa@,
                        pos < m ==> pos < k && all@[pos as int].lienholder@ == sa@ && forall|
                            j: int,
                        |
                            0 <= j < pos ==> all@[j].lienholder@ != sa@,
                    decreases m - k,
                {
                    if all[k].lienholder == *sa {
                        pos = k;
                    }
                    k += 1;
                }
                proof {
                    lemma_claims_after_lookup(all@, sa@, pos as int);
                }
                if pos == m {
                    m
                } else {
                    pos + 1
                }
            },
        };
        let ghost windowed = if start_after is Some {
            claims_after(base, start_after->0@)
        } else {
            base
        };
        proof {
            assert(windowed =~= all@.skip(start as int));
        }
        let end: usize = match limit {
            None => m,
            Some(l) => {
                if (l as usize) < m - start {
                    start + (l as usize)
                } else {
                    m
                }
            },
        };
        let mut out: Vec<LienResponse> = Vec::new();
        let mut j: usize = start;
        while j < end
            invariant
                start <= j <= end <= m,
                m == all@.len(),
                out@ == all@.subrange(start as int, j as int),
            decreases end - j,
        {
            out.push(
                LienResponse {
                    lienholder: all[j].lienholder.clone(),
                    amount: all[j].amount,
                },
            );
            proof {
                assert(out@ =~= all@.subrange(start as int, j + 1));
            }
            j += 1;
        }
        proof {
            assert(out@ =~= page_of(windowed, limit));
        }
        out
    }
}

/// Law: solvency. In a well-formed vault no owner's speculative claims,
/// summed over all lienholders at their worst-case bound, exceed that
/// owner's deposited collateral — and every vault operation keeps the vault
/// well-formed.
pub proof fn lemma_solvency(v: VaultContract, owner: Seq<char>)
    requires
        v.wf(),
    ensures
        sum_high(v.liens@, owner) <= collateral_of(v.accounts@, owner),
{
}


} // verus!
