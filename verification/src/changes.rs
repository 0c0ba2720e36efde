//! The change proposal gateway: note, wait, apply.
//!
//! Every governed mutation is first noted as a [`ChangeRecord`]; the record
//! keeps the instant of noting and whether the change was applied. Noting is
//! idempotent on content: proposing a change whose content equals an already
//! noted, not yet applied one yields the identifier of the existing record,
//! so identifiers can be recovered deterministically by any party. A change
//! becomes applicable once the pool's minimum delay has elapsed, and is
//! single-use.

use vstd::prelude::*;

use crate::Error;
use crate::Seconds;
use crate::loan::LoanMutation;
use crate::policy::{WriteOffPolicy, WriteOffRule};

verus! {

/// A governance-gated pending mutation.
#[derive(Debug)]
pub enum Change {
    /// Mutate one field of an active loan.
    Loan { loan_id: u64, mutation: LoanMutation },
    /// Replace the pool's write-off policy.
    Policy(WriteOffPolicy),
    /// Atomically repay on the source loan and borrow on the target loan.
    TransferDebt {
        from: u64,
        to: u64,
        principal: u128,
        interest: u128,
        unscheduled: u128,
        borrow_amount: u128,
    },
}

/// Content equality of two changes: policies are compared by their rule
/// sequences, everything else field by field.
pub open spec fn change_matches(a: Change, b: Change) -> bool {
    match a {
        Change::Loan { loan_id: l1, mutation: m1 } => match b {
            Change::Loan { loan_id: l2, mutation: m2 } => l1 == l2 && m1 == m2,
            _ => false,
        },
        Change::Policy(p1) => match b {
            Change::Policy(p2) => p1.rules_seq() == p2.rules_seq(),
            _ => false,
        },
        Change::TransferDebt { from: f1, to: t1, principal: p1, interest: i1, unscheduled: u1, borrow_amount: b1 } => match b {
            Change::TransferDebt { from: f2, to: t2, principal: p2, interest: i2, unscheduled: u2, borrow_amount: b2 } => {
                f1 == f2 && t1 == t2 && p1 == p2 && i1 == i2 && u1 == u2 && b1 == b2
            },
            _ => false,
        },
    }
}

/// An exact copy of a policy's rule vector.
pub fn clone_policy(p: &WriteOffPolicy) -> (r: WriteOffPolicy)
    ensures
        r.rules_seq() == p.rules_seq(),
{
    let mut rules: Vec<WriteOffRule> = Vec::new();
    let mut i: usize = 0;
    while i < p.rules.len()
        invariant
            0 <= i <= p.rules@.len(),
            rules@ =~= p.rules@.subrange(0, i as int),
        decreases p.rules@.len() - i,
    {
        rules.push(p.rules[i]);
        i = i + 1;
    }
    proof {
        assert(rules@ =~= p.rules@);
    }
    WriteOffPolicy { rules }
}

/// A copy of a change with the same content.
pub fn clone_change(c: &Change) -> (r: Change)
    ensures
        change_matches(*c, r),
{
    match c {
        Change::Loan { loan_id, mutation } => Change::Loan {
            loan_id: *loan_id,
            mutation: *mutation,
        },
        Change::Policy(p) => Change::Policy(clone_policy(p)),
        Change::TransferDebt { from, to, principal, interest, unscheduled, borrow_amount } => {
            Change::TransferDebt {
                from: *from,
                to: *to,
                principal: *principal,
                interest: *interest,
                unscheduled: *unscheduled,
                borrow_amount: *borrow_amount,
            }
        },
    }
}

/// Whether two changes have equal content.
pub fn same_change(a: &Change, b: &Change) -> (r: bool)
    ensures
        r == change_matches(*a, *b),
{
    match a {
        Change::Loan { loan_id: l1, mutation: m1 } => match b {
            Change::Loan { loan_id: l2, mutation: m2 } => l1 == l2 && m1 == m2,
            _ => false,
        },
        Change::Policy(p1) => match b {
            Change::Policy(p2) => {
                if p1.rules.len() != p2.rules.len() {
                    proof {
                        assert(p1.rules_seq() != p2.rules_seq());
                    }
                    return false;
                }
                let mut i: usize = 0;
                while i < p1.rules.len()
                    invariant
                        0 <= i <= p1.rules@.len(),
                        p1.rules@.len() == p2.rules@.len(),
                        change_matches(*a, *b) == (p1.rules_seq() == p2.rules_seq()),
                        forall|j: int| 0 <= j < i ==> p1.rules@[j] == p2.rules@[j],
                    decreases p1.rules@.len() - i,
                {
                    if !(p1.rules[i] == p2.rules[i]) {
                        proof {
                            assert(p1.rules_seq()[i as int] != p2.rules_seq()[i as int]);
                        }
                        return false;
                    }
                    i = i + 1;
                }
                proof {
                    assert(p1.rules@ =~= p2.rules@);
                }
                true
            },
            _ => false,
        },
        Change::TransferDebt { from: f1, to: t1, principal: p1, interest: i1, unscheduled: u1, borrow_amount: b1 } => match b {
            Change::TransferDebt { from: f2, to: t2, principal: p2, interest: i2, unscheduled: u2, borrow_amount: b2 } => {
                f1 == f2 && t1 == t2 && p1 == p2 && i1 == i2 && u1 == u2 && b1 == b2
            },
            _ => false,
        },
    }
}

/// One noted change of a pool.
#[derive(Debug)]
pub struct ChangeRecord {
    pub change: Change,
    /// The instant the change was first noted; the governance delay counts
    /// from here.
    pub noted_at: Seconds,
    /// Whether the change was already applied; an applied change is spent.
    pub applied: bool,
}

/// True when record `j` is an unapplied record with the given content.
pub open spec fn open_match(records: Seq<ChangeRecord>, change: Change, j: int) -> bool {
    &&& !records[j].applied
    &&& change_matches(records[j].change, change)
}

/// What noting a change does: when an unapplied record with equal content
/// exists, the records stay as they are and the identifier of the first such
/// record is returned; otherwise a fresh unapplied record noted at `now` is
/// appended and its index returned.
pub open spec fn note_post(
    old_records: Seq<ChangeRecord>,
    change: Change,
    now: Seconds,
    new_records: Seq<ChangeRecord>,
    id: u64,
) -> bool {
    if exists|j: int| 0 <= j < old_records.len() && open_match(old_records, change, j) {
        &&& new_records == old_records
        &&& 0 <= id < old_records.len()
        &&& open_match(old_records, change, id as int)
        &&& forall|k: int| 0 <= k < id ==> !open_match(old_records, change, k)
    } else {
        &&& new_records == old_records.push(ChangeRecord { change, noted_at: now, applied: false })
        &&& id == old_records.len()
    }
}

/// Notes a change: returns the identifier of the first unapplied record with
/// equal content, or appends a fresh record.
pub fn note(records: &mut Vec<ChangeRecord>, change: Change, now: Seconds) -> (id: u64)
    ensures
        note_post(old(records)@, change, now, final(records)@, id),
{
    let mut i: usize = 0;
    while i < records.len()
        invariant
            0 <= i <= records@.len(),
            forall|k: int| 0 <= k < i ==> !open_match(records@, change, k),
        decreases records@.len() - i,
    {
        if !records[i].applied && same_change(&records[i].change, &change) {
            proof {
                assert(open_match(records@, change, i as int));
            }
            return i as u64;
        }
        proof {
            assert(!open_match(records@, change, i as int));
        }
        i = i + 1;
    }
    let id = records.len() as u64;
    records.push(ChangeRecord { change, noted_at: now, applied: false });
    id
}

/// Why reading a noted change for application fails, or `None` when it is
/// released: the id must name a record, the record must not be spent, and
/// the delay must have elapsed.
pub open spec fn release_error(records: Seq<ChangeRecord>, id: u64, now: Seconds, delay: Seconds) -> Option<Error> {
    if id >= records.len() {
        Some(Error::ChangeNotFound)
    } else if records[id as int].applied {
        Some(Error::ChangeAlreadyApplied)
    } else if now < records[id as int].noted_at + delay {
        Some(Error::ChangeNotReady)
    } else {
        None
    }
}

/// Checks that the record named by `id` is released: noted, not yet applied,
/// and past the delay.
pub fn ensure_released(records: &Vec<ChangeRecord>, id: u64, now: Seconds, delay: Seconds)
    -> (r: Result<(), Error>)
    ensures
        match r {
            Ok(()) => release_error(records@, id, now, delay) is None,
            Err(e) => Some(e) == release_error(records@, id, now, delay),
        },
{
    if id >= records.len() as u64 {
        return Err(Error::ChangeNotFound);
    }
    let record = &records[id as usize];
    if record.applied {
        return Err(Error::ChangeAlreadyApplied);
    }
    if now < record.noted_at || now - record.noted_at < delay {
        return Err(Error::ChangeNotReady);
    }
    Ok(())
}

/// Marks the record at `id` applied, spending it; nothing else changes.
pub fn mark_applied(records: &mut Vec<ChangeRecord>, id: usize)
    requires
        id < old(records)@.len(),
    ensures
        final(records)@ == old(records)@.update(
            id as int,
            ChangeRecord { applied: true, ..old(records)@[id as int] },
        ),
{
    let rec = records.remove(id);
    records.insert(id, ChangeRecord { change: rec.change, noted_at: rec.noted_at, applied: true });
    proof {
        assert(records@ =~= old(records)@.update(
            id as int,
            ChangeRecord { applied: true, ..old(records)@[id as int] },
        ));
    }
}

/// Proposing the same change content twice, before the first proposal is
/// applied, yields the same change identifier both times and leaves the
/// records after the second noting exactly as after the first.
pub proof fn lemma_note_idempotent(
    records0: Seq<ChangeRecord>,
    change: Change,
    now1: Seconds,
    now2: Seconds,
    records1: Seq<ChangeRecord>,
    id1: u64,
    records2: Seq<ChangeRecord>,
    id2: u64,
)
    requires
        note_post(records0, change, now1, records1, id1),
        note_post(records1, change, now2, records2, id2),
    ensures
        id2 == id1,
        records2 == records1,
{
    if exists|j: int| 0 <= j < records0.len() && open_match(records0, change, j) {
        assert(records1 == records0);
        assert(open_match(records1, change, id1 as int));
    } else {
        assert(records1 == records0.push(ChangeRecord { change, noted_at: now1, applied: false }));
        assert(id1 == records0.len());
        assert(change_matches(records1[id1 as int].change, change)) by {
            lemma_change_matches_reflexive(change);
        }
        assert(open_match(records1, change, id1 as int));
        assert forall|k: int| 0 <= k < id1 implies !open_match(records1, change, k) by {
            assert(records1[k] == records0[k]);
            assert(!open_match(records0, change, k));
        }
    }
}

/// Content equality is reflexive.
pub proof fn lemma_change_matches_reflexive(c: Change)
    ensures
        change_matches(c, c),
{
}

/// Two changes with equal content are of the same kind, with the same
/// fields; a policy payload has the same rule sequence.
pub proof fn lemma_matches_same_variant(a: Change, b: Change)
    requires
        change_matches(a, b),
    ensures
        a is Loan <==> b is Loan,
        a is Policy <==> b is Policy,
        a is TransferDebt <==> b is TransferDebt,
        a is Loan ==> a->loan_id == b->loan_id && a->mutation == b->mutation,
        a is Policy ==> a->Policy_0.rules_seq() == b->Policy_0.rules_seq(),
        a is TransferDebt ==> {
            &&& a->from == b->from
            &&& a->to == b->to
            &&& a->principal == b->principal
            &&& a->interest == b->interest
            &&& a->unscheduled == b->unscheduled
            &&& a->borrow_amount == b->borrow_amount
        },
{
}

} // verus!
