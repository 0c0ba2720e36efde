//! Write-off policies and their evaluator.
//!
//! A policy is an ordered sequence of rules; each rule is triggered once the
//! loan's principal is overdue by at least the rule's threshold in days. The
//! evaluator picks the most punitive applicable rule: the one with the
//! largest satisfied threshold, ties broken by the later position in the
//! sequence.

use vstd::prelude::*;

use crate::Error;
use crate::rate::Rate;

verus! {

/// Upper bound on the number of rules a policy may hold.
pub const MAX_WRITE_OFF_RULES: usize = 16;

/// The terms a write-off sets: the percentage of present value written off
/// and the penalty added to the loan's yearly interest rate.
#[derive(Clone, Copy, Debug, PartialEq, Eq, Structural)]
pub struct WriteOffStatus {
    pub percentage: Rate,
    pub penalty: Rate,
}

impl WriteOffStatus {
    /// True when both terms denote values in [0, 1]; a percentage above one
    /// would write off more than the whole present value.
    pub open spec fn wf(self) -> bool {
        &&& self.percentage.is_fraction()
        &&& self.penalty.is_fraction()
    }
}

/// One rule: once the principal is overdue by at least `overdue_days`, the
/// rule's status may be applied.
#[derive(Clone, Copy, Debug, PartialEq, Eq, Structural)]
pub struct WriteOffRule {
    pub overdue_days: u64,
    pub status: WriteOffStatus,
}

/// An ordered sequence of write-off rules, at most [`MAX_WRITE_OFF_RULES`]
/// of them, each with terms in [0, 1].
#[derive(Debug)]
pub struct WriteOffPolicy {
    pub rules: Vec<WriteOffRule>,
}

/// True when the rule's trigger is satisfied by the given overdue duration.
pub open spec fn rule_applies(rule: WriteOffRule, overdue_days: u64) -> bool {
    overdue_days >= rule.overdue_days
}

/// The most punitive applicable rule: the satisfied rule with the largest
/// threshold; among equal thresholds the one standing later in the sequence.
pub open spec fn spec_find_rule(rules: Seq<WriteOffRule>, overdue_days: u64) -> Option<WriteOffRule>
    decreases rules.len(),
{
    if rules.len() == 0 {
        None
    } else {
        let last = rules[rules.len() - 1];
        let rest = spec_find_rule(rules.drop_last(), overdue_days);
        if rule_applies(last, overdue_days) {
            match rest {
                Some(r) => if r.overdue_days > last.overdue_days {
                    Some(r)
                } else {
                    Some(last)
                },
                None => Some(last),
            }
        } else {
            rest
        }
    }
}

impl WriteOffPolicy {
    /// The rules, in their administrator-chosen order.
    pub open spec fn rules_seq(self) -> Seq<WriteOffRule> {
        self.rules@
    }

    pub open spec fn wf(self) -> bool {
        &&& self.rules@.len() <= MAX_WRITE_OFF_RULES
        &&& forall|i: int| 0 <= i < self.rules@.len() ==> #[trigger] self.rules@[i].status.wf()
    }

    /// The policy with no rules: nothing can be written off under it.
    pub fn empty() -> (p: WriteOffPolicy)
        ensures
            p.wf(),
            p.rules_seq() == Seq::<WriteOffRule>::empty(),
    {
        let p = WriteOffPolicy { rules: Vec::new() };
        proof {
            assert(p.rules@ =~= Seq::<WriteOffRule>::empty());
        }
        p
    }

    /// Wraps an ordered rule sequence into a policy; refused when it exceeds
    /// the configured bound or a rule's terms lie outside [0, 1].
    pub fn new(rules: Vec<WriteOffRule>) -> (r: Result<WriteOffPolicy, Error>)
        ensures
            match r {
                Ok(p) => {
                    &&& p.wf()
                    &&& p.rules_seq() == rules@
                    &&& rules@.len() <= MAX_WRITE_OFF_RULES
                    &&& forall|i: int| 0 <= i < rules@.len() ==> #[trigger] rules@[i].status.wf()
                },
                Err(e) => {
                    &&& (e == Error::TooManyWriteOffRules || e == Error::InvalidWriteOffRule)
                    &&& (e == Error::TooManyWriteOffRules <==> rules@.len() > MAX_WRITE_OFF_RULES)
                    &&& !(rules@.len() <= MAX_WRITE_OFF_RULES && (forall|i: int|
                        0 <= i < rules@.len() ==> #[trigger] rules@[i].status.wf()))
                },
            },
    {
        if rules.len() > MAX_WRITE_OFF_RULES {
            return Err(Error::TooManyWriteOffRules);
        }
        let mut i: usize = 0;
        while i < rules.len()
            invariant
                0 <= i <= rules@.len(),
                rules@.len() <= MAX_WRITE_OFF_RULES,
                forall|j: int| 0 <= j < i ==> #[trigger] rules@[j].status.wf(),
            decreases rules@.len() - i,
        {
            let rule = rules[i];
            if rule.status.percentage.units > crate::rate::RATE_ONE
                || rule.status.penalty.units > crate::rate::RATE_ONE {
                proof {
                    assert(!rules@[i as int].status.wf());
                }
                return Err(Error::InvalidWriteOffRule);
            }
            i = i + 1;
        }
        Ok(WriteOffPolicy { rules })
    }

    /// Number of rules in the policy.
    pub fn len(&self) -> (n: usize)
        ensures
            n == self.rules_seq().len(),
    {
        self.rules.len()
    }

    /// Runtime check of [`WriteOffPolicy::wf`], for policies that were not
    /// built through [`WriteOffPolicy::new`].
    pub fn is_valid(&self) -> (b: bool)
        ensures
            b == self.wf(),
    {
        if self.rules.len() > MAX_WRITE_OFF_RULES {
            return false;
        }
        let mut i: usize = 0;
        while i < self.rules.len()
            invariant
                0 <= i <= self.rules@.len(),
                self.rules@.len() <= MAX_WRITE_OFF_RULES,
                forall|j: int| 0 <= j < i ==> #[trigger] self.rules@[j].status.wf(),
            decreases self.rules@.len() - i,
        {
            let rule = self.rules[i];
            if rule.status.percentage.units > crate::rate::RATE_ONE
                || rule.status.penalty.units > crate::rate::RATE_ONE {
                proof {
                    assert(!self.rules@[i as int].status.wf());
                }
                return false;
            }
            i = i + 1;
        }
        true
    }

    /// Evaluates the policy against an overdue duration: the most punitive
    /// applicable rule, or `None` when no trigger is satisfied.
    pub fn find_rule(&self, overdue_days: u64) -> (r: Option<WriteOffRule>)
        ensures
            r == spec_find_rule(self.rules_seq(), overdue_days),
    {
        let mut best: Option<WriteOffRule> = None;
        let mut i: usize = 0;
        while i < self.rules.len()
            invariant
                0 <= i <= self.rules@.len(),
                best == spec_find_rule(self.rules@.subrange(0, i as int), overdue_days),
            decreases self.rules@.len() - i,
        {
            let rule = self.rules[i];
            proof {
                let prefix = self.rules@.subrange(0, i as int + 1);
                assert(prefix.drop_last() =~= self.rules@.subrange(0, i as int));
                assert(prefix[prefix.len() - 1] == self.rules@[i as int]);
            }
            if overdue_days >= rule.overdue_days {
                best = match best {
                    Some(b) => if b.overdue_days > rule.overdue_days {
                        Some(b)
                    } else {
                        Some(rule)
                    },
                    None => Some(rule),
                };
            }
            i = i + 1;
        }
        proof {
            assert(self.rules@.subrange(0, self.rules@.len() as int) =~= self.rules@);
        }
        best
    }
}

/// What the evaluator's choice means, rule by rule: it returns `Some` exactly
/// when some trigger is satisfied, the returned rule is a satisfied rule of
/// the sequence, and no satisfied rule has a larger threshold.
pub proof fn lemma_find_rule_characterization(rules: Seq<WriteOffRule>, overdue_days: u64)
    ensures
        match spec_find_rule(rules, overdue_days) {
            Some(r) => {
                &&& exists|i: int|
                    0 <= i < rules.len() && rules[i] == r && rule_applies(#[trigger] rules[i], overdue_days)
                &&& forall|i: int|
                    0 <= i < rules.len() && rule_applies(#[trigger] rules[i], overdue_days)
                        ==> rules[i].overdue_days <= r.overdue_days
            },
            None => forall|i: int|
                0 <= i < rules.len() ==> !rule_applies(#[trigger] rules[i], overdue_days),
        },
    decreases rules.len(),
{
    if rules.len() > 0 {
        lemma_find_rule_characterization(rules.drop_last(), overdue_days);
        assert forall|i: int| 0 <= i < rules.len() - 1 implies rules.drop_last()[i] == rules[i] by {}
    }
}

/// True when position `j` holds the rule the evaluator picks: its trigger is
/// satisfied and no satisfied rule after it has a threshold as large.
pub open spec fn latest_winner(rules: Seq<WriteOffRule>, overdue_days: u64, j: int) -> bool {
    &&& 0 <= j < rules.len()
    &&& rule_applies(rules[j], overdue_days)
    &&& forall|k: int|
        j < k < rules.len() && rule_applies(#[trigger] rules[k], overdue_days)
            ==> rules[k].overdue_days < rules[j].overdue_days
}

/// Ties are broken by the later position: the rule the evaluator returns
/// stands at a position after which every satisfied rule has a strictly
/// smaller threshold, so of several satisfied rules with the winning
/// threshold the last one in the administrator-chosen order is applied.
pub proof fn lemma_find_rule_tie_break(rules: Seq<WriteOffRule>, overdue_days: u64)
    ensures
        match spec_find_rule(rules, overdue_days) {
            Some(r) => exists|j: int|
                #[trigger] latest_winner(rules, overdue_days, j) && rules[j] == r,
            None => true,
        },
    decreases rules.len(),
{
    if rules.len() > 0 {
        let last_i = rules.len() - 1;
        let last = rules[last_i];
        let rest = rules.drop_last();
        lemma_find_rule_tie_break(rest, overdue_days);
        lemma_find_rule_characterization(rest, overdue_days);
        assert forall|i: int| 0 <= i < rules.len() - 1 implies rest[i] == rules[i] by {}
        match spec_find_rule(rules, overdue_days) {
            Some(r) => {
                if rule_applies(last, overdue_days) {
                    match spec_find_rule(rest, overdue_days) {
                        Some(prior) => if prior.overdue_days > last.overdue_days {
                            let j = choose|j: int|
                                #[trigger] latest_winner(rest, overdue_days, j)
                                    && rest[j] == prior;
                            assert(latest_winner(rules, overdue_days, j));
                            assert(rules[j] == r);
                        } else {
                            assert(latest_winner(rules, overdue_days, last_i));
                            assert(rules[last_i] == r);
                        },
                        None => {
                            assert(latest_winner(rules, overdue_days, last_i));
                            assert(rules[last_i] == r);
                        },
                    }
                } else {
                    let j = choose|j: int|
                        #[trigger] latest_winner(rest, overdue_days, j) && rest[j] == r;
                    assert(latest_winner(rules, overdue_days, j));
                    assert(rules[j] == r);
                }
            },
            None => {},
        }
    }
}

/// The write-off policy is monotonic: when two rules are both satisfied and
/// one has the strictly larger threshold, the evaluator never picks the rule
/// with the smaller threshold, and what it picks is at least as punitive in
/// threshold as the larger of the two.
pub proof fn lemma_write_off_policy_monotonic(
    rules: Seq<WriteOffRule>,
    overdue_days: u64,
    a: int,
    b: int,
)
    requires
        0 <= a < rules.len(),
        0 <= b < rules.len(),
        rule_applies(rules[a], overdue_days),
        rule_applies(rules[b], overdue_days),
        rules[b].overdue_days > rules[a].overdue_days,
    ensures
        spec_find_rule(rules, overdue_days) is Some,
        spec_find_rule(rules, overdue_days)->Some_0.overdue_days >= rules[b].overdue_days,
        spec_find_rule(rules, overdue_days)->Some_0 != rules[a],
{
    lemma_find_rule_characterization(rules, overdue_days);
    let picked = spec_find_rule(rules, overdue_days);
    if picked is None {
        assert(!rule_applies(rules[a], overdue_days));
    }
}

} // verus!
