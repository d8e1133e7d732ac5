//! The sixteen inference rules of natural deduction for propositional logic.

use vstd::prelude::*;
use vstd::std_specs::cmp::PartialEqSpecImpl;
use vstd::std_specs::convert::FromSpecImpl;
use crate::prop::{Prop, PropView, StepIndex, prop_view, prop_clone, prop_eq};

verus! {

/// One application of an inference rule: which rule, and the steps and
/// propositions it is applied to.
#[derive(Debug)]
pub enum Rule {
    /// From `φ` and `ψ` conclude `φ ∧ ψ`.
    AndI(StepIndex, StepIndex),
    /// From `φ ∧ ψ` conclude `φ`.
    AndELhs(StepIndex),
    /// From `φ ∧ ψ` conclude `ψ`.
    AndERhs(StepIndex),
    /// From `φ` conclude `φ ∨ ψ`, for a given `ψ`.
    OrILhs(StepIndex, Prop),
    /// From `ψ` conclude `φ ∨ ψ`, for a given `φ`.
    OrIRhs(Prop, StepIndex),
    /// From `φ ∨ ψ`, a box from `φ` to `χ` and a box from `ψ` to `χ`
    /// conclude `χ`.
    OrE { or_prop: StepIndex, lhs_box: StepIndex, rhs_box: StepIndex },
    /// From a box from `φ` to `⊥` conclude `¬φ`.
    NegI(StepIndex),
    /// From `φ` and `¬φ` conclude `⊥`.
    NegE { prop: StepIndex, neg_prop: StepIndex },
    /// From a box from `φ` to `ψ` conclude `φ → ψ`.
    ImplyI(StepIndex),
    /// Modus ponens: from `φ → ψ` and `φ` conclude `ψ`.
    ImplyE { implication: StepIndex, lhs_proof: StepIndex },
    /// From `⊥` conclude any given `φ`.
    BottomE(StepIndex, Prop),
    /// From `¬¬φ` conclude `φ`.
    DoubleNegE(StepIndex),
    /// From `φ → ψ` and `¬ψ` conclude `¬φ`.
    ModusTollens { implication: StepIndex, negated_rhs: StepIndex },
    /// From `φ` conclude `¬¬φ`.
    DoubleNegI(StepIndex),
    /// From a box from `¬φ` to `⊥` conclude `φ`.
    ProofByContradiction(StepIndex),
    /// Conclude `φ ∨ ¬φ`, for a given `φ`.
    LawOfExcludedMiddle(Prop),
}

/// The model of a [`Rule`].
pub ghost enum RuleView {
    AndI(nat, nat),
    AndELhs(nat),
    AndERhs(nat),
    OrILhs(nat, PropView),
    OrIRhs(PropView, nat),
    OrE { or_prop: nat, lhs_box: nat, rhs_box: nat },
    NegI(nat),
    NegE { prop: nat, neg_prop: nat },
    ImplyI(nat),
    ImplyE { implication: nat, lhs_proof: nat },
    BottomE(nat, PropView),
    DoubleNegE(nat),
    ModusTollens { implication: nat, negated_rhs: nat },
    DoubleNegI(nat),
    ProofByContradiction(nat),
    LawOfExcludedMiddle(PropView),
}

/// A rule without its arguments.
#[derive(Clone, Copy, Debug, PartialEq, Eq, Hash, Structural)]
pub enum RuleName {
    AndI,
    AndELhs,
    AndERhs,
    OrILhs,
    OrIRhs,
    OrE,
    NegI,
    NegE,
    ImplyI,
    ImplyE,
    BottomE,
    DoubleNegE,
    ModusTollens,
    DoubleNegI,
    ProofByContradiction,
    LawOfExcludedMiddle,
}

impl RuleView {
    /// The rule without its arguments.
    pub open spec fn name(self) -> RuleName {
        match self {
            RuleView::AndI(..) => RuleName::AndI,
            RuleView::AndELhs(..) => RuleName::AndELhs,
            RuleView::AndERhs(..) => RuleName::AndERhs,
            RuleView::OrILhs(..) => RuleName::OrILhs,
            RuleView::OrIRhs(..) => RuleName::OrIRhs,
            RuleView::OrE { .. } => RuleName::OrE,
            RuleView::NegI(..) => RuleName::NegI,
            RuleView::NegE { .. } => RuleName::NegE,
            RuleView::ImplyI(..) => RuleName::ImplyI,
            RuleView::ImplyE { .. } => RuleName::ImplyE,
            RuleView::BottomE(..) => RuleName::BottomE,
            RuleView::DoubleNegE(..) => RuleName::DoubleNegE,
            RuleView::ModusTollens { .. } => RuleName::ModusTollens,
            RuleView::DoubleNegI(..) => RuleName::DoubleNegI,
            RuleView::ProofByContradiction(..) => RuleName::ProofByContradiction,
            RuleView::LawOfExcludedMiddle(..) => RuleName::LawOfExcludedMiddle,
        }
    }
}

/// The model of a rule application.
pub open spec fn rule_view(r: Rule) -> RuleView
    decreases r,
{
    match r {
        Rule::AndI(i, j) => RuleView::AndI(i@, j@),
        Rule::AndELhs(i) => RuleView::AndELhs(i@),
        Rule::AndERhs(i) => RuleView::AndERhs(i@),
        Rule::OrILhs(i, p) => RuleView::OrILhs(i@, prop_view(p)),
        Rule::OrIRhs(p, i) => RuleView::OrIRhs(prop_view(p), i@),
        Rule::OrE { or_prop, lhs_box, rhs_box } => RuleView::OrE {
            or_prop: or_prop@,
            lhs_box: lhs_box@,
            rhs_box: rhs_box@,
        },
        Rule::NegI(i) => RuleView::NegI(i@),
        Rule::NegE { prop, neg_prop } => RuleView::NegE { prop: prop@, neg_prop: neg_prop@ },
        Rule::ImplyI(i) => RuleView::ImplyI(i@),
        Rule::ImplyE { implication, lhs_proof } => RuleView::ImplyE {
            implication: implication@,
            lhs_proof: lhs_proof@,
        },
        Rule::BottomE(i, p) => RuleView::BottomE(i@, prop_view(p)),
        Rule::DoubleNegE(i) => RuleView::DoubleNegE(i@),
        Rule::ModusTollens { implication, negated_rhs } => RuleView::ModusTollens {
            implication: implication@,
            negated_rhs: negated_rhs@,
        },
        Rule::DoubleNegI(i) => RuleView::DoubleNegI(i@),
        Rule::ProofByContradiction(i) => RuleView::ProofByContradiction(i@),
        Rule::LawOfExcludedMiddle(p) => RuleView::LawOfExcludedMiddle(prop_view(p)),
    }
}

impl View for Rule {
    type V = RuleView;

    open spec fn view(&self) -> RuleView {
        rule_view(*self)
    }
}

pub(crate) fn rule_clone(r: &Rule) -> (c: Rule)
    ensures
        c@ == r@,
    decreases r,
{
    match r {
        Rule::AndI(i, j) => Rule::AndI(*i, *j),
        Rule::AndELhs(i) => Rule::AndELhs(*i),
        Rule::AndERhs(i) => Rule::AndERhs(*i),
        Rule::OrILhs(i, p) => Rule::OrILhs(*i, prop_clone(p)),
        Rule::OrIRhs(p, i) => Rule::OrIRhs(prop_clone(p), *i),
        Rule::OrE { or_prop, lhs_box, rhs_box } => Rule::OrE {
            or_prop: *or_prop,
            lhs_box: *lhs_box,
            rhs_box: *rhs_box,
        },
        Rule::NegI(i) => Rule::NegI(*i),
        Rule::NegE { prop, neg_prop } => Rule::NegE { prop: *prop, neg_prop: *neg_prop },
        Rule::ImplyI(i) => Rule::ImplyI(*i),
        Rule::ImplyE { implication, lhs_proof } => Rule::ImplyE {
            implication: *implication,
            lhs_proof: *lhs_proof,
        },
        Rule::BottomE(i, p) => Rule::BottomE(*i, prop_clone(p)),
        Rule::DoubleNegE(i) => Rule::DoubleNegE(*i),
        Rule::ModusTollens { implication, negated_rhs } => Rule::ModusTollens {
            implication: *implication,
            negated_rhs: *negated_rhs,
        },
        Rule::DoubleNegI(i) => Rule::DoubleNegI(*i),
        Rule::ProofByContradiction(i) => Rule::ProofByContradiction(*i),
        Rule::LawOfExcludedMiddle(p) => Rule::LawOfExcludedMiddle(prop_clone(p)),
    }
}

pub(crate) fn rule_eq(a: &Rule, b: &Rule) -> (r: bool)
    ensures
        r == (a@ == b@),
    decreases a,
{
    match (a, b) {
        (Rule::AndI(i, j), Rule::AndI(k, l)) => i.0 == k.0 && j.0 == l.0,
        (Rule::AndELhs(i), Rule::AndELhs(k)) => i.0 == k.0,
        (Rule::AndERhs(i), Rule::AndERhs(k)) => i.0 == k.0,
        (Rule::OrILhs(i, p), Rule::OrILhs(k, q)) => i.0 == k.0 && prop_eq(p, q),
        (Rule::OrIRhs(p, i), Rule::OrIRhs(q, k)) => prop_eq(p, q) && i.0 == k.0,
        (
            Rule::OrE { or_prop: a1, lhs_box: a2, rhs_box: a3 },
            Rule::OrE { or_prop: b1, lhs_box: b2, rhs_box: b3 },
        ) => a1.0 == b1.0 && a2.0 == b2.0 && a3.0 == b3.0,
        (Rule::NegI(i), Rule::NegI(k)) => i.0 == k.0,
        (Rule::NegE { prop: a1, neg_prop: a2 }, Rule::NegE { prop: b1, neg_prop: b2 }) => a1.0
            == b1.0 && a2.0 == b2.0,
        (Rule::ImplyI(i), Rule::ImplyI(k)) => i.0 == k.0,
        (
            Rule::ImplyE { implication: a1, lhs_proof: a2 },
            Rule::ImplyE { implication: b1, lhs_proof: b2 },
        ) => a1.0 == b1.0 && a2.0 == b2.0,
        (Rule::BottomE(i, p), Rule::BottomE(k, q)) => i.0 == k.0 && prop_eq(p, q),
        (Rule::DoubleNegE(i), Rule::DoubleNegE(k)) => i.0 == k.0,
        (
            Rule::ModusTollens { implication: a1, negated_rhs: a2 },
            Rule::ModusTollens { implication: b1, negated_rhs: b2 },
        ) => a1.0 == b1.0 && a2.0 == b2.0,
        (Rule::DoubleNegI(i), Rule::DoubleNegI(k)) => i.0 == k.0,
        (Rule::ProofByContradiction(i), Rule::ProofByContradiction(k)) => i.0 == k.0,
        (Rule::LawOfExcludedMiddle(p), Rule::LawOfExcludedMiddle(q)) => prop_eq(p, q),
        _ => false,
    }
}

impl Clone for Rule {
    fn clone(&self) -> (r: Self)
        ensures
            r@ == self@,
    {
        rule_clone(self)
    }
}

impl PartialEq for Rule {
    fn eq(&self, other: &Self) -> (r: bool) {
        rule_eq(self, other)
    }
}

impl PartialEqSpecImpl for Rule {
    open spec fn obeys_eq_spec() -> bool {
        true
    }

    open spec fn eq_spec(&self, other: &Self) -> bool {
        self@ == other@
    }
}

impl Eq for Rule {

}

impl<'a> From<&'a Rule> for RuleName {
    fn from(rule: &'a Rule) -> (r: Self) {
        match rule {
            Rule::AndI(..) => RuleName::AndI,
            Rule::AndELhs(..) => RuleName::AndELhs,
            Rule::AndERhs(..) => RuleName::AndERhs,
            Rule::OrILhs(..) => RuleName::OrILhs,
            Rule::OrIRhs(..) => RuleName::OrIRhs,
            Rule::OrE { .. } => RuleName::OrE,
            Rule::NegI(..) => RuleName::NegI,
            Rule::NegE { .. } => RuleName::NegE,
            Rule::ImplyI(..) => RuleName::ImplyI,
            Rule::ImplyE { .. } => RuleName::ImplyE,
            Rule::BottomE(..) => RuleName::BottomE,
            Rule::DoubleNegE(..) => RuleName::DoubleNegE,
            Rule::ModusTollens { .. } => RuleName::ModusTollens,
            Rule::DoubleNegI(..) => RuleName::DoubleNegI,
            Rule::ProofByContradiction(..) => RuleName::ProofByContradiction,
            Rule::LawOfExcludedMiddle(..) => RuleName::LawOfExcludedMiddle,
        }
    }
}

impl<'a> FromSpecImpl<&'a Rule> for RuleName {
    open spec fn obeys_from_spec() -> bool {
        true
    }

    open spec fn from_spec(rule: &'a Rule) -> RuleName {
        rule@.name()
    }
}

} // verus!
