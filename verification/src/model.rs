//! The mathematical model of a proof under construction.
//!
//! A proof is a stack of scopes and the index that the next step will get.
//! A scope is the sequence of its steps in the order in which they were
//! added, each with its index. Every operation of the engine is defined here
//! as a function from model to model; the engine is proved to follow them.

use vstd::prelude::*;
use crate::error::ErrorView;
use crate::inference::{
    spec_and_e_lhs,
    spec_and_e_rhs,
    spec_and_i,
    spec_bottom_e,
    spec_double_neg_e,
    spec_double_neg_i,
    spec_imply_e,
    spec_imply_i,
    spec_law_of_excluded_middle,
    spec_modus_tollens,
    spec_neg_e,
    spec_neg_i,
    spec_or_e,
    spec_or_i,
    spec_proof_by_contradiction,
};
use crate::prop::{PropView, StepTypeView, StepView};
use crate::rules::RuleView;

verus! {

/// The model of a proof: `scopes[0]` is the outermost scope, the last scope
/// is the one that new steps go to, and `next` is the index that the next
/// step will get.
pub ghost struct ProofView {
    pub scopes: Seq<Seq<(nat, StepView)>>,
    pub next: nat,
}

/// The step that `scope` holds under `index`: the one added last, should
/// there be several.
pub open spec fn scope_find(scope: Seq<(nat, StepView)>, index: nat) -> Option<StepView>
    decreases scope.len(),
{
    if scope.len() == 0 {
        None
    } else if scope.last().0 == index {
        Some(scope.last().1)
    } else {
        scope_find(scope.drop_last(), index)
    }
}

/// `scope` without the steps that it holds under `index`.
pub open spec fn scope_remove(scope: Seq<(nat, StepView)>, index: nat) -> Seq<(nat, StepView)>
    decreases scope.len(),
{
    if scope.len() == 0 {
        scope
    } else if scope.last().0 == index {
        scope_remove(scope.drop_last(), index)
    } else {
        scope_remove(scope.drop_last(), index).push(scope.last())
    }
}

/// The step under `index` in the innermost scope, at `level` or further
/// out, that holds one.
pub open spec fn lookup_from(scopes: Seq<Seq<(nat, StepView)>>, level: int, index: nat) -> Option<
    StepView,
>
    decreases level + 1,
{
    if level < 0 || level >= scopes.len() {
        None
    } else {
        match scope_find(scopes[level], index) {
            Some(step) => Some(step),
            None => lookup_from(scopes, level - 1, index),
        }
    }
}

/// The indices of a scope grow in the order in which its steps were added.
pub open spec fn scope_sorted(scope: Seq<(nat, StepView)>) -> bool {
    forall|a: int, b: int| 0 <= a < b < scope.len() ==> (#[trigger] scope[a]).0 < (#[trigger] scope[b]).0
}

/// Every index of the scope is at least `lo` and less than `hi`.
pub open spec fn scope_within(scope: Seq<(nat, StepView)>, lo: nat, hi: nat) -> bool {
    forall|a: int| 0 <= a < scope.len() ==> lo <= (#[trigger] scope[a]).0 < hi
}

/// A step of the given kind.
pub open spec fn step_of(prop: PropView, step_type: StepTypeView) -> StepView {
    StepView { prop, step_type }
}

impl ProofView {
    /// The proof that nothing was added to yet.
    pub open spec fn empty() -> ProofView {
        ProofView { scopes: seq![Seq::<(nat, StepView)>::empty()], next: 1 }
    }

    /// How many scopes are open, the outermost one included.
    pub open spec fn depth(self) -> nat {
        self.scopes.len()
    }

    /// The innermost scope.
    pub open spec fn top(self) -> Seq<(nat, StepView)> {
        self.scopes.last()
    }

    /// The same proof with another innermost scope.
    pub open spec fn with_top(self, scope: Seq<(nat, StepView)>) -> ProofView {
        ProofView { scopes: self.scopes.drop_last().push(scope), next: self.next }
    }

    /// What holds of every proof that the engine builds:
    /// the outermost scope is always there; indices are positive and below
    /// the counter; within a scope they grow; every inner scope begins with
    /// its assumption; and an inner scope's first index is above every index
    /// of the scopes around it. Together these make each index unique.
    pub open spec fn wf(self) -> bool {
        &&& self.scopes.len() >= 1
        &&& self.next >= 1
        &&& forall|k: int|
            0 <= k < self.scopes.len() ==> scope_sorted(#[trigger] self.scopes[k]) && scope_within(
                self.scopes[k],
                1,
                self.next,
            )
        &&& forall|k: int|
            1 <= k < self.scopes.len() ==> (#[trigger] self.scopes[k]).len() >= 1
                && self.scopes[k][0].1.step_type == StepTypeView::Assumption
        &&& forall|j: int, k: int|
            0 <= j < k < self.scopes.len() ==> scope_within(
                #[trigger] self.scopes[j],
                1,
                (#[trigger] self.scopes[k])[0].0,
            )
    }

    /// The step that is visible under `index`: the search starts in the
    /// innermost scope and goes outward.
    pub open spec fn lookup(self, index: nat) -> Option<StepView> {
        lookup_from(self.scopes, self.scopes.len() - 1, index)
    }

    /// The proposition of the step that is visible under `index`.
    pub open spec fn prop_at(self, index: nat) -> Result<PropView, ErrorView> {
        match self.lookup(index) {
            Some(step) => Ok(step.prop),
            None => Err(ErrorView::InvalidStepIndex { index }),
        }
    }

    /// The proof after `step` was added to the innermost scope.
    pub open spec fn push_step(self, step: StepView) -> ProofView {
        ProofView { scopes: self.with_top(self.top().push((self.next, step))).scopes, next: self.next + 1 }
    }

    /// The proof after a new scope was opened with `assumption`.
    pub open spec fn open_scope(self, assumption: PropView) -> ProofView {
        ProofView {
            scopes: self.scopes.push(seq![(self.next, step_of(assumption, StepTypeView::Assumption))]),
            next: self.next + 1,
        }
    }

    /// The step that stands for the innermost scope once it is closed, with
    /// the index under which it stands.
    pub open spec fn folded_top(self) -> (nat, StepView) {
        (self.top().first().0, step_of(PropView::ProofBox(self.top()), StepTypeView::Assumption))
    }

    /// The proof after the innermost scope was closed: the scope is gone, and
    /// the scope around it holds one more step, the box.
    pub open spec fn close_scope(self) -> ProofView {
        let outer = ProofView { scopes: self.scopes.drop_last(), next: self.next };
        outer.with_top(outer.top().push(self.folded_top()))
    }

    /// The proof after the last allocation was taken back. The counter goes
    /// back by one, but not below 1. If the step with that index is visible,
    /// it leaves the innermost scope; if it is an assumption inside an inner
    /// scope, that whole scope goes instead. The outermost scope never goes,
    /// and where the step is not visible only the counter changes.
    pub open spec fn undo(self) -> ProofView {
        if self.next <= 1 {
            ProofView { scopes: self.scopes, next: 1 }
        } else {
            let latest = (self.next - 1) as nat;
            match self.lookup(latest) {
                None => ProofView { scopes: self.scopes, next: latest },
                Some(step) => {
                    if step.step_type == StepTypeView::Assumption && self.scopes.len() > 1 {
                        ProofView { scopes: self.scopes.drop_last(), next: latest }
                    } else {
                        ProofView {
                            scopes: self.with_top(scope_remove(self.top(), latest)).scopes,
                            next: latest,
                        }
                    }
                },
            }
        }
    }

    /// What `rule` concludes in this proof, or why it does not apply. The
    /// steps that the rule names are looked up first, in the order in which
    /// the rule lists them.
    pub open spec fn conclusion(self, rule: RuleView) -> Result<PropView, ErrorView> {
        match rule {
            RuleView::AndI(lhs, rhs) => match self.prop_at(lhs) {
                Err(e) => Err(e),
                Ok(l) => match self.prop_at(rhs) {
                    Err(e) => Err(e),
                    Ok(r) => Ok(spec_and_i(l, r)),
                },
            },
            RuleView::AndELhs(i) => match self.prop_at(i) {
                Err(e) => Err(e),
                Ok(p) => spec_and_e_lhs(p),
            },
            RuleView::AndERhs(i) => match self.prop_at(i) {
                Err(e) => Err(e),
                Ok(p) => spec_and_e_rhs(p),
            },
            RuleView::OrILhs(i, other) => match self.prop_at(i) {
                Err(e) => Err(e),
                Ok(p) => Ok(spec_or_i(p, other)),
            },
            RuleView::OrIRhs(other, i) => match self.prop_at(i) {
                Err(e) => Err(e),
                Ok(p) => Ok(spec_or_i(other, p)),
            },
            RuleView::OrE { or_prop, lhs_box, rhs_box } => match self.prop_at(or_prop) {
                Err(e) => Err(e),
                Ok(o) => match self.prop_at(lhs_box) {
                    Err(e) => Err(e),
                    Ok(l) => match self.prop_at(rhs_box) {
                        Err(e) => Err(e),
                        Ok(r) => spec_or_e(o, l, r),
                    },
                },
            },
            RuleView::NegI(i) => match self.prop_at(i) {
                Err(e) => Err(e),
                Ok(p) => spec_neg_i(p),
            },
            RuleView::NegE { prop, neg_prop } => match self.prop_at(prop) {
                Err(e) => Err(e),
                Ok(p) => match self.prop_at(neg_prop) {
                    Err(e) => Err(e),
                    Ok(n) => spec_neg_e(p, n),
                },
            },
            RuleView::ImplyI(i) => match self.prop_at(i) {
                Err(e) => Err(e),
                Ok(p) => spec_imply_i(p),
            },
            RuleView::ImplyE { implication, lhs_proof } => match self.prop_at(implication) {
                Err(e) => Err(e),
                Ok(i) => match self.prop_at(lhs_proof) {
                    Err(e) => Err(e),
                    Ok(l) => spec_imply_e(i, l),
                },
            },
            RuleView::BottomE(i, prop) => match self.prop_at(i) {
                Err(e) => Err(e),
                Ok(b) => spec_bottom_e(b, prop),
            },
            RuleView::DoubleNegE(i) => match self.prop_at(i) {
                Err(e) => Err(e),
                Ok(p) => spec_double_neg_e(p),
            },
            RuleView::ModusTollens { implication, negated_rhs } => match self.prop_at(implication) {
                Err(e) => Err(e),
                Ok(i) => match self.prop_at(negated_rhs) {
                    Err(e) => Err(e),
                    Ok(n) => spec_modus_tollens(i, n),
                },
            },
            RuleView::DoubleNegI(i) => match self.prop_at(i) {
                Err(e) => Err(e),
                Ok(p) => Ok(spec_double_neg_i(p)),
            },
            RuleView::ProofByContradiction(i) => match self.prop_at(i) {
                Err(e) => Err(e),
                Ok(p) => spec_proof_by_contradiction(p),
            },
            RuleView::LawOfExcludedMiddle(prop) => Ok(spec_law_of_excluded_middle(prop)),
        }
    }

    /// The proof after `rule` was applied: with one more step where the rule
    /// concludes something, unchanged where it does not.
    pub open spec fn apply_rule(self, rule: RuleView) -> ProofView {
        match self.conclusion(rule) {
            Ok(prop) => self.push_step(step_of(prop, StepTypeView::Rule(rule))),
            Err(_) => self,
        }
    }
}

/// A step that `scope_find` reports stands in the scope under that index;
/// where it reports none, no step of the scope has the index.
pub proof fn lemma_scope_find(scope: Seq<(nat, StepView)>, index: nat)
    ensures
        match scope_find(scope, index) {
            Some(step) => exists|a: int| 0 <= a < scope.len() && #[trigger] scope[a] == (index, step),
            None => forall|a: int| 0 <= a < scope.len() ==> (#[trigger] scope[a]).0 != index,
        },
    decreases scope.len(),
{
    if scope.len() > 0 {
        let rest = scope.drop_last();
        if scope.last().0 == index {
            assert(scope[scope.len() - 1] == (index, scope.last().1));
        } else {
            lemma_scope_find(rest, index);
            match scope_find(rest, index) {
                Some(step) => {
                    let a = choose|a: int| 0 <= a < rest.len() && #[trigger] rest[a] == (index, step);
                    assert(scope[a] == rest[a]);
                },
                None => {
                    assert forall|a: int| 0 <= a < scope.len() implies (#[trigger] scope[a]).0
                        != index by {
                        if a < rest.len() {
                            assert(scope[a] == rest[a]);
                        }
                    }
                },
            }
        }
    }
}

/// In a scope whose indices grow, every step is found under its index.
pub proof fn lemma_scope_find_sorted(scope: Seq<(nat, StepView)>, a: int)
    requires
        scope_sorted(scope),
        0 <= a < scope.len(),
    ensures
        scope_find(scope, scope[a].0) == Some(scope[a].1),
    decreases scope.len(),
{
    if a < scope.len() - 1 {
        let rest = scope.drop_last();
        assert(scope[a].0 < scope[scope.len() - 1].0);
        assert forall|x: int, y: int| 0 <= x < y < rest.len() implies (#[trigger] rest[x]).0 < (
        #[trigger] rest[y]).0 by {
            assert(rest[x] == scope[x] && rest[y] == scope[y]);
        }
        lemma_scope_find_sorted(rest, a);
    }
}

/// Removing an index that the scope does not hold changes nothing.
pub proof fn lemma_scope_remove_absent(scope: Seq<(nat, StepView)>, index: nat)
    requires
        forall|a: int| 0 <= a < scope.len() ==> (#[trigger] scope[a]).0 != index,
    ensures
        scope_remove(scope, index) == scope,
    decreases scope.len(),
{
    if scope.len() > 0 {
        let rest = scope.drop_last();
        assert forall|a: int| 0 <= a < rest.len() implies (#[trigger] rest[a]).0 != index by {
            assert(rest[a] == scope[a]);
        }
        lemma_scope_remove_absent(rest, index);
        assert(scope[scope.len() - 1].0 != index);
        assert(rest.push(scope.last()) =~= scope);
    }
}

/// A step that `lookup_from` reports stands in one of the scopes searched,
/// and no scope further in holds the index.
pub proof fn lemma_lookup_from(scopes: Seq<Seq<(nat, StepView)>>, level: int, index: nat)
    requires
        level < scopes.len(),
    ensures
        match lookup_from(scopes, level, index) {
            Some(step) => exists|j: int|
                0 <= j <= level && scope_find(#[trigger] scopes[j], index) == Some(step) && forall|
                    k: int,
                | j < k <= level ==> scope_find(#[trigger] scopes[k], index) is None,
            None => forall|j: int|
                0 <= j <= level ==> scope_find(#[trigger] scopes[j], index) is None,
        },
    decreases level + 1,
{
    if level >= 0 {
        match scope_find(scopes[level], index) {
            Some(step) => {
                assert(scope_find(scopes[level], index) == Some(step));
            },
            None => {
                lemma_lookup_from(scopes, level - 1, index);
                match lookup_from(scopes, level - 1, index) {
                    Some(step) => {
                        let j = choose|j: int|
                            0 <= j <= level - 1 && scope_find(#[trigger] scopes[j], index) == Some(
                                step,
                            ) && forall|k: int|
                                j < k <= level - 1 ==> scope_find(#[trigger] scopes[k], index) is None;
                        assert(scope_find(scopes[j], index) == Some(step));
                        assert forall|k: int| j < k <= level implies scope_find(
                            #[trigger] scopes[k],
                            index,
                        ) is None by {}
                    },
                    None => {},
                }
            },
        }
    }
}

/// Scopes that agree up to `level` give the same answers up to `level`.
pub proof fn lemma_lookup_from_agree(
    a: Seq<Seq<(nat, StepView)>>,
    b: Seq<Seq<(nat, StepView)>>,
    level: int,
    index: nat,
)
    requires
        level < a.len(),
        level < b.len(),
        forall|k: int| 0 <= k <= level ==> a[k] == b[k],
    ensures
        lookup_from(a, level, index) == lookup_from(b, level, index),
    decreases level + 1,
{
    if level >= 0 {
        lemma_lookup_from_agree(a, b, level - 1, index);
    }
}

impl ProofView {
    /// In a valid proof, the step allocated last, if it is visible at all,
    /// is the last step of the innermost scope.
    pub proof fn lemma_latest_is_last(self)
        requires
            self.wf(),
            self.next > 1,
            self.lookup((self.next - 1) as nat) is Some,
        ensures
            self.top().len() > 0,
            self.top().last().0 == self.next - 1,
            self.lookup((self.next - 1) as nat) == Some(self.top().last().1),
            scope_remove(self.top(), (self.next - 1) as nat) == self.top().drop_last(),
    {
        let latest = (self.next - 1) as nat;
        let last_level = self.scopes.len() - 1;
        let step = self.lookup(latest).unwrap();
        lemma_lookup_from(self.scopes, last_level, latest);
        let j = choose|j: int|
            0 <= j <= last_level && scope_find(#[trigger] self.scopes[j], latest) == Some(step);
        lemma_scope_find(self.scopes[j], latest);
        let a = choose|a: int|
            0 <= a < self.scopes[j].len() && #[trigger] self.scopes[j][a] == (latest, step);
        let top = self.scopes[last_level];
        if j < last_level {
            assert(scope_within(self.scopes[j], 1, self.scopes[last_level][0].0));
            assert(self.scopes[j][a].0 < top[0].0);
            assert(scope_within(top, 1, self.next));
            assert(top[0].0 < self.next);
            assert(false);
        }
        assert(scope_sorted(top) && scope_within(top, 1, self.next));
        if a < top.len() - 1 {
            assert(top[a].0 < top[top.len() - 1].0);
            assert(false);
        }
        let rest = top.drop_last();
        assert forall|x: int| 0 <= x < rest.len() implies (#[trigger] rest[x]).0 != latest by {
            assert(rest[x] == top[x]);
            assert(top[x].0 < top[a].0);
        }
        lemma_scope_remove_absent(rest, latest);
    }

    /// Adding a step keeps a proof valid.
    pub proof fn lemma_push_step_wf(self, step: StepView)
        requires
            self.wf(),
        ensures
            self.push_step(step).wf(),
    {
        let after = self.push_step(step);
        let last_level = self.scopes.len() - 1;
        assert forall|k: int| 0 <= k < after.scopes.len() implies #[trigger] after.scopes[k] == (if k
            == last_level {
            self.top().push((self.next, step))
        } else {
            self.scopes[k]
        }) by {}
        assert forall|k: int| 0 <= k < after.scopes.len() implies scope_sorted(
            #[trigger] after.scopes[k],
        ) && scope_within(after.scopes[k], 1, after.next) by {
            assert(scope_sorted(self.scopes[k]) && scope_within(self.scopes[k], 1, self.next));
        }
        assert forall|k: int| 1 <= k < after.scopes.len() implies (#[trigger] after.scopes[k]).len()
            >= 1 && after.scopes[k][0].1.step_type == StepTypeView::Assumption by {
            assert(self.scopes[k].len() >= 1);
        }
        assert forall|j: int, k: int| 0 <= j < k < after.scopes.len() implies scope_within(
            #[trigger] after.scopes[j],
            1,
            (#[trigger] after.scopes[k])[0].0,
        ) by {
            assert(scope_within(self.scopes[j], 1, self.scopes[k][0].0));
            assert(self.scopes[k].len() >= 1);
        }
    }

    /// Opening a scope keeps a proof valid.
    pub proof fn lemma_open_scope_wf(self, assumption: PropView)
        requires
            self.wf(),
        ensures
            self.open_scope(assumption).wf(),
    {
        let after = self.open_scope(assumption);
        let new_level = self.scopes.len() as int;
        assert forall|k: int| 0 <= k < after.scopes.len() implies scope_sorted(
            #[trigger] after.scopes[k],
        ) && scope_within(after.scopes[k], 1, after.next) by {
            if k < new_level {
                assert(after.scopes[k] == self.scopes[k]);
                assert(scope_sorted(self.scopes[k]) && scope_within(self.scopes[k], 1, self.next));
            }
        }
        assert forall|k: int| 1 <= k < after.scopes.len() implies (#[trigger] after.scopes[k]).len()
            >= 1 && after.scopes[k][0].1.step_type == StepTypeView::Assumption by {
            if k < new_level {
                assert(after.scopes[k] == self.scopes[k]);
            }
        }
        assert forall|j: int, k: int| 0 <= j < k < after.scopes.len() implies scope_within(
            #[trigger] after.scopes[j],
            1,
            (#[trigger] after.scopes[k])[0].0,
        ) by {
            assert(after.scopes[j] == self.scopes[j]);
            if k < new_level {
                assert(after.scopes[k] == self.scopes[k]);
                assert(scope_within(self.scopes[j], 1, self.scopes[k][0].0));
            } else {
                assert(scope_within(self.scopes[j], 1, self.next));
            }
        }
    }

    /// Closing an inner scope keeps a proof valid.
    pub proof fn lemma_close_scope_wf(self)
        requires
            self.wf(),
            self.scopes.len() > 1,
        ensures
            self.close_scope().wf(),
    {
        let after = self.close_scope();
        let closed_level = self.scopes.len() - 1;
        let parent_level = closed_level - 1;
        let parent = self.scopes[parent_level];
        let folded = self.folded_top();
        assert(self.scopes[closed_level].len() >= 1);
        assert(scope_within(self.scopes[closed_level], 1, self.next));
        assert(folded.0 == self.scopes[closed_level][0].0);
        assert forall|k: int| 0 <= k < after.scopes.len() implies #[trigger] after.scopes[k] == (if k
            == parent_level {
            parent.push(folded)
        } else {
            self.scopes[k]
        }) by {}
        assert(scope_within(parent, 1, self.scopes[closed_level][0].0));
        assert forall|k: int| 0 <= k < after.scopes.len() implies scope_sorted(
            #[trigger] after.scopes[k],
        ) && scope_within(after.scopes[k], 1, after.next) by {
            assert(scope_sorted(self.scopes[k]) && scope_within(self.scopes[k], 1, self.next));
        }
        assert forall|k: int| 1 <= k < after.scopes.len() implies (#[trigger] after.scopes[k]).len()
            >= 1 && after.scopes[k][0].1.step_type == StepTypeView::Assumption by {
            assert(self.scopes[k].len() >= 1);
        }
        assert forall|j: int, k: int| 0 <= j < k < after.scopes.len() implies scope_within(
            #[trigger] after.scopes[j],
            1,
            (#[trigger] after.scopes[k])[0].0,
        ) by {
            assert(scope_within(self.scopes[j], 1, self.scopes[k][0].0));
            assert(self.scopes[k].len() >= 1);
        }
    }

    /// Taking back the last allocation keeps a proof valid.
    pub proof fn lemma_undo_wf(self)
        requires
            self.wf(),
        ensures
            self.undo().wf(),
    {
        let after = self.undo();
        if self.next > 1 {
            let latest = (self.next - 1) as nat;
            let last_level = self.scopes.len() - 1;
            match self.lookup(latest) {
                None => {
                    lemma_lookup_from(self.scopes, last_level, latest);
                    assert forall|k: int| 0 <= k < after.scopes.len() implies scope_within(
                        #[trigger] after.scopes[k],
                        1,
                        after.next,
                    ) by {
                        assert(scope_within(self.scopes[k], 1, self.next));
                        assert(scope_find(self.scopes[k], latest) is None);
                        lemma_scope_find(self.scopes[k], latest);
                    }
                },
                Some(step) => {
                    self.lemma_latest_is_last();
                    let top = self.top();
                    assert(scope_sorted(top) && scope_within(top, 1, self.next));
                    if step.step_type == StepTypeView::Assumption && self.scopes.len() > 1 {
                        assert(top[0].0 <= top[top.len() - 1].0);
                        assert forall|k: int| 0 <= k < after.scopes.len() implies scope_sorted(
                            #[trigger] after.scopes[k],
                        ) && scope_within(after.scopes[k], 1, after.next) by {
                            assert(after.scopes[k] == self.scopes[k]);
                            assert(scope_sorted(self.scopes[k]));
                            assert(scope_within(self.scopes[k], 1, self.scopes[last_level][0].0));
                        }
                        assert forall|k: int| 1 <= k < after.scopes.len() implies (
                        #[trigger] after.scopes[k]).len() >= 1 && after.scopes[k][0].1.step_type
                            == StepTypeView::Assumption by {
                            assert(after.scopes[k] == self.scopes[k]);
                        }
                        assert forall|j: int, k: int|
                            0 <= j < k < after.scopes.len() implies scope_within(
                            #[trigger] after.scopes[j],
                            1,
                            (#[trigger] after.scopes[k])[0].0,
                        ) by {
                            assert(after.scopes[j] == self.scopes[j]);
                            assert(after.scopes[k] == self.scopes[k]);
                            assert(scope_within(self.scopes[j], 1, self.scopes[k][0].0));
                        }
                    } else {
                        let rest = top.drop_last();
                        assert forall|k: int| 0 <= k < after.scopes.len() implies #[trigger] after.scopes[k]
                            == (if k == last_level {
                            rest
                        } else {
                            self.scopes[k]
                        }) by {}
                        assert forall|x: int| 0 <= x < rest.len() implies (#[trigger] rest[x]).0
                            < latest by {
                            assert(rest[x] == top[x]);
                            assert(top[x].0 < top[top.len() - 1].0);
                        }
                        assert forall|x: int, y: int| 0 <= x < y < rest.len() implies (
                        #[trigger] rest[x]).0 < (#[trigger] rest[y]).0 by {
                            assert(rest[x] == top[x] && rest[y] == top[y]);
                        }
                        assert forall|k: int| 0 <= k < after.scopes.len() implies scope_sorted(
                            #[trigger] after.scopes[k],
                        ) && scope_within(after.scopes[k], 1, after.next) by {
                            assert(scope_sorted(self.scopes[k]));
                            if k < last_level {
                                if last_level >= 1 {
                                    assert(scope_within(
                                        self.scopes[k],
                                        1,
                                        self.scopes[last_level][0].0,
                                    ));
                                    assert(top[0].0 <= top[top.len() - 1].0);
                                }
                            } else {
                                assert forall|x: int| 0 <= x < rest.len() implies 1 <= (
                                #[trigger] rest[x]).0 by {
                                    assert(rest[x] == top[x]);
                                }
                            }
                        }
                        assert forall|k: int| 1 <= k < after.scopes.len() implies (
                        #[trigger] after.scopes[k]).len() >= 1 && after.scopes[k][0].1.step_type
                            == StepTypeView::Assumption by {
                            assert(self.scopes[k].len() >= 1);
                            if k == last_level {
                                assert(top[0].1.step_type == StepTypeView::Assumption);
                                assert(top.len() >= 2);
                                assert(rest[0] == top[0]);
                            }
                        }
                        assert forall|j: int, k: int|
                            0 <= j < k < after.scopes.len() implies scope_within(
                            #[trigger] after.scopes[j],
                            1,
                            (#[trigger] after.scopes[k])[0].0,
                        ) by {
                            assert(scope_within(self.scopes[j], 1, self.scopes[k][0].0));
                            assert(self.scopes[k].len() >= 1);
                            if k == last_level {
                                assert(top[0].1.step_type == StepTypeView::Assumption);
                                assert(top.len() >= 2);
                                assert(rest[0] == top[0]);
                            }
                        }
                    }
                },
            }
        }
    }
}

} // verus!
