//! Laws of the proof engine, stated over the model and proved.
//!
//! The engine's contracts say that each operation follows its model
//! function, so every law here holds of the executable engine as well.

use vstd::prelude::*;
use crate::inference::{spec_and_i, spec_double_neg_i};
use crate::model::{
    ProofView,
    lemma_lookup_from_agree,
    lemma_scope_find,
    lemma_scope_find_sorted,
    lemma_scope_remove_absent,
    lookup_from,
    scope_find,
    scope_sorted,
    scope_within,
    step_of,
};
use crate::prop::{PropView, StepTypeView, StepView};
use crate::rules::RuleView;

verus! {

/// Negating twice wraps a proposition in two implications to `⊥`.
pub proof fn law_double_negation_shape(p: PropView)
    ensures
        p.negated().negated() == PropView::Imply(
            Box::new(PropView::Imply(Box::new(p), Box::new(PropView::Bottom))),
            Box::new(PropView::Bottom),
        ),
{
}

/// An index that none of the scopes up to `level` holds is not found.
proof fn lemma_lookup_from_none(scopes: Seq<Seq<(nat, StepView)>>, level: int, index: nat)
    requires
        level < scopes.len(),
        forall|k: int| 0 <= k <= level ==> scope_find(#[trigger] scopes[k], index) is None,
    ensures
        lookup_from(scopes, level, index) is None,
    decreases level + 1,
{
    if level >= 0 {
        lemma_lookup_from_none(scopes, level - 1, index);
    }
}

impl ProofView {
    /// In a valid proof no index occurs twice: two places that hold the same
    /// index are the same place.
    pub proof fn law_indices_are_unique(self, j: int, a: int, k: int, b: int)
        requires
            self.wf(),
            0 <= j < self.scopes.len(),
            0 <= a < self.scopes[j].len(),
            0 <= k < self.scopes.len(),
            0 <= b < self.scopes[k].len(),
            self.scopes[j][a].0 == self.scopes[k][b].0,
        ensures
            j == k,
            a == b,
    {
        assert(scope_sorted(self.scopes[j]) && scope_sorted(self.scopes[k]));
        if j < k {
            assert(scope_within(self.scopes[j], 1, self.scopes[k][0].0));
            assert(self.scopes[j][a].0 < self.scopes[k][0].0);
            assert(self.scopes[k][0].0 <= self.scopes[k][b].0);
        } else if k < j {
            assert(scope_within(self.scopes[k], 1, self.scopes[j][0].0));
            assert(self.scopes[k][b].0 < self.scopes[j][0].0);
            assert(self.scopes[j][0].0 <= self.scopes[j][a].0);
        } else if a < b {
            assert(self.scopes[j][a].0 < self.scopes[j][b].0);
        } else if b < a {
            assert(self.scopes[j][b].0 < self.scopes[j][a].0);
        }
    }

    /// In a valid proof every step of every open scope is visible under its
    /// index, from the innermost scope.
    pub proof fn law_open_steps_are_visible(self, k: int, a: int)
        requires
            self.wf(),
            0 <= k < self.scopes.len(),
            0 <= a < self.scopes[k].len(),
        ensures
            self.lookup(self.scopes[k][a].0) == Some(self.scopes[k][a].1),
    {
        let index = self.scopes[k][a].0;
        let last_level = self.scopes.len() - 1;
        assert(scope_sorted(self.scopes[k]));
        lemma_scope_find_sorted(self.scopes[k], a);
        self.lemma_inner_scopes_lack(k, a, last_level);
    }

    /// The scopes further in than scope `k` do not hold the index of a step
    /// of scope `k`, so the search for it arrives at scope `k`.
    proof fn lemma_inner_scopes_lack(self, k: int, a: int, level: int)
        requires
            self.wf(),
            0 <= k <= level < self.scopes.len(),
            0 <= a < self.scopes[k].len(),
        ensures
            lookup_from(self.scopes, level, self.scopes[k][a].0) == lookup_from(
                self.scopes,
                k,
                self.scopes[k][a].0,
            ),
        decreases level - k,
    {
        if k < level {
            let index = self.scopes[k][a].0;
            lemma_scope_find(self.scopes[level], index);
            if scope_find(self.scopes[level], index) is Some {
                let step = scope_find(self.scopes[level], index)->0;
                let b = choose|b: int|
                    0 <= b < self.scopes[level].len() && #[trigger] self.scopes[level][b] == (
                        index,
                        step,
                    );
                self.law_indices_are_unique(k, a, level, b);
            }
            self.lemma_inner_scopes_lack(k, a, level - 1);
        }
    }

    /// A step that was just added is visible under the index it was given.
    pub proof fn law_pushed_step_is_visible(self, step: StepView)
        requires
            self.depth() >= 1,
        ensures
            self.push_step(step).lookup(self.next) == Some(step),
    {
        let after = self.push_step(step);
        assert(after.scopes[after.scopes.len() - 1] == self.top().push((self.next, step)));
    }

    /// Adding a step does not change what is visible under any other index.
    pub proof fn law_lookup_stable_under_push_step(self, step: StepView, index: nat)
        requires
            self.depth() >= 1,
            index != self.next,
        ensures
            self.push_step(step).lookup(index) == self.lookup(index),
    {
        let after = self.push_step(step);
        let last_level = self.scopes.len() - 1;
        let grown = self.top().push((self.next, step));
        assert(after.scopes[last_level] == grown);
        assert(grown.drop_last() =~= self.top());
        assert(scope_find(grown, index) == scope_find(self.top(), index));
        if last_level > 0 {
            assert forall|k: int| 0 <= k <= last_level - 1 implies after.scopes[k]
                == self.scopes[k] by {}
            lemma_lookup_from_agree(after.scopes, self.scopes, last_level - 1, index);
        }
    }

    /// Opening a scope does not change what is visible under any other
    /// index, and makes the assumption visible under its own.
    pub proof fn law_lookup_stable_under_open_scope(self, assumption: PropView, index: nat)
        requires
            self.depth() >= 1,
        ensures
            index != self.next ==> self.open_scope(assumption).lookup(index) == self.lookup(index),
            self.open_scope(assumption).lookup(self.next) == Some(
                step_of(assumption, StepTypeView::Assumption),
            ),
    {
        let after = self.open_scope(assumption);
        let new_level = self.scopes.len() as int;
        let opened = seq![(self.next, step_of(assumption, StepTypeView::Assumption))];
        assert(after.scopes[new_level] == opened);
        assert(opened.drop_last() =~= Seq::<(nat, StepView)>::empty());
        assert(scope_find(opened.drop_last(), index) is None);
        assert forall|k: int| 0 <= k <= new_level - 1 implies after.scopes[k] == self.scopes[k] by {}
        lemma_lookup_from_agree(after.scopes, self.scopes, new_level - 1, index);
    }

    /// Closing a scope does not change what is visible under an index that
    /// the closed scope did not hold.
    pub proof fn law_lookup_stable_under_close_scope(self, index: nat)
        requires
            self.depth() >= 2,
            self.top().len() >= 1,
            scope_find(self.top(), index) is None,
        ensures
            self.close_scope().lookup(index) == self.lookup(index),
    {
        let after = self.close_scope();
        let parent_level = self.scopes.len() - 2;
        let parent = self.scopes[parent_level];
        let folded = self.folded_top();
        let grown = parent.push(folded);
        lemma_scope_find(self.top(), index);
        assert(self.top()[0].0 != index);
        assert(after.scopes.len() == parent_level + 1);
        assert(after.scopes[parent_level] == grown);
        assert(grown.last() == folded);
        assert(grown.drop_last() =~= parent);
        assert(scope_find(grown, index) == scope_find(parent, index));
        assert(self.scopes[parent_level + 1] == self.top());
        assert(self.lookup(index) == lookup_from(self.scopes, parent_level, index));
        if parent_level > 0 {
            assert forall|k: int| 0 <= k <= parent_level - 1 implies after.scopes[k]
                == self.scopes[k] by {}
            lemma_lookup_from_agree(after.scopes, self.scopes, parent_level - 1, index);
        }
        assert(lookup_from(after.scopes, parent_level - 1, index) == lookup_from(
            self.scopes,
            parent_level - 1,
            index,
        ));
    }

    /// The box that a closed scope leaves behind is visible under the index
    /// of the scope's assumption, and holds the steps of the scope.
    pub proof fn law_closed_scope_is_visible(self)
        requires
            self.depth() >= 2,
        ensures
            self.close_scope().depth() == self.depth() - 1,
            self.close_scope().lookup(self.top().first().0) == Some(
                step_of(PropView::ProofBox(self.top()), StepTypeView::Assumption),
            ),
    {
        let after = self.close_scope();
        let parent_level = self.scopes.len() - 2;
        assert(after.scopes[parent_level] == self.scopes[parent_level].push(self.folded_top()));
    }

    /// The steps of a closed scope are no longer visible under their own
    /// indices: only the index of the assumption is, and it names the box.
    pub proof fn law_closed_steps_are_hidden(self, a: int)
        requires
            self.wf(),
            self.depth() >= 2,
            1 <= a < self.top().len(),
        ensures
            self.close_scope().lookup(self.top()[a].0) is None,
    {
        let after = self.close_scope();
        let closed_level = self.scopes.len() - 1;
        let parent_level = closed_level - 1;
        let top = self.scopes[closed_level];
        let index = top[a].0;
        assert(scope_sorted(top));
        assert(top[0].0 < index);
        assert(after.scopes[parent_level] == self.scopes[parent_level].push(self.folded_top()));
        assert forall|k: int| 0 <= k <= parent_level implies scope_find(
            #[trigger] after.scopes[k],
            index,
        ) is None by {
            lemma_scope_find(after.scopes[k], index);
            assert(scope_within(self.scopes[k], 1, top[0].0));
            if scope_find(after.scopes[k], index) is Some {
                let step = scope_find(after.scopes[k], index)->0;
                let b = choose|b: int|
                    0 <= b < after.scopes[k].len() && #[trigger] after.scopes[k][b] == (index, step);
                if k == parent_level && b == self.scopes[k].len() {
                    assert(after.scopes[k][b] == self.folded_top());
                } else {
                    assert(after.scopes[k][b] == self.scopes[k][b]);
                }
            }
        }
        lemma_lookup_from_none(after.scopes, parent_level, index);
    }

    /// An assumption that is closed at once leaves the scope stack as deep as
    /// it was, with exactly one more step in the scope that was innermost: a
    /// box that holds the assumption alone, under the assumption's index.
    pub proof fn law_assume_then_close(self, assumption: PropView)
        requires
            self.depth() >= 1,
        ensures
            self.open_scope(assumption).depth() >= 2,
            self.open_scope(assumption).close_scope() == self.push_step(
                step_of(
                    PropView::ProofBox(seq![(self.next, step_of(assumption, StepTypeView::Assumption))]),
                    StepTypeView::Assumption,
                ),
            ),
    {
        let opened = self.open_scope(assumption);
        assert(opened.scopes.drop_last() =~= self.scopes);
        assert(opened.close_scope().scopes =~= self.push_step(
            step_of(
                PropView::ProofBox(seq![(self.next, step_of(assumption, StepTypeView::Assumption))]),
                StepTypeView::Assumption,
            ),
        ).scopes);
    }

    /// Taking back a premise, a copy or a rule application that was just
    /// added restores the proof exactly: the scopes and the counter.
    pub proof fn law_undo_inverts_push_step(self, step: StepView)
        requires
            self.wf(),
            step.step_type != StepTypeView::Assumption,
        ensures
            self.push_step(step).undo() == self,
    {
        let after = self.push_step(step);
        let grown = self.top().push((self.next, step));
        self.law_pushed_step_is_visible(step);
        assert(after.top() == grown);
        assert(grown.drop_last() =~= self.top());
        assert(scope_within(self.scopes[self.scopes.len() - 1], 1, self.next));
        lemma_scope_remove_absent(self.top(), self.next);
        assert(after.undo().scopes =~= self.scopes);
    }

    /// Taking back an assumption that was just made restores the proof
    /// exactly: the scopes and the counter.
    pub proof fn law_undo_inverts_open_scope(self, assumption: PropView)
        requires
            self.wf(),
        ensures
            self.open_scope(assumption).undo() == self,
    {
        let after = self.open_scope(assumption);
        self.law_lookup_stable_under_open_scope(assumption, self.next);
        assert(after.undo().scopes =~= self.scopes);
    }

    /// Taking back a rule application that was just made restores the proof
    /// exactly.
    pub proof fn law_undo_inverts_apply_rule(self, rule: RuleView)
        requires
            self.wf(),
            self.conclusion(rule) is Ok,
        ensures
            self.apply_rule(rule).undo() == self,
    {
        match self.conclusion(rule) {
            Ok(prop) => {
                self.law_undo_inverts_push_step(step_of(prop, StepTypeView::Rule(rule)));
            },
            Err(_) => {},
        }
    }

    /// Whether taking back the last allocation discards the whole innermost
    /// scope: it does where that allocation is visible as an assumption and
    /// the innermost scope is not the outermost one.
    pub open spec fn undo_discards_scope(self) -> bool {
        &&& self.next > 1
        &&& self.scopes.len() > 1
        &&& match self.lookup((self.next - 1) as nat) {
            Some(step) => step.step_type == StepTypeView::Assumption,
            None => false,
        }
    }

    /// Taking back the last allocation does not change what is visible under
    /// another index, unless the whole innermost scope is discarded and holds
    /// that index.
    pub proof fn law_lookup_stable_under_undo(self, index: nat)
        requires
            self.wf(),
            index + 1 != self.next,
            self.undo_discards_scope() ==> scope_find(self.top(), index) is None,
        ensures
            self.undo().lookup(index) == self.lookup(index),
    {
        let after = self.undo();
        let last_level = self.scopes.len() - 1;
        if self.next > 1 {
            let latest = (self.next - 1) as nat;
            match self.lookup(latest) {
                None => {},
                Some(step) => {
                    self.lemma_latest_is_last();
                    if step.step_type == StepTypeView::Assumption && self.scopes.len() > 1 {
                        assert forall|k: int| 0 <= k <= last_level - 1 implies after.scopes[k]
                            == self.scopes[k] by {}
                        lemma_lookup_from_agree(after.scopes, self.scopes, last_level - 1, index);
                    } else {
                        let rest = self.top().drop_last();
                        assert(after.scopes[last_level] == rest);
                        assert(scope_find(self.top(), index) == scope_find(rest, index));
                        if last_level > 0 {
                            assert forall|k: int| 0 <= k <= last_level - 1 implies after.scopes[k]
                                == self.scopes[k] by {}
                            lemma_lookup_from_agree(
                                after.scopes,
                                self.scopes,
                                last_level - 1,
                                index,
                            );
                        }
                    }
                },
            }
        }
    }

    /// Applying a rule does not change what is visible under any index but
    /// the one that the new step gets.
    pub proof fn law_lookup_stable_under_apply_rule(self, rule: RuleView, index: nat)
        requires
            self.depth() >= 1,
            index != self.next,
        ensures
            self.apply_rule(rule).lookup(index) == self.lookup(index),
    {
        match self.conclusion(rule) {
            Ok(prop) => {
                self.law_lookup_stable_under_push_step(
                    step_of(prop, StepTypeView::Rule(rule)),
                    index,
                );
            },
            Err(_) => {},
        }
    }

    /// Conjunction introduction on two visible steps adds a step whose
    /// proposition is the conjunction of theirs, in that order.
    pub proof fn law_and_i(self, lhs: nat, rhs: nat)
        requires
            self.depth() >= 1,
            self.lookup(lhs) is Some,
            self.lookup(rhs) is Some,
        ensures
            self.conclusion(RuleView::AndI(lhs, rhs)) == Ok::<PropView, crate::error::ErrorView>(
                spec_and_i(self.lookup(lhs).unwrap().prop, self.lookup(rhs).unwrap().prop),
            ),
            self.apply_rule(RuleView::AndI(lhs, rhs)).lookup(self.next) == Some(
                step_of(
                    PropView::And(
                        Box::new(self.lookup(lhs).unwrap().prop),
                        Box::new(self.lookup(rhs).unwrap().prop),
                    ),
                    StepTypeView::Rule(RuleView::AndI(lhs, rhs)),
                ),
            ),
    {
        let conclusion = spec_and_i(self.lookup(lhs).unwrap().prop, self.lookup(rhs).unwrap().prop);
        self.law_pushed_step_is_visible(
            step_of(conclusion, StepTypeView::Rule(RuleView::AndI(lhs, rhs))),
        );
    }

    /// Introducing a double negation on a visible step and eliminating it
    /// again yields the proposition of that step.
    pub proof fn law_double_negation_round_trip(self, index: nat)
        requires
            self.depth() >= 1,
            self.lookup(index) is Some,
        ensures
            self.conclusion(RuleView::DoubleNegI(index)) == Ok::<PropView, crate::error::ErrorView>(
                spec_double_neg_i(self.lookup(index).unwrap().prop),
            ),
            self.apply_rule(RuleView::DoubleNegI(index)).conclusion(RuleView::DoubleNegE(self.next))
                == Ok::<PropView, crate::error::ErrorView>(self.lookup(index).unwrap().prop),
            self.apply_rule(RuleView::DoubleNegI(index)).apply_rule(
                RuleView::DoubleNegE(self.next),
            ).lookup(self.next + 1) == Some(
                step_of(
                    self.lookup(index).unwrap().prop,
                    StepTypeView::Rule(RuleView::DoubleNegE(self.next)),
                ),
            ),
    {
        let p = self.lookup(index).unwrap().prop;
        let introduced = step_of(spec_double_neg_i(p), StepTypeView::Rule(RuleView::DoubleNegI(index)));
        let middle = self.apply_rule(RuleView::DoubleNegI(index));
        assert(middle == self.push_step(introduced));
        self.law_pushed_step_is_visible(introduced);
        let eliminated = step_of(p, StepTypeView::Rule(RuleView::DoubleNegE(self.next)));
        assert(middle.conclusion(RuleView::DoubleNegE(self.next)) == Ok::<
            PropView,
            crate::error::ErrorView,
        >(p));
        middle.law_pushed_step_is_visible(eliminated);
    }

    /// A rule that does not apply leaves the proof as it was.
    pub proof fn law_refused_rule_changes_nothing(self, rule: RuleView)
        requires
            self.conclusion(rule) is Err,
        ensures
            self.apply_rule(rule) == self,
    {
    }
}

} // verus!
