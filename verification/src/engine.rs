//! The proof engine: a stack of scopes and one index counter.
//!
//! Premises, assumptions, copies and rule applications add steps to the
//! innermost scope. An assumption opens a scope of its own, and closing the
//! scope folds it into a single proof box in the scope around it. Every
//! operation either follows its definition in the model or refuses and
//! leaves the proof as it was.

use vstd::prelude::*;
use crate::error::{Error, ErrorView};
use crate::inference::{
    and_e_lhs,
    and_e_rhs,
    and_i,
    bottom_e,
    double_neg_e,
    double_neg_i,
    imply_e,
    imply_i,
    law_of_excluded_middle,
    modus_tollens,
    neg_e,
    neg_i,
    or_e,
    or_i,
    outcome_is,
    proof_by_contradiction,
};
use crate::model::{ProofView, lookup_from, scope_find, step_of};
use crate::prop::{Prop, Step, StepIndex, StepType, StepTypeView, StepView, SubProof, steps_view};
use crate::rules::{Rule, rule_clone};

verus! {

/// The steps of one nesting level, in the order in which they were added.
#[derive(Debug)]
pub(crate) struct Scope {
    pub(crate) steps: Vec<(StepIndex, Step)>,
}

impl View for Scope {
    type V = Seq<(nat, StepView)>;

    open(crate) spec fn view(&self) -> Seq<(nat, StepView)> {
        steps_view(self.steps@)
    }
}

impl Scope {
    fn new() -> (r: Self)
        ensures
            r@ == Seq::<(nat, StepView)>::empty(),
    {
        let r = Self { steps: Vec::new() };
        assert(r@ =~= Seq::<(nat, StepView)>::empty());
        r
    }

    /// The step that the scope holds under `index`.
    fn get(&self, index: StepIndex) -> (r: Option<&Step>)
        ensures
            match scope_find(self@, index@) {
                Some(s) => r matches Some(step) && step@ == s,
                None => r is None,
            },
    {
        let mut i: usize = self.steps.len();
        assert(self@.take(i as int) =~= self@);
        while i > 0
            invariant
                i <= self.steps.len(),
                scope_find(self@, index@) == scope_find(self@.take(i as int), index@),
            decreases i,
        {
            i -= 1;
            let entry = &self.steps[i];
            proof {
                let seen = self@.take(i + 1);
                assert(seen.last() == self@[i as int]);
                assert(seen.drop_last() =~= self@.take(i as int));
            }
            if entry.0.0 == index.0 {
                return Some(&entry.1);
            }
        }
        None
    }

    /// Adds `step` under `index`, after the steps that are there.
    fn insert(&mut self, index: StepIndex, step: Step)
        ensures
            final(self)@ == old(self)@.push((index@, step@)),
    {
        self.steps.push((index, step));
        assert(self@ =~= old(self)@.push((index@, step@)));
    }
}

/// A proof under construction.
#[derive(Debug)]
pub struct Proof {
    pub(crate) context: Vec<Scope>,
    pub(crate) index_counter: usize,
}

impl View for Proof {
    type V = ProofView;

    open(crate) spec fn view(&self) -> ProofView {
        ProofView {
            scopes: Seq::new(self.context@.len(), |k: int| self.context@[k]@),
            next: self.index_counter as nat,
        }
    }
}

impl Default for Proof {
    fn default() -> (r: Self)
        ensures
            r@ == ProofView::empty(),
            r.wf(),
    {
        Self::new()
    }
}

impl Proof {
    /// Whether the proof is one that the engine can have built: see
    /// [`ProofView::wf`]. [`Proof::new`] establishes it and every operation
    /// keeps it.
    pub open spec fn wf(&self) -> bool {
        self@.wf()
    }

    /// A proof with nothing in it: the outermost scope, empty, and the
    /// counter at 1.
    pub fn new() -> (r: Self)
        ensures
            r@ == ProofView::empty(),
            r.wf(),
    {
        let mut context: Vec<Scope> = Vec::new();
        context.push(Scope::new());
        let r = Self { context, index_counter: 1 };
        assert(r@.scopes =~= ProofView::empty().scopes);
        r
    }

    /// How many scopes are open, the outermost one included.
    pub fn depth(&self) -> (r: usize)
        ensures
            r == self@.depth(),
    {
        self.context.len()
    }

    /// The index that the next step will get.
    pub fn peek_index(&self) -> (r: StepIndex)
        ensures
            r@ == self@.next,
    {
        StepIndex(self.index_counter)
    }

    /// The steps of the scope at `level`, the outermost scope being level 0,
    /// in the order in which they were added.
    pub fn steps(&self, level: usize) -> (r: Option<&Vec<(StepIndex, Step)>>)
        ensures
            level < self@.depth() ==> (r matches Some(v) && steps_view(v@) == self@.scopes[level as int]),
            level >= self@.depth() ==> r is None,
    {
        if level < self.context.len() {
            Some(&self.context[level].steps)
        } else {
            None
        }
    }

    /// Adds a copy of the proposition that is visible under `index` to the
    /// innermost scope.
    pub fn copy(&mut self, index: StepIndex) -> (r: Result<StepIndex, Error>)
        requires
            old(self).wf(),
            old(self)@.next < usize::MAX,
        ensures
            final(self).wf(),
            match old(self)@.lookup(index@) {
                Some(source) => r matches Ok(i) && i@ == old(self)@.next && final(self)@ == old(
                    self,
                )@.push_step(step_of(source.prop, StepTypeView::Copy(index@))),
                None => r matches Err(e) && e@ == (ErrorView::InvalidStepIndex { index: index@ })
                    && final(self)@ == old(self)@,
            },
    {
        let prop = match self.get_prop(index) {
            Ok(prop) => prop.clone(),
            Err(e) => {
                return Err(e);
            },
        };
        Ok(self.add_step(Step::new(prop, StepType::Copy(index))))
    }

    /// Adds `premise` to the innermost scope.
    pub fn add_premise(&mut self, premise: Prop) -> (r: StepIndex)
        requires
            old(self).wf(),
            old(self)@.next < usize::MAX,
        ensures
            final(self).wf(),
            r@ == old(self)@.next,
            final(self)@ == old(self)@.push_step(step_of(premise@, StepTypeView::Premise)),
    {
        self.add_step(Step::new(premise, StepType::Premise))
    }

    /// Opens a new scope and adds `assumption` to it as its first step.
    pub fn add_assumption(&mut self, assumption: Prop) -> (r: StepIndex)
        requires
            old(self).wf(),
            old(self)@.next < usize::MAX,
        ensures
            final(self).wf(),
            r@ == old(self)@.next,
            final(self)@ == old(self)@.open_scope(assumption@),
    {
        let index = self.next_index();
        let mut scope = Scope::new();
        scope.insert(index, Step::new(assumption, StepType::Assumption));
        self.context.push(scope);
        proof {
            assert(self@.scopes =~= old(self)@.open_scope(assumption@).scopes);
            old(self)@.lemma_open_scope_wf(assumption@);
        }
        index
    }

    /// Closes the innermost scope. A proof box that holds the steps of the
    /// scope is added to the scope around it, under the index of the
    /// assumption that opened the closed scope. The outermost scope cannot
    /// be closed.
    pub fn close_scope(&mut self) -> (r: Result<(), Error>)
        requires
            old(self).wf(),
        ensures
            final(self).wf(),
            old(self)@.depth() == 1 ==> (r matches Err(e) && e@ == ErrorView::CannotCloseGlobalScope
                && final(self)@ == old(self)@),
            old(self)@.depth() > 1 ==> r is Ok && final(self)@ == old(self)@.close_scope(),
    {
        if self.context.len() == 1 {
            return Err(Error::CannotCloseGlobalScope);
        }
        let ghost before = self@;
        assert(before.scopes[before.scopes.len() - 1].len() >= 1);
        let scope = self.context.pop().unwrap();
        assert(scope@ == before.top());
        let subproof = SubProof::new(scope.steps);
        let starting_index = subproof.starting_index();
        let proof_box = Prop::ProofBox(subproof);
        let parent = self.context.len() - 1;
        self.context[parent].insert(starting_index, Step::new(proof_box, StepType::Assumption));
        proof {
            assert(self@.scopes =~= before.close_scope().scopes);
            before.lemma_close_scope_wf();
        }
        Ok(())
    }

    fn next_index(&mut self) -> (r: StepIndex)
        requires
            old(self)@.next < usize::MAX,
        ensures
            r@ == old(self)@.next,
            final(self)@.next == old(self)@.next + 1,
            final(self)@.scopes == old(self)@.scopes,
            final(self).context == old(self).context,
    {
        let index = StepIndex(self.index_counter);
        self.index_counter = self.index_counter + 1;
        index
    }

    fn add_step(&mut self, step: Step) -> (r: StepIndex)
        requires
            old(self).wf(),
            old(self)@.next < usize::MAX,
        ensures
            final(self).wf(),
            r@ == old(self)@.next,
            final(self)@ == old(self)@.push_step(step@),
    {
        let index = self.next_index();
        let top = self.context.len() - 1;
        self.context[top].insert(index, step);
        proof {
            assert(self@.scopes =~= old(self)@.push_step(step@).scopes);
            old(self)@.lemma_push_step_wf(step@);
        }
        index
    }

    /// The proposition of the step that is visible under `index`.
    pub fn get_prop(&self, index: StepIndex) -> (r: Result<&Prop, Error>)
        requires
            self.wf(),
        ensures
            match self@.lookup(index@) {
                Some(step) => r matches Ok(prop) && prop@ == step.prop,
                None => r matches Err(e) && e@ == (ErrorView::InvalidStepIndex { index: index@ }),
            },
    {
        match self.get_step(index) {
            Ok(step) => Ok(step.prop()),
            Err(e) => Err(e),
        }
    }

    /// The step that is visible under `index`: the innermost scope is
    /// searched first, then the scopes around it, from the inside out.
    pub fn get_step(&self, index: StepIndex) -> (r: Result<&Step, Error>)
        requires
            self.wf(),
        ensures
            match self@.lookup(index@) {
                Some(step) => r matches Ok(found) && found@ == step,
                None => r matches Err(e) && e@ == (ErrorView::InvalidStepIndex { index: index@ }),
            },
    {
        self.get_step_helper(self.context.len() - 1, index)
    }

    fn get_step_helper(&self, scope_level: usize, index: StepIndex) -> (r: Result<&Step, Error>)
        ensures
            match lookup_from(self@.scopes, scope_level as int, index@) {
                Some(step) => r matches Ok(found) && found@ == step,
                None => r matches Err(e) && e@ == (ErrorView::InvalidStepIndex { index: index@ }),
            },
        decreases scope_level,
    {
        if scope_level >= self.context.len() {
            return Err(Error::InvalidStepIndex { index });
        }
        let scope = &self.context[scope_level];
        if let Some(step) = scope.get(index) {
            Ok(step)
        } else if scope_level > 0 {
            self.get_step_helper(scope_level - 1, index)
        } else {
            Err(Error::InvalidStepIndex { index })
        }
    }

    /// What `rule` concludes from the steps that are visible now, or why it
    /// does not apply. The proof is only read.
    pub fn conclusion(&self, rule: &Rule) -> (r: Result<Prop, Error>)
        requires
            self.wf(),
        ensures
            outcome_is(r, self@.conclusion(rule@)),
    {
        match rule {
            Rule::AndI(lhs_index, rhs_index) => {
                let lhs = self.get_prop(*lhs_index)?;
                let rhs = self.get_prop(*rhs_index)?;
                Ok(and_i(lhs, rhs))
            },
            Rule::AndELhs(prop_index) => {
                let prop = self.get_prop(*prop_index)?;
                and_e_lhs(prop)
            },
            Rule::AndERhs(prop_index) => {
                let prop = self.get_prop(*prop_index)?;
                and_e_rhs(prop)
            },
            Rule::ImplyI(proof_box) => {
                let proof_box = self.get_prop(*proof_box)?;
                imply_i(proof_box)
            },
            Rule::OrILhs(index, other) => {
                let prop = self.get_prop(*index)?;
                Ok(or_i(prop, other))
            },
            Rule::OrIRhs(other, index) => {
                let prop = self.get_prop(*index)?;
                Ok(or_i(other, prop))
            },
            Rule::OrE { or_prop, lhs_box, rhs_box } => {
                let or_prop = self.get_prop(*or_prop)?;
                let lhs_box = self.get_prop(*lhs_box)?;
                let rhs_box = self.get_prop(*rhs_box)?;
                or_e(or_prop, lhs_box, rhs_box)
            },
            Rule::NegI(proof_box) => {
                let proof_box = self.get_prop(*proof_box)?;
                neg_i(proof_box)
            },
            Rule::NegE { prop, neg_prop } => {
                let prop = self.get_prop(*prop)?;
                let neg_prop = self.get_prop(*neg_prop)?;
                neg_e(prop, neg_prop)
            },
            Rule::BottomE(bottom_prop, prop) => {
                let bottom_prop = self.get_prop(*bottom_prop)?;
                bottom_e(bottom_prop, prop)
            },
            Rule::DoubleNegE(double_negated_prop) => {
                let double_negated_prop = self.get_prop(*double_negated_prop)?;
                double_neg_e(double_negated_prop)
            },
            Rule::ImplyE { implication, lhs_proof } => {
                let implication = self.get_prop(*implication)?;
                let lhs_proof = self.get_prop(*lhs_proof)?;
                imply_e(implication, lhs_proof)
            },
            Rule::ModusTollens { implication, negated_rhs } => {
                let implication = self.get_prop(*implication)?;
                let negated_rhs = self.get_prop(*negated_rhs)?;
                modus_tollens(implication, negated_rhs)
            },
            Rule::DoubleNegI(prop) => {
                let prop = self.get_prop(*prop)?;
                Ok(double_neg_i(prop))
            },
            Rule::ProofByContradiction(proof_box) => {
                let proof_box = self.get_prop(*proof_box)?;
                proof_by_contradiction(proof_box)
            },
            Rule::LawOfExcludedMiddle(prop) => Ok(law_of_excluded_middle(prop)),
        }
    }

    /// Applies an inference rule to the steps that are visible now. Where the
    /// rule concludes something, the conclusion is added to the innermost
    /// scope as a new step; where it does not, the proof stays as it was.
    pub fn apply_rule(&mut self, rule: &Rule) -> (r: Result<StepIndex, Error>)
        requires
            old(self).wf(),
            old(self)@.next < usize::MAX,
        ensures
            final(self).wf(),
            final(self)@ == old(self)@.apply_rule(rule@),
            match old(self)@.conclusion(rule@) {
                Ok(_) => r matches Ok(i) && i@ == old(self)@.next,
                Err(e) => r matches Err(f) && f@ == e,
            },
    {
        match self.conclusion(rule) {
            Ok(prop) => Ok(self.add_step(Step::new(prop, StepType::Rule(rule_clone(rule))))),
            Err(e) => Err(e),
        }
    }

    /// Takes back the last allocation. The counter goes back by one, but not
    /// below 1. If the step with that index is visible, it is removed from
    /// the innermost scope; if it is an assumption inside an inner scope,
    /// that whole scope is discarded with everything in it, which can be more
    /// than one step. A proof box counts as an assumption here, since it
    /// stands where its assumption stood; in the outermost scope, which is
    /// never discarded, it is removed like any other step. If the step is not
    /// visible any more, because it went into a proof box or was discarded,
    /// only the counter goes back.
    pub fn undo(&mut self)
        requires
            old(self).wf(),
        ensures
            final(self).wf(),
            final(self)@ == old(self)@.undo(),
    {
        proof {
            old(self)@.lemma_undo_wf();
        }
        if self.index_counter <= 1 {
            return ;
        }
        let latest_index = self.index_counter - 1;
        let is_assumption = match self.get_step(StepIndex(latest_index)) {
            Ok(step) => Some(matches!(step.step_type(), StepType::Assumption)),
            Err(_) => None,
        };
        self.index_counter = latest_index;
        match is_assumption {
            None => {
                assert(self@.scopes =~= old(self)@.scopes);
            },
            Some(assumption) => {
                proof {
                    old(self)@.lemma_latest_is_last();
                }
                if assumption && self.context.len() > 1 {
                    self.context.pop();
                    assert(self@.scopes =~= old(self)@.scopes.drop_last());
                } else {
                    let top = self.context.len() - 1;
                    self.context[top].steps.pop();
                    proof {
                        let before = old(self)@;
                        assert(self.context@[top as int]@ =~= before.top().drop_last());
                        assert(self@.scopes =~= before.with_top(before.top().drop_last()).scopes);
                    }
                }
            },
        }
    }
}

} // verus!
