//! An evaluation context: the proof engine for callers that deal in
//! propositions and hand their rules over by value.

use vstd::prelude::*;
use crate::engine::Proof;
use crate::error::{Error, ErrorView};
use crate::model::{ProofView, step_of};
use crate::prop::{Prop, StepIndex, StepTypeView};
use crate::rules::Rule;

verus! {

/// A proof that is built and read through propositions alone.
#[derive(Debug)]
pub struct Context {
    pub(crate) proof: Proof,
}

impl View for Context {
    type V = ProofView;

    open(crate) spec fn view(&self) -> ProofView {
        self.proof@
    }
}

impl Default for Context {
    fn default() -> (r: Self)
        ensures
            r@ == ProofView::empty(),
            r.wf(),
    {
        Self::new()
    }
}

impl Context {
    /// Whether the context is one that its operations can have built: see
    /// [`ProofView::wf`].
    pub open spec fn wf(&self) -> bool {
        self@.wf()
    }

    /// A context with nothing in it.
    pub fn new() -> (r: Self)
        ensures
            r@ == ProofView::empty(),
            r.wf(),
    {
        Self { proof: Proof::new() }
    }

    /// The index that the next proposition will get.
    pub fn peek_index(&self) -> (r: StepIndex)
        ensures
            r@ == self@.next,
    {
        self.proof.peek_index()
    }

    /// Adds a copy of the proposition that is visible under `index` to the
    /// innermost scope.
    pub fn copy(&mut self, index: StepIndex) -> (r: Result<StepIndex, Error>)
        requires
            old(self).wf(),
            old(self)@.next < usize::MAX,
        ensures
            final(self).wf(),
            match old(self)@.lookup(index@) {
                Some(source) => r matches Ok(i) && i@ == old(self)@.next && final(self)@ == old(
                    self,
                )@.push_step(step_of(source.prop, StepTypeView::Copy(index@))),
                None => r matches Err(e) && e@ == (ErrorView::InvalidStepIndex { index: index@ })
                    && final(self)@ == old(self)@,
            },
    {
        self.proof.copy(index)
    }

    /// Adds `premise` to the innermost scope.
    pub fn add_premise(&mut self, premise: Prop) -> (r: StepIndex)
        requires
            old(self).wf(),
            old(self)@.next < usize::MAX,
        ensures
            final(self).wf(),
            r@ == old(self)@.next,
            final(self)@ == old(self)@.push_step(step_of(premise@, StepTypeView::Premise)),
    {
        self.proof.add_premise(premise)
    }

    /// Opens a new scope and adds `assumption` to it as its first step.
    pub fn add_assumption(&mut self, assumption: Prop) -> (r: StepIndex)
        requires
            old(self).wf(),
            old(self)@.next < usize::MAX,
        ensures
            final(self).wf(),
            r@ == old(self)@.next,
            final(self)@ == old(self)@.open_scope(assumption@),
    {
        self.proof.add_assumption(assumption)
    }

    /// Closes the innermost scope and leaves a proof box for it in the scope
    /// around it, under the index of the assumption that opened it. The
    /// outermost scope cannot be closed.
    pub fn close_scope(&mut self) -> (r: Result<(), ()>)
        requires
            old(self).wf(),
        ensures
            final(self).wf(),
            old(self)@.depth() == 1 ==> r is Err && final(self)@ == old(self)@,
            old(self)@.depth() > 1 ==> r is Ok && final(self)@ == old(self)@.close_scope(),
    {
        match self.proof.close_scope() {
            Ok(()) => Ok(()),
            Err(_) => Err(()),
        }
    }

    /// The proposition that is visible under `index`.
    pub fn get_prop(&self, index: StepIndex) -> (r: Result<&Prop, Error>)
        requires
            self.wf(),
        ensures
            match self@.lookup(index@) {
                Some(step) => r matches Ok(prop) && prop@ == step.prop,
                None => r matches Err(e) && e@ == (ErrorView::InvalidStepIndex { index: index@ }),
            },
    {
        self.proof.get_prop(index)
    }

    /// Applies an inference rule to the propositions that are visible now.
    /// Where the rule concludes something, the conclusion is added to the
    /// innermost scope; where it does not, the context stays as it was.
    pub fn apply_rule(&mut self, rule: Rule) -> (r: Result<StepIndex, Error>)
        requires
            old(self).wf(),
            old(self)@.next < usize::MAX,
        ensures
            final(self).wf(),
            final(self)@ == old(self)@.apply_rule(rule@),
            match old(self)@.conclusion(rule@) {
                Ok(_) => r matches Ok(i) && i@ == old(self)@.next,
                Err(e) => r matches Err(f) && f@ == e,
            },
    {
        self.proof.apply_rule(&rule)
    }
}

} // verus!
