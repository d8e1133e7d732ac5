//! Propositions, proof steps and their mathematical models.
//!
//! Every executable type here has a view: a ghost value built from `Seq`,
//! `nat` and plain enums, on which all contracts of the crate are stated.
//! Two propositions are structurally equal exactly when their views are equal.

use vstd::prelude::*;
use vstd::std_specs::cmp::PartialEqSpecImpl;
use vstd::std_specs::convert::FromSpecImpl;
use crate::rules::{Rule, RuleView, rule_view, rule_clone, rule_eq};

verus! {

/// Identifies one step of a proof. Indices are positive and handed out by a
/// single counter that all scopes of a proof share.
#[derive(Clone, Copy, Debug, PartialEq, Eq, Hash, Structural)]
pub struct StepIndex(pub usize);

impl View for StepIndex {
    type V = nat;

    open spec fn view(&self) -> nat {
        self.0 as nat
    }
}

/// A formula of propositional logic. Negation is not a variant of its own:
/// `¬φ` is `Imply(φ, Bottom)`.
#[derive(Debug)]
pub enum Prop {
    Bottom,
    Symbol(String),
    And(Box<Prop>, Box<Prop>),
    Or(Box<Prop>, Box<Prop>),
    Imply(Box<Prop>, Box<Prop>),
    ProofBox(SubProof),
}

/// The steps of a closed scope, in the order in which they were added. The
/// first step is the assumption that opened the scope, the last one is what
/// the scope derived. A sub-proof is never empty.
#[derive(Debug)]
pub struct SubProof(pub(crate) Vec<(StepIndex, Step)>);

/// One line of a proof: a proposition and how it was justified.
#[derive(Debug)]
pub struct Step(pub(crate) Prop, pub(crate) StepType);

/// How a step was justified.
#[derive(Debug)]
pub enum StepType {
    Rule(Rule),
    Copy(StepIndex),
    Premise,
    Assumption,
}

/// The top-level shape of a proposition, without its operands.
#[derive(Clone, Copy, Debug, PartialEq, Eq, Structural)]
pub enum PropVariant {
    Bottom,
    Symbol,
    And,
    Or,
    Imply,
    ProofBox,
}

/// The model of a [`Prop`].
pub ghost enum PropView {
    Bottom,
    Symbol(Seq<char>),
    And(Box<PropView>, Box<PropView>),
    Or(Box<PropView>, Box<PropView>),
    Imply(Box<PropView>, Box<PropView>),
    ProofBox(Seq<(nat, StepView)>),
}

/// The model of a [`Step`].
pub ghost struct StepView {
    pub prop: PropView,
    pub step_type: StepTypeView,
}

/// The model of a [`StepType`].
pub ghost enum StepTypeView {
    Rule(RuleView),
    Copy(nat),
    Premise,
    Assumption,
}

impl PropView {
    /// `¬self`, that is `self → ⊥`.
    pub open spec fn negated(self) -> PropView {
        PropView::Imply(Box::new(self), Box::new(PropView::Bottom))
    }

    /// The top-level shape of the proposition.
    pub open spec fn variant(self) -> PropVariant {
        match self {
            PropView::Bottom => PropVariant::Bottom,
            PropView::Symbol(_) => PropVariant::Symbol,
            PropView::And(_, _) => PropVariant::And,
            PropView::Or(_, _) => PropVariant::Or,
            PropView::Imply(_, _) => PropVariant::Imply,
            PropView::ProofBox(_) => PropVariant::ProofBox,
        }
    }
}

/// The proposition that opened the scope which `steps` records.
pub open spec fn box_assumption(steps: Seq<(nat, StepView)>) -> PropView {
    steps.first().1.prop
}

/// The proposition that the scope which `steps` records ended with.
pub open spec fn box_derived(steps: Seq<(nat, StepView)>) -> PropView {
    steps.last().1.prop
}

/// The model of a proposition: the same tree, with sequences of characters
/// for names and sequences of steps for boxes.
pub open(crate) spec fn prop_view(p: Prop) -> PropView
    decreases p,
{
    match p {
        Prop::Bottom => PropView::Bottom,
        Prop::Symbol(s) => PropView::Symbol(s@),
        Prop::And(l, r) => PropView::And(Box::new(prop_view(*l)), Box::new(prop_view(*r))),
        Prop::Or(l, r) => PropView::Or(Box::new(prop_view(*l)), Box::new(prop_view(*r))),
        Prop::Imply(l, r) => PropView::Imply(Box::new(prop_view(*l)), Box::new(prop_view(*r))),
        Prop::ProofBox(sp) => PropView::ProofBox(steps_view(sp.0@)),
    }
}

/// The model of a run of steps: step by step, in the same order.
pub open(crate) spec fn steps_view(s: Seq<(StepIndex, Step)>) -> Seq<(nat, StepView)>
    decreases s,
{
    Seq::new(
        s.len(),
        |i: int|
            if 0 <= i < s.len() {
                (s[i].0@, step_view(s[i].1))
            } else {
                arbitrary()
            },
    )
}

/// The model of a step.
pub open(crate) spec fn step_view(s: Step) -> StepView
    decreases s,
{
    StepView { prop: prop_view(s.0), step_type: step_type_view(s.1) }
}

/// The model of a step's justification.
pub open(crate) spec fn step_type_view(t: StepType) -> StepTypeView
    decreases t,
{
    match t {
        StepType::Rule(r) => StepTypeView::Rule(rule_view(r)),
        StepType::Copy(i) => StepTypeView::Copy(i@),
        StepType::Premise => StepTypeView::Premise,
        StepType::Assumption => StepTypeView::Assumption,
    }
}

impl View for Prop {
    type V = PropView;

    open spec fn view(&self) -> PropView {
        prop_view(*self)
    }
}

impl View for SubProof {
    type V = Seq<(nat, StepView)>;

    open(crate) spec fn view(&self) -> Seq<(nat, StepView)> {
        steps_view(self.0@)
    }
}

impl View for Step {
    type V = StepView;

    open spec fn view(&self) -> StepView {
        step_view(*self)
    }
}

impl View for StepType {
    type V = StepTypeView;

    open spec fn view(&self) -> StepTypeView {
        step_type_view(*self)
    }
}

pub(crate) fn prop_clone(p: &Prop) -> (r: Prop)
    ensures
        r@ == p@,
    decreases p,
{
    match p {
        Prop::Bottom => Prop::Bottom,
        Prop::Symbol(s) => Prop::Symbol(s.clone()),
        Prop::And(l, r) => Prop::And(Box::new(prop_clone(l)), Box::new(prop_clone(r))),
        Prop::Or(l, r) => Prop::Or(Box::new(prop_clone(l)), Box::new(prop_clone(r))),
        Prop::Imply(l, r) => Prop::Imply(Box::new(prop_clone(l)), Box::new(prop_clone(r))),
        Prop::ProofBox(sp) => {
            proof {
                use_type_invariant(sp);
            }
            Prop::ProofBox(SubProof(steps_clone(&sp.0)))
        },
    }
}

pub(crate) fn steps_clone(v: &Vec<(StepIndex, Step)>) -> (r: Vec<(StepIndex, Step)>)
    ensures
        steps_view(r@) == steps_view(v@),
        r.len() == v.len(),
    decreases v,
{
    let mut out: Vec<(StepIndex, Step)> = Vec::new();
    let mut i: usize = 0;
    while i < v.len()
        invariant
            i <= v.len(),
            out.len() == i,
            forall|k: int|
                0 <= k < i ==> out@[k].0 == v@[k].0 && step_view(out@[k].1) == step_view(v@[k].1),
        decreases v.len() - i,
    {
        let entry = &v[i];
        let step = step_clone(&entry.1);
        out.push((entry.0, step));
        i += 1;
    }
    assert(steps_view(out@) =~= steps_view(v@));
    out
}

pub(crate) fn step_clone(s: &Step) -> (r: Step)
    ensures
        r@ == s@,
    decreases s,
{
    Step(prop_clone(&s.0), step_type_clone(&s.1))
}

pub(crate) fn step_type_clone(t: &StepType) -> (r: StepType)
    ensures
        r@ == t@,
    decreases t,
{
    match t {
        StepType::Rule(rule) => StepType::Rule(rule_clone(rule)),
        StepType::Copy(i) => StepType::Copy(*i),
        StepType::Premise => StepType::Premise,
        StepType::Assumption => StepType::Assumption,
    }
}

pub(crate) fn prop_eq(p: &Prop, q: &Prop) -> (r: bool)
    ensures
        r == (p@ == q@),
    decreases p,
{
    match p {
        Prop::Bottom => match q {
            Prop::Bottom => true,
            _ => false,
        },
        Prop::Symbol(a) => match q {
            Prop::Symbol(b) => *a == *b,
            _ => false,
        },
        Prop::And(a, b) => match q {
            Prop::And(c, d) => prop_eq(a, c) && prop_eq(b, d),
            _ => false,
        },
        Prop::Or(a, b) => match q {
            Prop::Or(c, d) => prop_eq(a, c) && prop_eq(b, d),
            _ => false,
        },
        Prop::Imply(a, b) => match q {
            Prop::Imply(c, d) => prop_eq(a, c) && prop_eq(b, d),
            _ => false,
        },
        Prop::ProofBox(a) => match q {
            Prop::ProofBox(b) => steps_eq(&a.0, &b.0),
            _ => false,
        },
    }
}

pub(crate) fn steps_eq(a: &Vec<(StepIndex, Step)>, b: &Vec<(StepIndex, Step)>) -> (r: bool)
    ensures
        r == (steps_view(a@) == steps_view(b@)),
    decreases a,
{
    if a.len() != b.len() {
        assert(steps_view(a@).len() != steps_view(b@).len());
        return false;
    }
    let mut i: usize = 0;
    while i < a.len()
        invariant
            a.len() == b.len(),
            i <= a.len(),
            forall|k: int| 0 <= k < i ==> steps_view(a@)[k] == steps_view(b@)[k],
        decreases a.len() - i,
    {
        let x = &a[i];
        let y = &b[i];
        if x.0 != y.0 || !step_eq(&x.1, &y.1) {
            assert(steps_view(a@)[i as int] != steps_view(b@)[i as int]);
            return false;
        }
        i += 1;
    }
    assert(steps_view(a@) =~= steps_view(b@));
    true
}

pub(crate) fn step_eq(s: &Step, t: &Step) -> (r: bool)
    ensures
        r == (s@ == t@),
    decreases s,
{
    prop_eq(&s.0, &t.0) && step_type_eq(&s.1, &t.1)
}

pub(crate) fn step_type_eq(s: &StepType, t: &StepType) -> (r: bool)
    ensures
        r == (s@ == t@),
    decreases s,
{
    match (s, t) {
        (StepType::Rule(a), StepType::Rule(b)) => rule_eq(a, b),
        (StepType::Copy(i), StepType::Copy(j)) => i.0 == j.0,
        (StepType::Premise, StepType::Premise) => true,
        (StepType::Assumption, StepType::Assumption) => true,
        _ => false,
    }
}

impl Clone for Prop {
    fn clone(&self) -> (r: Self)
        ensures
            r@ == self@,
    {
        prop_clone(self)
    }
}

impl Clone for SubProof {
    fn clone(&self) -> (r: Self)
        ensures
            r@ == self@,
    {
        proof {
            use_type_invariant(self);
        }
        SubProof(steps_clone(&self.0))
    }
}

impl Clone for Step {
    fn clone(&self) -> (r: Self)
        ensures
            r@ == self@,
    {
        step_clone(self)
    }
}

impl Clone for StepType {
    fn clone(&self) -> (r: Self)
        ensures
            r@ == self@,
    {
        step_type_clone(self)
    }
}

impl PartialEq for Prop {
    fn eq(&self, other: &Self) -> (r: bool) {
        prop_eq(self, other)
    }
}

impl PartialEqSpecImpl for Prop {
    open spec fn obeys_eq_spec() -> bool {
        true
    }

    open spec fn eq_spec(&self, other: &Self) -> bool {
        self@ == other@
    }
}

impl Eq for Prop {

}

impl PartialEq for SubProof {
    fn eq(&self, other: &Self) -> (r: bool) {
        steps_eq(&self.0, &other.0)
    }
}

impl PartialEqSpecImpl for SubProof {
    open spec fn obeys_eq_spec() -> bool {
        true
    }

    open spec fn eq_spec(&self, other: &Self) -> bool {
        self@ == other@
    }
}

impl Eq for SubProof {

}

impl PartialEq for Step {
    fn eq(&self, other: &Self) -> (r: bool) {
        step_eq(self, other)
    }
}

impl PartialEqSpecImpl for Step {
    open spec fn obeys_eq_spec() -> bool {
        true
    }

    open spec fn eq_spec(&self, other: &Self) -> bool {
        self@ == other@
    }
}

impl Eq for Step {

}

impl PartialEq for StepType {
    fn eq(&self, other: &Self) -> (r: bool) {
        step_type_eq(self, other)
    }
}

impl PartialEqSpecImpl for StepType {
    open spec fn obeys_eq_spec() -> bool {
        true
    }

    open spec fn eq_spec(&self, other: &Self) -> bool {
        self@ == other@
    }
}

impl Eq for StepType {

}

impl Prop {
    /// `¬prop`, written out as `prop → ⊥`.
    pub fn negated(prop: Self) -> (r: Self)
        ensures
            r@ == prop@.negated(),
    {
        assert(Prop::Bottom@ == PropView::Bottom);
        Prop::Imply(Box::new(prop), Box::new(Prop::Bottom))
    }
}

impl SubProof {
    #[verifier::type_invariant]
    pub(crate) open spec fn inv(self) -> bool {
        self.0.len() > 0
    }

    pub(crate) fn new(steps: Vec<(StepIndex, Step)>) -> (r: Self)
        requires
            steps.len() > 0,
        ensures
            r@ == steps_view(steps@),
    {
        SubProof(steps)
    }

    /// The steps of the box, in the order in which they were added. There is
    /// at least one.
    pub fn steps(&self) -> (r: &Vec<(StepIndex, Step)>)
        ensures
            steps_view(r@) == self@,
            r.len() > 0,
    {
        proof {
            use_type_invariant(self);
        }
        &self.0
    }

    /// The proposition that opened the scope.
    pub fn assumption(&self) -> (r: &Prop)
        ensures
            self@.len() > 0,
            r@ == box_assumption(self@),
    {
        proof {
            use_type_invariant(self);
        }
        self.0[0].1.prop()
    }

    /// The proposition that the scope ended with.
    pub fn derived_prop(&self) -> (r: &Prop)
        ensures
            self@.len() > 0,
            r@ == box_derived(self@),
    {
        proof {
            use_type_invariant(self);
        }
        self.0[self.0.len() - 1].1.prop()
    }

    /// The index of the assumption, under which the box stands in its parent.
    pub fn starting_index(&self) -> (r: StepIndex)
        ensures
            self@.len() > 0,
            r@ == self@.first().0,
    {
        proof {
            use_type_invariant(self);
        }
        self.0[0].0
    }
}

impl Step {
    /// A step with the given proposition and justification.
    pub fn new(prop: Prop, step_type: StepType) -> (r: Self)
        ensures
            r@ == (StepView { prop: prop@, step_type: step_type@ }),
    {
        Self(prop, step_type)
    }

    /// The step's proposition, by value.
    pub fn prop_owned(self) -> (r: Prop)
        ensures
            r@ == self@.prop,
    {
        self.0
    }

    /// The step's proposition.
    pub fn prop(&self) -> (r: &Prop)
        ensures
            r@ == self@.prop,
    {
        &self.0
    }

    /// The step's justification, by value.
    pub fn step_type_owned(self) -> (r: StepType)
        ensures
            r@ == self@.step_type,
    {
        self.1
    }

    /// The step's justification.
    pub fn step_type(&self) -> (r: &StepType)
        ensures
            r@ == self@.step_type,
    {
        &self.1
    }
}

impl<'a> From<&'a Prop> for PropVariant {
    fn from(prop: &'a Prop) -> (r: Self) {
        match prop {
            Prop::Bottom => PropVariant::Bottom,
            Prop::Symbol(..) => PropVariant::Symbol,
            Prop::And(..) => PropVariant::And,
            Prop::Or(..) => PropVariant::Or,
            Prop::Imply(..) => PropVariant::Imply,
            Prop::ProofBox(..) => PropVariant::ProofBox,
        }
    }
}

impl<'a> FromSpecImpl<&'a Prop> for PropVariant {
    open spec fn obeys_from_spec() -> bool {
        true
    }

    open spec fn from_spec(prop: &'a Prop) -> PropVariant {
        prop@.variant()
    }
}

} // verus!
