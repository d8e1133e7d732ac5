//! What each inference rule concludes from the propositions it is applied to.
//!
//! Each rule is stated twice: as a spec function on models, which is its
//! definition, and as an executable function on propositions that is proved
//! to compute it. A rule either yields its conclusion or says which of its
//! side conditions failed first.

use vstd::prelude::*;
use crate::error::{Error, ErrorView};
use crate::prop::{Prop, PropVariant, PropView, box_assumption, box_derived, prop_clone, prop_eq};

verus! {

/// Whether an executable outcome is the one that the model prescribes.
pub open spec fn outcome_is(r: Result<Prop, Error>, expected: Result<PropView, ErrorView>) -> bool {
    match expected {
        Ok(p) => r matches Ok(q) && q@ == p,
        Err(e) => r matches Err(f) && f@ == e,
    }
}

/// The error for two propositions that should have been equal.
pub open spec fn mismatch(expected: PropView, got: PropView) -> ErrorView {
    ErrorView::PropMismatch { expected, got }
}

/// The error for a proposition that does not have the shape that was asked
/// for.
pub open spec fn wrong_shape(expected: PropVariant, got: PropView) -> ErrorView {
    ErrorView::ExpectedPropVariant { expected, got }
}

/// `φ ∧ ψ` from `φ` and `ψ`.
pub open spec fn spec_and_i(lhs: PropView, rhs: PropView) -> PropView {
    PropView::And(Box::new(lhs), Box::new(rhs))
}

/// `φ` from `φ ∧ ψ`.
pub open spec fn spec_and_e_lhs(p: PropView) -> Result<PropView, ErrorView> {
    match p {
        PropView::And(lhs, _) => Ok(*lhs),
        _ => Err(wrong_shape(PropVariant::And, p)),
    }
}

/// `ψ` from `φ ∧ ψ`.
pub open spec fn spec_and_e_rhs(p: PropView) -> Result<PropView, ErrorView> {
    match p {
        PropView::And(_, rhs) => Ok(*rhs),
        _ => Err(wrong_shape(PropVariant::And, p)),
    }
}

/// `φ ∨ ψ` from either side.
pub open spec fn spec_or_i(lhs: PropView, rhs: PropView) -> PropView {
    PropView::Or(Box::new(lhs), Box::new(rhs))
}

/// `χ` from `φ ∨ ψ`, a box that assumes `φ` and derives `χ`, and a box that
/// assumes `ψ` and derives `χ`.
pub open spec fn spec_or_e(or_prop: PropView, lhs_box: PropView, rhs_box: PropView) -> Result<
    PropView,
    ErrorView,
> {
    match or_prop {
        PropView::Or(or_lhs, or_rhs) => match lhs_box {
            PropView::ProofBox(lhs_steps) => match rhs_box {
                PropView::ProofBox(rhs_steps) => {
                    if *or_lhs != box_assumption(lhs_steps) {
                        Err(mismatch(*or_lhs, box_assumption(lhs_steps)))
                    } else if *or_rhs != box_assumption(rhs_steps) {
                        Err(mismatch(*or_rhs, box_assumption(rhs_steps)))
                    } else if box_derived(lhs_steps) != box_derived(rhs_steps) {
                        Err(mismatch(box_derived(lhs_steps), box_derived(rhs_steps)))
                    } else {
                        Ok(box_derived(lhs_steps))
                    }
                },
                _ => Err(wrong_shape(PropVariant::ProofBox, rhs_box)),
            },
            _ => Err(wrong_shape(PropVariant::ProofBox, lhs_box)),
        },
        _ => Err(wrong_shape(PropVariant::Or, or_prop)),
    }
}

/// `¬φ` from a box that assumes `φ` and derives `⊥`.
pub open spec fn spec_neg_i(proof_box: PropView) -> Result<PropView, ErrorView> {
    match proof_box {
        PropView::ProofBox(steps) => {
            if box_derived(steps) != PropView::Bottom {
                Err(mismatch(box_derived(steps), PropView::Bottom))
            } else {
                Ok(box_assumption(steps).negated())
            }
        },
        _ => Err(wrong_shape(PropVariant::ProofBox, proof_box)),
    }
}

/// `⊥` from `φ` and `¬φ`.
pub open spec fn spec_neg_e(prop: PropView, neg_prop: PropView) -> Result<PropView, ErrorView> {
    match neg_prop {
        PropView::Imply(lhs, rhs) => {
            if *lhs != prop {
                Err(mismatch(*lhs, prop))
            } else if *rhs != PropView::Bottom {
                Err(mismatch(*rhs, PropView::Bottom))
            } else {
                Ok(PropView::Bottom)
            }
        },
        _ => Err(wrong_shape(PropVariant::Imply, neg_prop)),
    }
}

/// `φ → ψ` from a box that assumes `φ` and derives `ψ`.
pub open spec fn spec_imply_i(proof_box: PropView) -> Result<PropView, ErrorView> {
    match proof_box {
        PropView::ProofBox(steps) => Ok(
            PropView::Imply(Box::new(box_assumption(steps)), Box::new(box_derived(steps))),
        ),
        _ => Err(wrong_shape(PropVariant::ProofBox, proof_box)),
    }
}

/// `ψ` from `φ → ψ` and `φ`.
pub open spec fn spec_imply_e(implication: PropView, lhs_proof: PropView) -> Result<
    PropView,
    ErrorView,
> {
    match implication {
        PropView::Imply(lhs, rhs) => {
            if *lhs != lhs_proof {
                Err(mismatch(*lhs, lhs_proof))
            } else {
                Ok(*rhs)
            }
        },
        _ => Err(wrong_shape(PropVariant::Imply, implication)),
    }
}

/// Any given `φ` from `⊥`.
pub open spec fn spec_bottom_e(bottom: PropView, prop: PropView) -> Result<PropView, ErrorView> {
    if bottom != PropView::Bottom {
        Err(mismatch(bottom, PropView::Bottom))
    } else {
        Ok(prop)
    }
}

/// `φ` from `¬¬φ`.
pub open spec fn spec_double_neg_e(p: PropView) -> Result<PropView, ErrorView> {
    match p {
        PropView::Imply(inner, bottom) => {
            if *bottom != PropView::Bottom {
                Err(mismatch(*bottom, PropView::Bottom))
            } else {
                match *inner {
                    PropView::Imply(prop, bottom2) => {
                        if *bottom2 != PropView::Bottom {
                            Err(mismatch(*bottom2, PropView::Bottom))
                        } else {
                            Ok(*prop)
                        }
                    },
                    _ => Err(wrong_shape(PropVariant::Imply, *inner)),
                }
            }
        },
        _ => Err(wrong_shape(PropVariant::Imply, p)),
    }
}

/// `¬φ` from `φ → ψ` and `¬ψ`.
pub open spec fn spec_modus_tollens(implication: PropView, negated_rhs: PropView) -> Result<
    PropView,
    ErrorView,
> {
    match implication {
        PropView::Imply(lhs, rhs) => {
            if negated_rhs != rhs.negated() {
                Err(mismatch(negated_rhs, rhs.negated()))
            } else {
                Ok(lhs.negated())
            }
        },
        _ => Err(wrong_shape(PropVariant::Imply, implication)),
    }
}

/// `¬¬φ` from `φ`.
pub open spec fn spec_double_neg_i(p: PropView) -> PropView {
    p.negated().negated()
}

/// `φ` from a box that assumes `¬φ` and derives `⊥`.
pub open spec fn spec_proof_by_contradiction(proof_box: PropView) -> Result<PropView, ErrorView> {
    match proof_box {
        PropView::ProofBox(steps) => match box_assumption(steps) {
            PropView::Imply(lhs, rhs) => {
                if *rhs != PropView::Bottom {
                    Err(mismatch(*rhs, PropView::Bottom))
                } else if box_derived(steps) != PropView::Bottom {
                    Err(mismatch(box_derived(steps), PropView::Bottom))
                } else {
                    Ok(*lhs)
                }
            },
            _ => Err(wrong_shape(PropVariant::Imply, box_assumption(steps))),
        },
        _ => Err(wrong_shape(PropVariant::ProofBox, proof_box)),
    }
}

/// `φ ∨ ¬φ`, for any given `φ`.
pub open spec fn spec_law_of_excluded_middle(p: PropView) -> PropView {
    PropView::Or(Box::new(p), Box::new(p.negated()))
}

/// Demands that `p` and `q` are structurally equal. The error names `p` as
/// what was expected and `q` as what was found.
pub(crate) fn check_eq(p: &Prop, q: &Prop) -> (r: Result<(), Error>)
    ensures
        p@ == q@ ==> r is Ok,
        p@ != q@ ==> (r matches Err(e) && e@ == mismatch(p@, q@)),
{
    if !prop_eq(p, q) {
        return Err(Error::PropMismatch { expected: prop_clone(p), got: prop_clone(q) });
    }
    Ok(())
}

fn shape_error(expected: PropVariant, got: &Prop) -> (e: Error)
    ensures
        e@ == wrong_shape(expected, got@),
{
    Error::ExpectedPropVariant { expected, got: prop_clone(got) }
}

fn bottom() -> (r: Prop)
    ensures
        r@ == PropView::Bottom,
{
    Prop::Bottom
}

pub(crate) fn and_i(lhs: &Prop, rhs: &Prop) -> (r: Prop)
    ensures
        r@ == spec_and_i(lhs@, rhs@),
{
    Prop::And(Box::new(prop_clone(lhs)), Box::new(prop_clone(rhs)))
}

pub(crate) fn and_e_lhs(p: &Prop) -> (r: Result<Prop, Error>)
    ensures
        outcome_is(r, spec_and_e_lhs(p@)),
{
    match p {
        Prop::And(lhs, _) => Ok(prop_clone(lhs)),
        _ => Err(shape_error(PropVariant::And, p)),
    }
}

pub(crate) fn and_e_rhs(p: &Prop) -> (r: Result<Prop, Error>)
    ensures
        outcome_is(r, spec_and_e_rhs(p@)),
{
    match p {
        Prop::And(_, rhs) => Ok(prop_clone(rhs)),
        _ => Err(shape_error(PropVariant::And, p)),
    }
}

pub(crate) fn or_i(lhs: &Prop, rhs: &Prop) -> (r: Prop)
    ensures
        r@ == spec_or_i(lhs@, rhs@),
{
    Prop::Or(Box::new(prop_clone(lhs)), Box::new(prop_clone(rhs)))
}

pub(crate) fn or_e(or_prop: &Prop, lhs_box: &Prop, rhs_box: &Prop) -> (r: Result<Prop, Error>)
    ensures
        outcome_is(r, spec_or_e(or_prop@, lhs_box@, rhs_box@)),
{
    let Prop::Or(or_lhs, or_rhs) = or_prop else {
        return Err(shape_error(PropVariant::Or, or_prop));
    };
    let Prop::ProofBox(lhs_subproof) = lhs_box else {
        return Err(shape_error(PropVariant::ProofBox, lhs_box));
    };
    let Prop::ProofBox(rhs_subproof) = rhs_box else {
        return Err(shape_error(PropVariant::ProofBox, rhs_box));
    };
    match check_eq(or_lhs, lhs_subproof.assumption()) {
        Err(e) => return Err(e),
        Ok(()) => {},
    }
    match check_eq(or_rhs, rhs_subproof.assumption()) {
        Err(e) => return Err(e),
        Ok(()) => {},
    }
    match check_eq(lhs_subproof.derived_prop(), rhs_subproof.derived_prop()) {
        Err(e) => return Err(e),
        Ok(()) => {},
    }
    Ok(prop_clone(lhs_subproof.derived_prop()))
}

pub(crate) fn neg_i(proof_box: &Prop) -> (r: Result<Prop, Error>)
    ensures
        outcome_is(r, spec_neg_i(proof_box@)),
{
    let Prop::ProofBox(subproof) = proof_box else {
        return Err(shape_error(PropVariant::ProofBox, proof_box));
    };
    let absurd = bottom();
    match check_eq(subproof.derived_prop(), &absurd) {
        Err(e) => return Err(e),
        Ok(()) => {},
    }
    Ok(Prop::negated(prop_clone(subproof.assumption())))
}

pub(crate) fn neg_e(prop: &Prop, neg_prop: &Prop) -> (r: Result<Prop, Error>)
    ensures
        outcome_is(r, spec_neg_e(prop@, neg_prop@)),
{
    let Prop::Imply(lhs, rhs) = neg_prop else {
        return Err(shape_error(PropVariant::Imply, neg_prop));
    };
    let absurd = bottom();
    match check_eq(lhs, prop) {
        Err(e) => return Err(e),
        Ok(()) => {},
    }
    match check_eq(rhs, &absurd) {
        Err(e) => return Err(e),
        Ok(()) => {},
    }
    Ok(absurd)
}

pub(crate) fn imply_i(proof_box: &Prop) -> (r: Result<Prop, Error>)
    ensures
        outcome_is(r, spec_imply_i(proof_box@)),
{
    let Prop::ProofBox(subproof) = proof_box else {
        return Err(shape_error(PropVariant::ProofBox, proof_box));
    };
    Ok(
        Prop::Imply(
            Box::new(prop_clone(subproof.assumption())),
            Box::new(prop_clone(subproof.derived_prop())),
        ),
    )
}

pub(crate) fn imply_e(implication: &Prop, lhs_proof: &Prop) -> (r: Result<Prop, Error>)
    ensures
        outcome_is(r, spec_imply_e(implication@, lhs_proof@)),
{
    let Prop::Imply(lhs, rhs) = implication else {
        return Err(shape_error(PropVariant::Imply, implication));
    };
    match check_eq(lhs, lhs_proof) {
        Err(e) => return Err(e),
        Ok(()) => {},
    }
    Ok(prop_clone(rhs))
}

pub(crate) fn bottom_e(bottom_prop: &Prop, prop: &Prop) -> (r: Result<Prop, Error>)
    ensures
        outcome_is(r, spec_bottom_e(bottom_prop@, prop@)),
{
    let absurd = bottom();
    match check_eq(bottom_prop, &absurd) {
        Err(e) => return Err(e),
        Ok(()) => {},
    }
    Ok(prop_clone(prop))
}

pub(crate) fn double_neg_e(double_negated_prop: &Prop) -> (r: Result<Prop, Error>)
    ensures
        outcome_is(r, spec_double_neg_e(double_negated_prop@)),
{
    let Prop::Imply(prop_bottom, bottom1) = double_negated_prop else {
        return Err(shape_error(PropVariant::Imply, double_negated_prop));
    };
    let absurd = bottom();
    match check_eq(bottom1, &absurd) {
        Err(e) => return Err(e),
        Ok(()) => {},
    }
    let Prop::Imply(prop, bottom2) = &**prop_bottom else {
        return Err(shape_error(PropVariant::Imply, prop_bottom));
    };
    assert(prop_bottom@ == PropView::Imply(Box::new(prop@), Box::new(bottom2@)));
    match check_eq(bottom2, &absurd) {
        Err(e) => return Err(e),
        Ok(()) => {},
    }
    Ok(prop_clone(prop))
}

pub(crate) fn modus_tollens(implication: &Prop, negated_rhs: &Prop) -> (r: Result<Prop, Error>)
    ensures
        outcome_is(r, spec_modus_tollens(implication@, negated_rhs@)),
{
    let Prop::Imply(lhs, rhs) = implication else {
        return Err(shape_error(PropVariant::Imply, implication));
    };
    let expected_negation = Prop::negated(prop_clone(rhs));
    match check_eq(negated_rhs, &expected_negation) {
        Err(e) => return Err(e),
        Ok(()) => {},
    }
    Ok(Prop::negated(prop_clone(lhs)))
}

pub(crate) fn double_neg_i(prop: &Prop) -> (r: Prop)
    ensures
        r@ == spec_double_neg_i(prop@),
{
    Prop::negated(Prop::negated(prop_clone(prop)))
}

pub(crate) fn proof_by_contradiction(proof_box: &Prop) -> (r: Result<Prop, Error>)
    ensures
        outcome_is(r, spec_proof_by_contradiction(proof_box@)),
{
    let Prop::ProofBox(subproof) = proof_box else {
        return Err(shape_error(PropVariant::ProofBox, proof_box));
    };
    let Prop::Imply(lhs, rhs) = subproof.assumption() else {
        return Err(shape_error(PropVariant::Imply, subproof.assumption()));
    };
    let absurd = bottom();
    match check_eq(rhs, &absurd) {
        Err(e) => return Err(e),
        Ok(()) => {},
    }
    match check_eq(subproof.derived_prop(), &absurd) {
        Err(e) => return Err(e),
        Ok(()) => {},
    }
    Ok(prop_clone(lhs))
}

pub(crate) fn law_of_excluded_middle(prop: &Prop) -> (r: Prop)
    ensures
        r@ == spec_law_of_excluded_middle(prop@),
{
    let neg_prop = Prop::negated(prop_clone(prop));
    Prop::Or(Box::new(prop_clone(prop)), Box::new(neg_prop))
}

} // verus!
