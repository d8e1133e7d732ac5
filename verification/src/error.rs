//! What a proof operation can be refused for.

use vstd::prelude::*;
use crate::prop::{Prop, PropVariant, PropView, StepIndex};

verus! {

/// The reason why an operation on a proof was refused. A refused operation
/// leaves the proof as it was.
#[derive(Debug)]
#[allow(inconsistent_fields)]
pub enum Error {
    /// Two propositions that a rule needs to be structurally equal are not.
    PropMismatch { expected: Prop, got: Prop },
    /// No scope that is open at this point holds a step with this index.
    InvalidStepIndex { index: StepIndex },
    /// A proposition does not have the top-level shape that a rule needs.
    ExpectedPropVariant { expected: PropVariant, got: Prop },
    /// Only the outermost scope is left, and it cannot be closed.
    CannotCloseGlobalScope,
}

/// The model of an [`Error`].
#[allow(inconsistent_fields)]
pub ghost enum ErrorView {
    PropMismatch { expected: PropView, got: PropView },
    InvalidStepIndex { index: nat },
    ExpectedPropVariant { expected: PropVariant, got: PropView },
    CannotCloseGlobalScope,
}

impl View for Error {
    type V = ErrorView;

    open spec fn view(&self) -> ErrorView {
        match *self {
            Error::PropMismatch { expected, got } => ErrorView::PropMismatch {
                expected: expected@,
                got: got@,
            },
            Error::InvalidStepIndex { index } => ErrorView::InvalidStepIndex { index: index@ },
            Error::ExpectedPropVariant { expected, got } => ErrorView::ExpectedPropVariant {
                expected,
                got: got@,
            },
            Error::CannotCloseGlobalScope => ErrorView::CannotCloseGlobalScope,
        }
    }
}

} // verus!
