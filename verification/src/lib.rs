//! A proof assistant for natural deduction in propositional logic.
//!
//! A proof is built step by step from premises, assumptions, copies and
//! applications of inference rules. Assumptions open scopes, and a closed
//! scope stands in the scope around it as a single proof box. After every
//! step the engine has checked that the step is valid.
//!
//! - [`prop`], [`rules`] and [`error`] hold the data types and their models.
//! - [`model`] defines every operation on the model of a proof, and [`laws`]
//!   states what follows from the definitions.
//! - [`inference`] defines what each rule concludes.
//! - [`engine`] is the proof engine, and [`evaluator`] the same engine for
//!   callers that deal in propositions alone.
//! - [`syntax`] reads commands, and [`text`], [`pretty`] and [`latex`] write
//!   propositions and proofs out.

pub mod engine;
pub mod error;
pub mod evaluator;
pub mod farewell;
pub mod inference;
pub mod latex;
pub mod laws;
pub mod model;
pub mod pretty;
pub mod prop;
pub mod rules;
pub mod syntax;
pub mod text;

pub use engine::Proof;
pub use error::{Error, ErrorView};
pub use evaluator::Context;
pub use farewell::goodbye;
pub use latex::latex;
pub use model::ProofView;
pub use pretty::render_proof;
pub use prop::{Prop, PropVariant, PropView, Step, StepIndex, StepType, StepTypeView, StepView, SubProof};
pub use rules::{Rule, RuleName, RuleView};
pub use syntax::{parse_command, parse_prop, tokenize, Command, CommandView, SyntaxError, Token, TokenView};
