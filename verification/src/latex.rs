//! Typesetting of a finished proof for the LaTeX package `logicproof`.
//!
//! The markup is defined as a spec function of the model; [`latex`] is
//! proved to produce exactly that text.

use vstd::prelude::*;
use vstd::string::*;
use crate::engine::Proof;
use crate::prop::{Prop, PropView, Step, StepIndex, StepType, StepTypeView, StepView, steps_view};
use crate::rules::{Rule, RuleView};
use crate::text::{decimal_string, decimal_text, prop_string, prop_text};

verus! {

/// A proposition in LaTeX math notation. A box has no formula of its own.
pub open spec fn latex_prop_text(p: PropView) -> Seq<char>
    decreases p,
{
    match p {
        PropView::Bottom => "\\bot"@,
        PropView::Symbol(name) => "\\text{"@ + name + "}"@,
        PropView::And(phi, psi) => latex_prop_text(*phi) + " \\land "@ + latex_prop_text(*psi),
        PropView::Or(phi, psi) => latex_prop_text(*phi) + " \\lor "@ + latex_prop_text(*psi),
        PropView::Imply(phi, psi) => latex_prop_text(*phi) + " \\to "@ + latex_prop_text(*psi),
        PropView::ProofBox(_) => "sub-proof"@,
    }
}

/// The justification column for a rule application.
pub open spec fn latex_rule_text(rule: RuleView) -> Seq<char> {
    match rule {
        RuleView::AndI(i, j) => "$\\land_{I}$ "@ + decimal_text(i) + ", "@ + decimal_text(j),
        RuleView::AndELhs(i) => "$\\land_{E_{LHS}}$ "@ + decimal_text(i),
        RuleView::AndERhs(i) => "$\\land_{E_{RHS}}$ "@ + decimal_text(i),
        RuleView::OrILhs(i, prop) => "$\\lor_{I_{LHS}}$ "@ + decimal_text(i) + ", "@
            + latex_prop_text(prop),
        RuleView::OrIRhs(prop, j) => "$\\lor_{I_{RHS}}$ "@ + latex_prop_text(prop) + ", "@
            + decimal_text(j),
        RuleView::OrE { or_prop, lhs_box, rhs_box } => "$\\lor_E$ "@ + decimal_text(or_prop)
            + ", "@ + decimal_text(lhs_box) + ", "@ + decimal_text(rhs_box),
        RuleView::NegI(i) => "$\\neg_I$ "@ + decimal_text(i),
        RuleView::NegE { prop, neg_prop } => "$\\neg_E$ "@ + decimal_text(prop) + " "@
            + decimal_text(neg_prop),
        RuleView::ImplyI(i) => "$\\to_I$ "@ + decimal_text(i),
        RuleView::ImplyE { implication, lhs_proof } => "$\\to_E$ "@ + decimal_text(implication)
            + ", "@ + decimal_text(lhs_proof),
        RuleView::BottomE(i, prop) => "$\\bot_E$ "@ + decimal_text(i) + ", "@ + latex_prop_text(
            prop,
        ),
        RuleView::DoubleNegE(i) => "$\\neg\\neg_E$ "@ + decimal_text(i),
        RuleView::ModusTollens { implication, negated_rhs } => "MT "@ + decimal_text(implication)
            + " "@ + decimal_text(negated_rhs),
        RuleView::DoubleNegI(i) => "$\\neg\\neg_I$ "@ + decimal_text(i),
        RuleView::ProofByContradiction(i) => "PBC "@ + decimal_text(i),
        RuleView::LawOfExcludedMiddle(prop) => "LEM "@ + prop_text(prop),
    }
}

/// The justification column of a step.
pub open spec fn latex_step_type_text(t: StepTypeView) -> Seq<char> {
    match t {
        StepTypeView::Rule(rule) => latex_rule_text(rule),
        StepTypeView::Copy(i) => "copy "@ + decimal_text(i),
        StepTypeView::Premise => "premise"@,
        StepTypeView::Assumption => "assumption"@,
    }
}

/// How deep boxes are nested in these steps: 0 where none of them is a box.
pub open spec fn nesting_depth(steps: Seq<(nat, StepView)>) -> nat
    decreases steps, steps.len() + 1,
{
    nesting_depth_upto(steps, steps.len())
}

/// The nesting depth of the first `n` steps.
pub open spec fn nesting_depth_upto(steps: Seq<(nat, StepView)>, n: nat) -> nat
    decreases steps, n,
{
    if n == 0 || n > steps.len() {
        0
    } else {
        let before = nesting_depth_upto(steps, (n - 1) as nat);
        let here = match steps[n - 1].1.prop {
            PropView::ProofBox(inner) => 1 + nesting_depth(inner),
            _ => 0,
        };
        if here > before {
            here
        } else {
            before
        }
    }
}

/// The markup of a run of steps: inside a box where `nested` holds.
pub open spec fn latex_block(steps: Seq<(nat, StepView)>, nested: bool) -> Seq<char>
    decreases steps, steps.len() + 1,
{
    (if nested {
        "\\begin{subproof}\n"@
    } else {
        Seq::<char>::empty()
    }) + latex_lines(steps, steps.len()) + (if nested {
        "\\end{subproof}\n"@
    } else {
        Seq::<char>::empty()
    })
}

/// The markup of the first `n` steps. A box becomes a nested block; any other
/// step becomes one line, which ends in a line break unless the step is the
/// last of its run.
pub open spec fn latex_lines(steps: Seq<(nat, StepView)>, n: nat) -> Seq<char>
    decreases steps, n,
{
    if n == 0 || n > steps.len() {
        Seq::<char>::empty()
    } else {
        let step = steps[n - 1].1;
        latex_lines(steps, (n - 1) as nat) + (match step.prop {
            PropView::ProofBox(inner) => latex_block(inner, true),
            _ => latex_prop_text(step.prop) + " & "@ + latex_step_type_text(step.step_type) + (if n
                == steps.len() {
                Seq::<char>::empty()
            } else {
                " \\\\"@
            }) + "\n"@,
        })
    }
}

/// The whole document fragment for a proof whose steps are `steps`.
pub open spec fn latex_text(steps: Seq<(nat, StepView)>) -> Seq<char> {
    "\\begin{logicproof}{"@ + decimal_text(nesting_depth(steps)) + "}\n"@ + latex_block(steps, false)
        + "\\end{logicproof}\n"@
}

/// What [`latex`] returns for a proof: nothing while a scope is open, and
/// nothing where the nesting depth does not fit the machine's integers.
pub open spec fn latex_outcome(scopes: Seq<Seq<(nat, StepView)>>) -> Option<Seq<char>> {
    if scopes.len() != 1 || nesting_depth(scopes[0]) > usize::MAX {
        None
    } else {
        Some(latex_text(scopes[0]))
    }
}

/// Typesets a proof. The steps of the outermost scope appear in the order of
/// their indices, which is the order in which they were added. A proof with
/// an open scope cannot be typeset.
pub fn latex(proof: &Proof) -> (r: Option<String>)
    requires
        proof.wf(),
    ensures
        match latex_outcome(proof@.scopes) {
            Some(text) => r matches Some(s) && s@ == text,
            None => r is None,
        },
{
    if proof.context.len() > 1 {
        return None;
    }
    let steps = &proof.context[0].steps;
    let depth = match max_depth(steps) {
        Some(depth) => depth,
        None => {
            return None;
        },
    };
    let mut result = String::from_str("\\begin{logicproof}{");
    let digits = decimal_string(depth);
    result.append(digits.as_str());
    result.append("}\n");
    let ghost head = result@;
    steps_to_string(&mut result, steps, false);
    result.append("\\end{logicproof}\n");
    proof {
        let view = steps_view(steps@);
        assert(proof@.scopes[0] == view);
        assert(head =~= "\\begin{logicproof}{"@ + decimal_text(nesting_depth(view)) + "}\n"@);
        assert(result@ =~= latex_text(view));
    }
    Some(result)
}

fn steps_to_string(s: &mut String, steps: &Vec<(StepIndex, Step)>, nested: bool)
    ensures
        final(s)@ == old(s)@ + latex_block(steps_view(steps@), nested),
    decreases steps,
{
    let ghost view = steps_view(steps@);
    let ghost before = s@;
    if nested {
        s.append("\\begin{subproof}\n");
    }
    let ghost opened = s@;
    let mut i: usize = 0;
    while i < steps.len()
        invariant
            i <= steps.len(),
            view == steps_view(steps@),
            s@ == opened + latex_lines(view, i as nat),
        decreases steps.len() - i,
    {
        let step = &steps[i].1;
        let ghost so_far = s@;
        match &step.0 {
            Prop::ProofBox(subproof) => {
                steps_to_string(s, &subproof.0, true);
            },
            _ => {
                let prop = latex_prop(&step.0);
                let step_type = latex_step_type(&step.1);
                s.append(prop.as_str());
                s.append(" & ");
                s.append(step_type.as_str());
                if i != steps.len() - 1 {
                    s.append(" \\\\");
                }
                s.append("\n");
            },
        }
        proof {
            assert(view[i as int].1 == step@);
            let line = match step@.prop {
                PropView::ProofBox(inner) => latex_block(inner, true),
                _ => latex_prop_text(step@.prop) + " & "@ + latex_step_type_text(step@.step_type) + (
                if i + 1 == steps.len() {
                    Seq::<char>::empty()
                } else {
                    " \\\\"@
                }) + "\n"@,
            };
            assert(s@ =~= so_far + line);
            assert(latex_lines(view, (i + 1) as nat) == latex_lines(view, i as nat) + line);
            assert(s@ =~= opened + latex_lines(view, (i + 1) as nat));
        }
        i += 1;
    }
    if nested {
        s.append("\\end{subproof}\n");
    }
    assert(s@ =~= before + latex_block(view, nested));
}

pub(crate) fn max_depth(steps: &Vec<(StepIndex, Step)>) -> (r: Option<usize>)
    ensures
        match r {
            Some(depth) => depth == nesting_depth(steps_view(steps@)),
            None => nesting_depth(steps_view(steps@)) > usize::MAX,
        },
    decreases steps,
{
    let ghost view = steps_view(steps@);
    let mut deepest: usize = 0;
    let mut i: usize = 0;
    while i < steps.len()
        invariant
            i <= steps.len(),
            view == steps_view(steps@),
            deepest == nesting_depth_upto(view, i as nat),
        decreases steps.len() - i,
    {
        let step = &steps[i].1;
        assert(view[i as int].1 == step@);
        let here: usize = match &step.0 {
            Prop::ProofBox(subproof) => {
                match max_depth(&subproof.0) {
                    Some(inner) => {
                        if inner == usize::MAX {
                            proof {
                                lemma_depth_grows(view, (i + 1) as nat, view.len());
                            }
                            return None;
                        }
                        inner + 1
                    },
                    None => {
                        proof {
                            lemma_depth_grows(view, (i + 1) as nat, view.len());
                        }
                        return None;
                    },
                }
            },
            _ => 0,
        };
        if here > deepest {
            deepest = here;
        }
        i += 1;
    }
    Some(deepest)
}

/// The nesting depth of a longer run of steps is not smaller.
pub proof fn lemma_depth_grows(steps: Seq<(nat, StepView)>, n: nat, m: nat)
    requires
        n <= m <= steps.len(),
    ensures
        nesting_depth_upto(steps, n) <= nesting_depth_upto(steps, m),
    decreases m,
{
    if n < m {
        lemma_depth_grows(steps, n, (m - 1) as nat);
    }
}

fn latex_prop(prop: &Prop) -> (r: String)
    ensures
        r@ == latex_prop_text(prop@),
    decreases prop,
{
    match prop {
        Prop::Bottom => String::from_str("\\bot"),
        Prop::Symbol(symbol) => {
            let mut out = String::from_str("\\text{");
            out.append(symbol.as_str());
            out.append("}");
            out
        },
        Prop::And(phi, psi) => latex_binary(latex_prop(phi), " \\land ", latex_prop(psi)),
        Prop::Or(phi, psi) => latex_binary(latex_prop(phi), " \\lor ", latex_prop(psi)),
        Prop::Imply(phi, psi) => latex_binary(latex_prop(phi), " \\to ", latex_prop(psi)),
        Prop::ProofBox(_) => String::from_str("sub-proof"),
    }
}

fn latex_binary(phi: String, op: &str, psi: String) -> (r: String)
    ensures
        r@ == phi@ + op@ + psi@,
{
    let mut out = phi;
    out.append(op);
    out.append(psi.as_str());
    out
}

fn latex_step_type(step_type: &StepType) -> (r: String)
    ensures
        r@ == latex_step_type_text(step_type@),
{
    match step_type {
        StepType::Rule(rule) => latex_rule(rule),
        StepType::Copy(i) => {
            let mut out = String::from_str("copy ");
            out.append(decimal_string(i.0).as_str());
            out
        },
        StepType::Premise => String::from_str("premise"),
        StepType::Assumption => String::from_str("assumption"),
    }
}

fn with_index(head: &str, i: StepIndex) -> (r: String)
    ensures
        r@ == head@ + decimal_text(i@),
{
    let mut out = String::from_str(head);
    out.append(decimal_string(i.0).as_str());
    out
}

fn with_text(head: &str, text: String) -> (r: String)
    ensures
        r@ == head@ + text@,
{
    let mut out = String::from_str(head);
    out.append(text.as_str());
    out
}

fn then_index(out: String, sep: &str, i: StepIndex) -> (r: String)
    ensures
        r@ == out@ + sep@ + decimal_text(i@),
{
    let mut out = out;
    out.append(sep);
    out.append(decimal_string(i.0).as_str());
    out
}

fn then_text(out: String, sep: &str, text: String) -> (r: String)
    ensures
        r@ == out@ + sep@ + text@,
{
    let mut out = out;
    out.append(sep);
    out.append(text.as_str());
    out
}

fn latex_rule(rule: &Rule) -> (r: String)
    ensures
        r@ == latex_rule_text(rule@),
{
    match rule {
        Rule::AndI(i, j) => then_index(with_index("$\\land_{I}$ ", *i), ", ", *j),
        Rule::AndELhs(i) => with_index("$\\land_{E_{LHS}}$ ", *i),
        Rule::AndERhs(i) => with_index("$\\land_{E_{RHS}}$ ", *i),
        Rule::OrILhs(i, prop) => then_text(
            with_index("$\\lor_{I_{LHS}}$ ", *i),
            ", ",
            latex_prop(prop),
        ),
        Rule::OrIRhs(prop, j) => then_index(
            with_text("$\\lor_{I_{RHS}}$ ", latex_prop(prop)),
            ", ",
            *j,
        ),
        Rule::OrE { or_prop, lhs_box, rhs_box } => then_index(
            then_index(with_index("$\\lor_E$ ", *or_prop), ", ", *lhs_box),
            ", ",
            *rhs_box,
        ),
        Rule::NegI(i) => with_index("$\\neg_I$ ", *i),
        Rule::NegE { prop, neg_prop } => then_index(with_index("$\\neg_E$ ", *prop), " ", *neg_prop),
        Rule::ImplyI(i) => with_index("$\\to_I$ ", *i),
        Rule::ImplyE { implication, lhs_proof } => then_index(
            with_index("$\\to_E$ ", *implication),
            ", ",
            *lhs_proof,
        ),
        Rule::BottomE(i, prop) => then_text(with_index("$\\bot_E$ ", *i), ", ", latex_prop(prop)),
        Rule::DoubleNegE(i) => with_index("$\\neg\\neg_E$ ", *i),
        Rule::ModusTollens { implication, negated_rhs } => then_index(
            with_index("MT ", *implication),
            " ",
            *negated_rhs,
        ),
        Rule::DoubleNegI(i) => with_index("$\\neg\\neg_I$ ", *i),
        Rule::ProofByContradiction(i) => with_index("PBC ", *i),
        Rule::LawOfExcludedMiddle(prop) => with_text("LEM ", prop_string(prop)),
    }
}

} // verus!
