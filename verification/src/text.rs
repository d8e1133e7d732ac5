//! Plain-text rendering of indices, propositions, rules and step kinds.
//!
//! Each rendering is defined as a spec function from a model to a sequence
//! of characters; the executable functions are proved to produce exactly
//! that text.

use vstd::prelude::*;
use vstd::string::*;
use crate::prop::{Prop, PropView, StepIndex, StepType, StepTypeView, box_assumption, box_derived};
use crate::rules::{Rule, RuleName, RuleView};

verus! {

/// The character of a decimal digit.
pub open spec fn digit_char(d: nat) -> char {
    if d == 0 {
        '0'
    } else if d == 1 {
        '1'
    } else if d == 2 {
        '2'
    } else if d == 3 {
        '3'
    } else if d == 4 {
        '4'
    } else if d == 5 {
        '5'
    } else if d == 6 {
        '6'
    } else if d == 7 {
        '7'
    } else if d == 8 {
        '8'
    } else {
        '9'
    }
}

/// A number in decimal notation, without leading zeros.
pub open spec fn decimal_text(n: nat) -> Seq<char>
    decreases n,
{
    if n < 10 {
        seq![digit_char(n)]
    } else {
        decimal_text(n / 10).push(digit_char(n % 10))
    }
}

/// Whether a proposition is written in parentheses where it is an operand of
/// `∧` or `∨`: every proposition with an operator of its own is.
pub open spec fn is_compound(p: PropView) -> bool {
    p is And || p is Or || p is Imply
}

/// A proposition in the usual notation. `∧` binds tighter than `∨`, which
/// binds tighter than `→`, and `→` associates to the right: an implication
/// on the left of `→` is written in parentheses, one on the right is not.
/// A box is written as its assumption and what it derived.
pub open spec fn prop_text(p: PropView) -> Seq<char>
    decreases p,
{
    match p {
        PropView::Bottom => "⊥"@,
        PropView::Symbol(name) => name,
        PropView::And(lhs, rhs) => {
            let l = if is_compound(*lhs) {
                "("@ + prop_text(*lhs) + ")"@
            } else {
                prop_text(*lhs)
            };
            let r = if is_compound(*rhs) {
                "("@ + prop_text(*rhs) + ")"@
            } else {
                prop_text(*rhs)
            };
            l + " ∧ "@ + r
        },
        PropView::Or(lhs, rhs) => {
            let l = if is_compound(*lhs) {
                "("@ + prop_text(*lhs) + ")"@
            } else {
                prop_text(*lhs)
            };
            let r = if is_compound(*rhs) {
                "("@ + prop_text(*rhs) + ")"@
            } else {
                prop_text(*rhs)
            };
            l + " ∨ "@ + r
        },
        PropView::Imply(lhs, rhs) => {
            let l = if *lhs is Imply {
                "("@ + prop_text(*lhs) + ")"@
            } else {
                prop_text(*lhs)
            };
            l + " → "@ + prop_text(*rhs)
        },
        PropView::ProofBox(steps) => {
            if steps.len() > 0 {
                "["@ + prop_text(box_assumption(steps)) + "... "@ + prop_text(box_derived(steps))
                    + "]"@
            } else {
                "[]"@
            }
        },
    }
}

/// The short name of a rule.
pub open spec fn rule_name_text(name: RuleName) -> Seq<char> {
    match name {
        RuleName::AndI => "∧I"@,
        RuleName::AndELhs => "∧E_lhs"@,
        RuleName::AndERhs => "∧E_rhs"@,
        RuleName::OrILhs => "∨I_lhs"@,
        RuleName::OrIRhs => "∨I_rhs"@,
        RuleName::OrE => "∨E"@,
        RuleName::NegI => "¬I"@,
        RuleName::NegE => "¬E"@,
        RuleName::ImplyI => "→I"@,
        RuleName::ImplyE => "→E"@,
        RuleName::BottomE => "⊥E"@,
        RuleName::DoubleNegE => "¬¬E"@,
        RuleName::ModusTollens => "MT"@,
        RuleName::DoubleNegI => "¬¬I"@,
        RuleName::ProofByContradiction => "PBC"@,
        RuleName::LawOfExcludedMiddle => "LEM"@,
    }
}

/// A rule application: the rule's short name, then its arguments in the
/// order in which the rule lists them, each after one space.
pub open spec fn rule_text(rule: RuleView) -> Seq<char> {
    let name = rule_name_text(rule.name());
    match rule {
        RuleView::AndI(i, j) => name + " "@ + decimal_text(i) + " "@ + decimal_text(j),
        RuleView::AndELhs(i) => name + " "@ + decimal_text(i),
        RuleView::AndERhs(i) => name + " "@ + decimal_text(i),
        RuleView::OrILhs(i, p) => name + " "@ + decimal_text(i) + " "@ + prop_text(p),
        RuleView::OrIRhs(p, i) => name + " "@ + prop_text(p) + " "@ + decimal_text(i),
        RuleView::OrE { or_prop, lhs_box, rhs_box } => name + " "@ + decimal_text(or_prop) + " "@
            + decimal_text(lhs_box) + " "@ + decimal_text(rhs_box),
        RuleView::NegI(i) => name + " "@ + decimal_text(i),
        RuleView::NegE { prop, neg_prop } => name + " "@ + decimal_text(prop) + " "@ + decimal_text(
            neg_prop,
        ),
        RuleView::ImplyI(i) => name + " "@ + decimal_text(i),
        RuleView::ImplyE { implication, lhs_proof } => name + " "@ + decimal_text(implication)
            + " "@ + decimal_text(lhs_proof),
        RuleView::BottomE(i, p) => name + " "@ + decimal_text(i) + " "@ + prop_text(p),
        RuleView::DoubleNegE(i) => name + " "@ + decimal_text(i),
        RuleView::ModusTollens { implication, negated_rhs } => name + " "@ + decimal_text(
            implication,
        ) + " "@ + decimal_text(negated_rhs),
        RuleView::DoubleNegI(i) => name + " "@ + decimal_text(i),
        RuleView::ProofByContradiction(i) => name + " "@ + decimal_text(i),
        RuleView::LawOfExcludedMiddle(p) => name + " "@ + prop_text(p),
    }
}

/// How a step was justified.
pub open spec fn step_type_text(t: StepTypeView) -> Seq<char> {
    match t {
        StepTypeView::Rule(rule) => rule_text(rule),
        StepTypeView::Copy(i) => "copy "@ + decimal_text(i),
        StepTypeView::Premise => "premise"@,
        StepTypeView::Assumption => "assumption"@,
    }
}

fn digit_str(d: usize) -> (r: &'static str)
    requires
        d < 10,
    ensures
        r@ == seq![digit_char(d as nat)],
{
    proof {
        reveal_strlit("0");
        reveal_strlit("1");
        reveal_strlit("2");
        reveal_strlit("3");
        reveal_strlit("4");
        reveal_strlit("5");
        reveal_strlit("6");
        reveal_strlit("7");
        reveal_strlit("8");
        reveal_strlit("9");
    }
    let r = if d == 0 {
        "0"
    } else if d == 1 {
        "1"
    } else if d == 2 {
        "2"
    } else if d == 3 {
        "3"
    } else if d == 4 {
        "4"
    } else if d == 5 {
        "5"
    } else if d == 6 {
        "6"
    } else if d == 7 {
        "7"
    } else if d == 8 {
        "8"
    } else {
        "9"
    };
    assert(r@ =~= seq![digit_char(d as nat)]);
    r
}

/// Writes `n` in decimal notation.
pub fn decimal_string(n: usize) -> (r: String)
    ensures
        r@ == decimal_text(n as nat),
    decreases n,
{
    if n < 10 {
        String::from_str(digit_str(n))
    } else {
        let mut s = decimal_string(n / 10);
        s.append(digit_str(n % 10));
        assert(s@ =~= decimal_text(n as nat));
        s
    }
}

/// Appends `inner`, in parentheses where `wrap` says so.
fn append_operand(out: &mut String, inner: &String, wrap: bool)
    ensures
        final(out)@ == old(out)@ + (if wrap {
            "("@ + inner@ + ")"@
        } else {
            inner@
        }),
{
    if wrap {
        out.append("(");
        out.append(inner.as_str());
        out.append(")");
        assert(out@ =~= old(out)@ + ("("@ + inner@ + ")"@));
    } else {
        out.append(inner.as_str());
    }
}

fn compound(p: &Prop) -> (r: bool)
    ensures
        r == is_compound(p@),
{
    match p {
        Prop::And(..) => true,
        Prop::Or(..) => true,
        Prop::Imply(..) => true,
        _ => false,
    }
}

/// Joins two rendered operands with an operator between them.
fn join_operands(l: &String, wrap_l: bool, op: &str, r: &String, wrap_r: bool) -> (out: String)
    ensures
        out@ == (if wrap_l {
            "("@ + l@ + ")"@
        } else {
            l@
        }) + op@ + (if wrap_r {
            "("@ + r@ + ")"@
        } else {
            r@
        }),
{
    let mut out = String::new();
    append_operand(&mut out, l, wrap_l);
    out.append(op);
    append_operand(&mut out, r, wrap_r);
    proof {
        let lt = if wrap_l {
            "("@ + l@ + ")"@
        } else {
            l@
        };
        let rt = if wrap_r {
            "("@ + r@ + ")"@
        } else {
            r@
        };
        assert(out@ =~= lt + op@ + rt);
    }
    out
}

pub(crate) fn prop_string(p: &Prop) -> (r: String)
    ensures
        r@ == prop_text(p@),
    decreases p,
{
    match p {
        Prop::Bottom => String::from_str("⊥"),
        Prop::Symbol(name) => name.clone(),
        Prop::And(lhs, rhs) => {
            let l = prop_string(lhs);
            let r = prop_string(rhs);
            join_operands(&l, compound(lhs), " ∧ ", &r, compound(rhs))
        },
        Prop::Or(lhs, rhs) => {
            let l = prop_string(lhs);
            let r = prop_string(rhs);
            join_operands(&l, compound(lhs), " ∨ ", &r, compound(rhs))
        },
        Prop::Imply(lhs, rhs) => {
            let l = prop_string(lhs);
            let r = prop_string(rhs);
            let wrap = match &**lhs {
                Prop::Imply(..) => true,
                _ => false,
            };
            let mut out = String::new();
            append_operand(&mut out, &l, wrap);
            out.append(" → ");
            out.append(r.as_str());
            proof {
                let lt = if lhs@ is Imply {
                    "("@ + prop_text(lhs@) + ")"@
                } else {
                    prop_text(lhs@)
                };
                assert(out@ =~= lt + " → "@ + prop_text(rhs@));
            }
            out
        },
        Prop::ProofBox(subproof) => {
            proof {
                use_type_invariant(subproof);
            }
            let first = &subproof.0[0];
            let last = &subproof.0[subproof.0.len() - 1];
            let a = prop_string(&first.1.0);
            let d = prop_string(&last.1.0);
            let mut out = String::from_str("[");
            out.append(a.as_str());
            out.append("... ");
            out.append(d.as_str());
            out.append("]");
            assert(out@ =~= "["@ + prop_text(box_assumption(subproof@)) + "... "@ + prop_text(
                box_derived(subproof@),
            ) + "]"@);
            out
        },
    }
}

impl StepIndex {
    /// The index in decimal notation.
    pub fn to_string(&self) -> (r: String)
        ensures
            r@ == decimal_text(self@),
    {
        decimal_string(self.0)
    }
}

impl Prop {
    /// The proposition in the usual notation: see [`prop_text`].
    pub fn to_string(&self) -> (r: String)
        ensures
            r@ == prop_text(self@),
    {
        prop_string(self)
    }
}

impl RuleName {
    /// The short name of the rule: see [`rule_name_text`].
    pub fn as_str(&self) -> (r: &'static str)
        ensures
            r@ == rule_name_text(*self),
    {
        match self {
            RuleName::AndI => "∧I",
            RuleName::AndELhs => "∧E_lhs",
            RuleName::AndERhs => "∧E_rhs",
            RuleName::OrILhs => "∨I_lhs",
            RuleName::OrIRhs => "∨I_rhs",
            RuleName::OrE => "∨E",
            RuleName::NegI => "¬I",
            RuleName::NegE => "¬E",
            RuleName::ImplyI => "→I",
            RuleName::ImplyE => "→E",
            RuleName::BottomE => "⊥E",
            RuleName::DoubleNegE => "¬¬E",
            RuleName::ModusTollens => "MT",
            RuleName::DoubleNegI => "¬¬I",
            RuleName::ProofByContradiction => "PBC",
            RuleName::LawOfExcludedMiddle => "LEM",
        }
    }

    /// The short name of the rule, as an owned string.
    pub fn to_string(&self) -> (r: String)
        ensures
            r@ == rule_name_text(*self),
    {
        String::from_str(self.as_str())
    }
}

fn append_index(out: &mut String, index: StepIndex)
    ensures
        final(out)@ == old(out)@ + " "@ + decimal_text(index@),
{
    out.append(" ");
    let digits = decimal_string(index.0);
    out.append(digits.as_str());
}

fn append_prop(out: &mut String, prop: &Prop)
    ensures
        final(out)@ == old(out)@ + " "@ + prop_text(prop@),
{
    out.append(" ");
    let text = prop_string(prop);
    out.append(text.as_str());
}

impl Rule {
    /// The rule application as text: see [`rule_text`].
    pub fn to_string(&self) -> (r: String)
        ensures
            r@ == rule_text(self@),
    {
        let name = RuleName::from(self);
        let mut out = name.to_string();
        match self {
            Rule::AndI(i, j) => {
                append_index(&mut out, *i);
                append_index(&mut out, *j);
            },
            Rule::AndELhs(i) => {
                append_index(&mut out, *i);
            },
            Rule::AndERhs(i) => {
                append_index(&mut out, *i);
            },
            Rule::OrILhs(i, p) => {
                append_index(&mut out, *i);
                append_prop(&mut out, p);
            },
            Rule::OrIRhs(p, i) => {
                append_prop(&mut out, p);
                append_index(&mut out, *i);
            },
            Rule::OrE { or_prop, lhs_box, rhs_box } => {
                append_index(&mut out, *or_prop);
                append_index(&mut out, *lhs_box);
                append_index(&mut out, *rhs_box);
            },
            Rule::NegI(i) => {
                append_index(&mut out, *i);
            },
            Rule::NegE { prop, neg_prop } => {
                append_index(&mut out, *prop);
                append_index(&mut out, *neg_prop);
            },
            Rule::ImplyI(i) => {
                append_index(&mut out, *i);
            },
            Rule::ImplyE { implication, lhs_proof } => {
                append_index(&mut out, *implication);
                append_index(&mut out, *lhs_proof);
            },
            Rule::BottomE(i, p) => {
                append_index(&mut out, *i);
                append_prop(&mut out, p);
            },
            Rule::DoubleNegE(i) => {
                append_index(&mut out, *i);
            },
            Rule::ModusTollens { implication, negated_rhs } => {
                append_index(&mut out, *implication);
                append_index(&mut out, *negated_rhs);
            },
            Rule::DoubleNegI(i) => {
                append_index(&mut out, *i);
            },
            Rule::ProofByContradiction(i) => {
                append_index(&mut out, *i);
            },
            Rule::LawOfExcludedMiddle(p) => {
                append_prop(&mut out, p);
            },
        }
        out
    }
}

impl StepType {
    /// How the step was justified, as text: see [`step_type_text`].
    pub fn to_string(&self) -> (r: String)
        ensures
            r@ == step_type_text(self@),
    {
        match self {
            StepType::Rule(rule) => rule.to_string(),
            StepType::Copy(i) => {
                let mut out = String::from_str("copy ");
                let digits = decimal_string(i.0);
                out.append(digits.as_str());
                out
            },
            StepType::Premise => String::from_str("premise"),
            StepType::Assumption => String::from_str("assumption"),
        }
    }
}

} // verus!
