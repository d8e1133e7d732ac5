use fitch::{latex, render_proof, Proof, Prop, Rule, RuleName, StepIndex, StepType};

fn sym(name: &str) -> Prop {
    Prop::Symbol(name.into())
}

fn and(l: Prop, r: Prop) -> Prop {
    Prop::And(Box::new(l), Box::new(r))
}

fn or(l: Prop, r: Prop) -> Prop {
    Prop::Or(Box::new(l), Box::new(r))
}

fn imply(l: Prop, r: Prop) -> Prop {
    Prop::Imply(Box::new(l), Box::new(r))
}

#[test]
fn index_in_decimal() {
    assert_eq!(StepIndex(0).to_string(), "0");
    assert_eq!(StepIndex(7).to_string(), "7");
    assert_eq!(StepIndex(10).to_string(), "10");
    assert_eq!(StepIndex(1234567890).to_string(), "1234567890");
    assert_eq!(StepIndex(usize::MAX).to_string(), format!("{}", usize::MAX));
}

#[test]
fn atoms_as_text() {
    assert_eq!(Prop::Bottom.to_string(), "⊥");
    assert_eq!(sym("rain").to_string(), "rain");
}

#[test]
fn operands_with_operators_get_parentheses() {
    assert_eq!(and(sym("p"), sym("q")).to_string(), "p ∧ q");
    assert_eq!(or(sym("p"), sym("q")).to_string(), "p ∨ q");
    assert_eq!(
        or(and(sym("p"), sym("q")), sym("r")).to_string(),
        "(p ∧ q) ∨ r"
    );
    assert_eq!(
        and(sym("p"), or(sym("q"), sym("r"))).to_string(),
        "p ∧ (q ∨ r)"
    );
    assert_eq!(
        and(and(sym("p"), sym("q")), imply(sym("r"), sym("s"))).to_string(),
        "(p ∧ q) ∧ (r → s)"
    );
}

#[test]
fn implication_associates_to_the_right() {
    assert_eq!(imply(sym("p"), sym("q")).to_string(), "p → q");
    assert_eq!(
        imply(sym("p"), imply(sym("q"), sym("r"))).to_string(),
        "p → q → r"
    );
    assert_eq!(
        imply(imply(sym("p"), sym("q")), sym("r")).to_string(),
        "(p → q) → r"
    );
    assert_eq!(
        imply(and(sym("p"), sym("q")), or(sym("r"), sym("s"))).to_string(),
        "p ∧ q → r ∨ s"
    );
    assert_eq!(Prop::negated(sym("p")).to_string(), "p → ⊥");
}

#[test]
fn box_as_text() {
    let mut proof = Proof::new();
    let q = proof.add_premise(sym("q"));
    let p = proof.add_assumption(and(sym("p"), sym("r")));
    proof.copy(q).unwrap();
    proof.close_scope().unwrap();
    assert_eq!(proof.get_prop(p).unwrap().to_string(), "[p ∧ r... q]");
}

#[test]
fn rule_names_as_text() {
    let cases = [
        (RuleName::AndI, "∧I"),
        (RuleName::AndELhs, "∧E_lhs"),
        (RuleName::AndERhs, "∧E_rhs"),
        (RuleName::OrILhs, "∨I_lhs"),
        (RuleName::OrIRhs, "∨I_rhs"),
        (RuleName::OrE, "∨E"),
        (RuleName::NegI, "¬I"),
        (RuleName::NegE, "¬E"),
        (RuleName::ImplyI, "→I"),
        (RuleName::ImplyE, "→E"),
        (RuleName::BottomE, "⊥E"),
        (RuleName::DoubleNegE, "¬¬E"),
        (RuleName::ModusTollens, "MT"),
        (RuleName::DoubleNegI, "¬¬I"),
        (RuleName::ProofByContradiction, "PBC"),
        (RuleName::LawOfExcludedMiddle, "LEM"),
    ];
    for (name, text) in cases {
        assert_eq!(name.to_string(), text);
        assert_eq!(name.as_str(), text);
    }
}

#[test]
fn rules_as_text() {
    let a = StepIndex(1);
    let b = StepIndex(12);
    let c = StepIndex(3);
    let p = and(sym("p"), sym("q"));
    let cases = [
        (Rule::AndI(a, b), "∧I 1 12"),
        (Rule::AndELhs(a), "∧E_lhs 1"),
        (Rule::AndERhs(b), "∧E_rhs 12"),
        (Rule::OrILhs(a, p.clone()), "∨I_lhs 1 p ∧ q"),
        (Rule::OrIRhs(p.clone(), b), "∨I_rhs p ∧ q 12"),
        (
            Rule::OrE {
                or_prop: a,
                lhs_box: b,
                rhs_box: c,
            },
            "∨E 1 12 3",
        ),
        (Rule::NegI(a), "¬I 1"),
        (
            Rule::NegE {
                prop: a,
                neg_prop: b,
            },
            "¬E 1 12",
        ),
        (Rule::ImplyI(a), "→I 1"),
        (
            Rule::ImplyE {
                implication: a,
                lhs_proof: b,
            },
            "→E 1 12",
        ),
        (Rule::BottomE(a, p.clone()), "⊥E 1 p ∧ q"),
        (Rule::DoubleNegE(a), "¬¬E 1"),
        (
            Rule::ModusTollens {
                implication: a,
                negated_rhs: b,
            },
            "MT 1 12",
        ),
        (Rule::DoubleNegI(a), "¬¬I 1"),
        (Rule::ProofByContradiction(a), "PBC 1"),
        (Rule::LawOfExcludedMiddle(p.clone()), "LEM p ∧ q"),
    ];
    for (rule, text) in cases {
        assert_eq!(rule.to_string(), text);
    }
}

#[test]
fn step_types_as_text() {
    assert_eq!(StepType::Premise.to_string(), "premise");
    assert_eq!(StepType::Assumption.to_string(), "assumption");
    assert_eq!(StepType::Copy(StepIndex(42)).to_string(), "copy 42");
    assert_eq!(
        StepType::Rule(Rule::AndI(StepIndex(1), StepIndex(2))).to_string(),
        "∧I 1 2"
    );
}

#[test]
fn latex_of_an_empty_proof() {
    let proof = Proof::new();
    assert_eq!(
        latex(&proof).unwrap(),
        "\\begin{logicproof}{0}\n\\end{logicproof}\n"
    );
}

#[test]
fn latex_refuses_an_open_scope() {
    let mut proof = Proof::new();
    proof.add_assumption(sym("p"));
    assert!(latex(&proof).is_none());
    proof.close_scope().unwrap();
    assert!(latex(&proof).is_some());
}

#[test]
fn latex_of_a_flat_proof() {
    let mut proof = Proof::new();
    let p = proof.add_premise(sym("p"));
    let q = proof.add_premise(Prop::Bottom);
    proof.apply_rule(&Rule::AndI(p, q)).unwrap();
    proof.copy(p).unwrap();
    assert_eq!(
        latex(&proof).unwrap(),
        "\\begin{logicproof}{0}\n\
         \\text{p} & premise \\\\\n\
         \\bot & premise \\\\\n\
         \\text{p} \\land \\bot & $\\land_{I}$ 1, 2 \\\\\n\
         \\text{p} & copy 1\n\
         \\end{logicproof}\n"
    );
}

#[test]
fn latex_of_a_proof_with_boxes() {
    let mut proof = Proof::new();
    let q = proof.add_premise(sym("q"));
    let p = proof.add_assumption(sym("p"));
    proof.add_assumption(sym("r"));
    proof.copy(q).unwrap();
    proof.close_scope().unwrap();
    proof.copy(q).unwrap();
    proof.close_scope().unwrap();
    proof.apply_rule(&Rule::ImplyI(p)).unwrap();
    assert_eq!(
        latex(&proof).unwrap(),
        "\\begin{logicproof}{2}\n\
         \\text{q} & premise \\\\\n\
         \\begin{subproof}\n\
         \\text{p} & assumption \\\\\n\
         \\begin{subproof}\n\
         \\text{r} & assumption \\\\\n\
         \\text{q} & copy 1\n\
         \\end{subproof}\n\
         \\text{q} & copy 1\n\
         \\end{subproof}\n\
         \\text{p} \\to \\text{q} & $\\to_I$ 2\n\
         \\end{logicproof}\n"
    );
}

#[test]
fn latex_of_each_rule() {
    let mut proof = Proof::new();
    let p = proof.add_premise(sym("p"));
    let pq = proof.add_premise(and(sym("p"), sym("q")));
    proof.apply_rule(&Rule::AndELhs(pq)).unwrap();
    proof.apply_rule(&Rule::AndERhs(pq)).unwrap();
    proof.apply_rule(&Rule::OrILhs(p, sym("x"))).unwrap();
    proof.apply_rule(&Rule::OrIRhs(or(sym("x"), sym("y")), p)).unwrap();
    let nn = proof.apply_rule(&Rule::DoubleNegI(p)).unwrap();
    proof.apply_rule(&Rule::DoubleNegE(nn)).unwrap();
    proof
        .apply_rule(&Rule::LawOfExcludedMiddle(and(sym("a"), sym("b"))))
        .unwrap();
    assert_eq!(
        latex(&proof).unwrap(),
        "\\begin{logicproof}{0}\n\
         \\text{p} & premise \\\\\n\
         \\text{p} \\land \\text{q} & premise \\\\\n\
         \\text{p} & $\\land_{E_{LHS}}$ 2 \\\\\n\
         \\text{q} & $\\land_{E_{RHS}}$ 2 \\\\\n\
         \\text{p} \\lor \\text{x} & $\\lor_{I_{LHS}}$ 1, \\text{x} \\\\\n\
         \\text{x} \\lor \\text{y} \\lor \\text{p} & $\\lor_{I_{RHS}}$ \\text{x} \\lor \\text{y}, 1 \\\\\n\
         \\text{p} \\to \\bot \\to \\bot & $\\neg\\neg_I$ 1 \\\\\n\
         \\text{p} & $\\neg\\neg_E$ 7 \\\\\n\
         \\text{a} \\land \\text{b} \\lor \\text{a} \\land \\text{b} \\to \\bot & LEM a ∧ b\n\
         \\end{logicproof}\n"
    );
}

#[test]
fn latex_of_the_rules_with_two_or_three_indices() {
    let mut proof = Proof::new();
    let a_or_b = proof.add_premise(or(sym("a"), sym("b")));
    let c = proof.add_premise(sym("c"));
    let left = proof.add_assumption(sym("a"));
    proof.copy(c).unwrap();
    proof.close_scope().unwrap();
    let right = proof.add_assumption(sym("b"));
    proof.copy(c).unwrap();
    proof.close_scope().unwrap();
    proof
        .apply_rule(&Rule::OrE {
            or_prop: a_or_b,
            lhs_box: left,
            rhs_box: right,
        })
        .unwrap();
    let not_c = proof.add_premise(Prop::negated(sym("c")));
    let bottom = proof
        .apply_rule(&Rule::NegE {
            prop: c,
            neg_prop: not_c,
        })
        .unwrap();
    proof.apply_rule(&Rule::BottomE(bottom, sym("z"))).unwrap();
    let d_to_c = proof.add_premise(imply(sym("d"), sym("c")));
    proof
        .apply_rule(&Rule::ModusTollens {
            implication: d_to_c,
            negated_rhs: not_c,
        })
        .unwrap();
    let d = proof.add_premise(sym("d"));
    proof
        .apply_rule(&Rule::ImplyE {
            implication: d_to_c,
            lhs_proof: d,
        })
        .unwrap();
    let text = latex(&proof).unwrap();
    assert!(text.starts_with("\\begin{logicproof}{1}\n"));
    assert!(text.contains("\\text{c} & $\\lor_E$ 1, 3, 5 \\\\\n"));
    assert!(text.contains("\\bot & $\\neg_E$ 2 8 \\\\\n"));
    assert!(text.contains("\\text{z} & $\\bot_E$ 9, \\text{z} \\\\\n"));
    assert!(text.contains("\\text{d} \\to \\bot & MT 11 8 \\\\\n"));
    assert!(text.ends_with("\\text{c} & $\\to_E$ 11, 13\n\\end{logicproof}\n"));
}

#[test]
fn latex_of_box_rules() {
    let mut proof = Proof::new();
    let bottom = proof.add_premise(Prop::Bottom);
    let p = proof.add_assumption(sym("p"));
    proof.copy(bottom).unwrap();
    proof.close_scope().unwrap();
    proof.apply_rule(&Rule::NegI(p)).unwrap();
    let np = proof.add_assumption(Prop::negated(sym("p")));
    proof.copy(bottom).unwrap();
    proof.close_scope().unwrap();
    proof.apply_rule(&Rule::ProofByContradiction(np)).unwrap();
    let text = latex(&proof).unwrap();
    assert!(text.contains("\\text{p} \\to \\bot & $\\neg_I$ 2 \\\\\n"));
    assert!(text.ends_with("\\text{p} & PBC 5\n\\end{logicproof}\n"));
}

#[test]
fn render_of_an_empty_proof() {
    assert_eq!(render_proof(&Proof::new()).unwrap(), "");
}

#[test]
fn render_of_a_flat_proof() {
    let mut proof = Proof::new();
    let p = proof.add_premise(sym("p"));
    let q = proof.add_premise(sym("q"));
    proof.apply_rule(&Rule::AndI(p, q)).unwrap();
    let expected = format!(
        "{:>3}  {:<40} {:>20} \n{:>3}  {:<40} {:>20} \n{:>3}  {:<40} {:>20} \n",
        "1", "p", "premise", "2", "q", "premise", "3", "p ∧ q", "∧I 1 2"
    );
    assert_eq!(render_proof(&proof).unwrap(), expected);
}

#[test]
fn render_of_an_open_and_a_closed_scope() {
    let mut proof = Proof::new();
    let q = proof.add_premise(sym("q"));
    proof.add_assumption(sym("p"));
    proof.copy(q).unwrap();
    let open = render_proof(&proof).unwrap();
    let top = format!("    ┌{}┐\n", "─".repeat(61));
    let bottom = format!("    └{}┘\n", "─".repeat(61));
    let first = format!("{:>3}  {:<40} {:>20} \n", "1", "q", "premise");
    let second = format!("{:>3} │ {:<38} {:>20} │\n", "2", "p", "assumption");
    let third = format!("{:>3} │ {:<38} {:>20} │\n", "3", "q", "copy 1");
    assert_eq!(open, format!("{first}{top}{second}{third}"));

    proof.close_scope().unwrap();
    let closed = render_proof(&proof).unwrap();
    assert_eq!(closed, format!("{first}{top}{second}{third}{bottom}"));
}

#[test]
fn render_of_nested_boxes() {
    let mut proof = Proof::new();
    proof.add_assumption(sym("a"));
    proof.add_assumption(sym("b"));
    proof.close_scope().unwrap();
    proof.close_scope().unwrap();
    let outer_top = format!("    ┌{}┐\n", "─".repeat(61));
    let outer_bottom = format!("    └{}┘\n", "─".repeat(61));
    let inner_top = format!("    │┌{}┐│\n", "─".repeat(59));
    let inner_bottom = format!("    │└{}┘│\n", "─".repeat(59));
    let a = format!("{:>3} │ {:<38} {:>20} │\n", "1", "a", "assumption");
    let b = format!("{:>3} ││ {:<36} {:>20} ││\n", "2", "b", "assumption");
    assert_eq!(
        render_proof(&proof).unwrap(),
        format!("{outer_top}{a}{inner_top}{b}{inner_bottom}{outer_bottom}")
    );
}

#[test]
fn render_does_not_cut_long_text() {
    let mut proof = Proof::new();
    let long = "x".repeat(50);
    proof.add_premise(sym(&long));
    assert_eq!(
        render_proof(&proof).unwrap(),
        format!("{:>3}  {} {:>20} \n", "1", long, "premise")
    );
}

#[test]
fn render_has_room_for_twenty_levels() {
    let mut proof = Proof::new();
    for _ in 0..20 {
        proof.add_assumption(sym("p"));
    }
    assert!(render_proof(&proof).is_some());
    proof.add_assumption(sym("p"));
    assert!(render_proof(&proof).is_none());
    proof.close_scope().unwrap();
    assert!(render_proof(&proof).is_none());
    proof.undo();
    assert!(render_proof(&proof).is_some());
}
