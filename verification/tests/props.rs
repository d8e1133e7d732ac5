use fitch::{Proof, Prop, PropVariant, Rule, RuleName, Step, StepIndex, StepType};

fn sym(name: &str) -> Prop {
    Prop::Symbol(name.into())
}

fn boxed(assumption: Prop, derived: Prop) -> Prop {
    let mut proof = Proof::new();
    let source = proof.add_premise(derived);
    let opened = proof.add_assumption(assumption);
    proof.copy(source).unwrap();
    proof.close_scope().unwrap();
    proof.get_prop(opened).unwrap().clone()
}

#[test]
fn negated_wraps_in_an_implication_to_bottom() {
    assert_eq!(
        Prop::negated(sym("p")),
        Prop::Imply(Box::new(sym("p")), Box::new(Prop::Bottom))
    );
    assert_eq!(
        Prop::negated(Prop::negated(sym("p"))),
        Prop::Imply(
            Box::new(Prop::Imply(Box::new(sym("p")), Box::new(Prop::Bottom))),
            Box::new(Prop::Bottom)
        )
    );
}

#[test]
fn equality_is_structural() {
    let a = Prop::And(Box::new(sym("p")), Box::new(sym("q")));
    let b = Prop::And(Box::new(sym("p")), Box::new(sym("q")));
    let c = Prop::And(Box::new(sym("q")), Box::new(sym("p")));
    let d = Prop::Or(Box::new(sym("p")), Box::new(sym("q")));
    assert_eq!(a, b);
    assert_ne!(a, c);
    assert_ne!(a, d);
    assert_ne!(sym("p"), sym("q"));
    assert_eq!(Prop::Bottom, Prop::Bottom);
    assert_ne!(Prop::Bottom, sym("p"));
    assert_ne!(
        Prop::Imply(Box::new(sym("p")), Box::new(sym("q"))),
        Prop::Imply(Box::new(sym("p")), Box::new(sym("r")))
    );
}

#[test]
fn boxes_compare_step_by_step() {
    let a = boxed(sym("p"), sym("q"));
    let b = boxed(sym("p"), sym("q"));
    let c = boxed(sym("p"), sym("r"));
    assert_eq!(a, b);
    assert_ne!(a, c);
    assert_ne!(a, sym("p"));
}

#[test]
fn clone_is_equal_to_its_source() {
    let p = Prop::Or(
        Box::new(boxed(sym("p"), sym("q"))),
        Box::new(Prop::negated(sym("r"))),
    );
    assert_eq!(p.clone(), p);
    let rule = Rule::OrILhs(StepIndex(3), p.clone());
    assert_eq!(rule.clone(), rule);
    let step = Step::new(p.clone(), StepType::Rule(rule.clone()));
    assert_eq!(step.clone(), step);
}

#[test]
fn step_accessors() {
    let step = Step::new(sym("p"), StepType::Copy(StepIndex(4)));
    assert_eq!(step.prop(), &sym("p"));
    assert_eq!(step.step_type(), &StepType::Copy(StepIndex(4)));
    assert_eq!(step.clone().prop_owned(), sym("p"));
    assert_eq!(step.step_type_owned(), StepType::Copy(StepIndex(4)));
}

#[test]
fn step_types_compare_by_kind_and_content() {
    assert_eq!(StepType::Premise, StepType::Premise);
    assert_ne!(StepType::Premise, StepType::Assumption);
    assert_ne!(StepType::Copy(StepIndex(1)), StepType::Copy(StepIndex(2)));
    assert_ne!(
        StepType::Rule(Rule::AndELhs(StepIndex(1))),
        StepType::Rule(Rule::AndERhs(StepIndex(1)))
    );
}

#[test]
fn rules_compare_by_kind_and_arguments() {
    assert_eq!(
        Rule::AndI(StepIndex(1), StepIndex(2)),
        Rule::AndI(StepIndex(1), StepIndex(2))
    );
    assert_ne!(
        Rule::AndI(StepIndex(1), StepIndex(2)),
        Rule::AndI(StepIndex(2), StepIndex(1))
    );
    assert_ne!(Rule::NegI(StepIndex(1)), Rule::ImplyI(StepIndex(1)));
    assert_ne!(
        Rule::BottomE(StepIndex(1), sym("p")),
        Rule::BottomE(StepIndex(1), sym("q"))
    );
    assert_eq!(
        Rule::OrE {
            or_prop: StepIndex(1),
            lhs_box: StepIndex(2),
            rhs_box: StepIndex(3)
        },
        Rule::OrE {
            or_prop: StepIndex(1),
            lhs_box: StepIndex(2),
            rhs_box: StepIndex(3)
        }
    );
    assert_ne!(
        Rule::LawOfExcludedMiddle(sym("p")),
        Rule::LawOfExcludedMiddle(sym("q"))
    );
}

#[test]
fn variant_of_each_shape() {
    assert_eq!(PropVariant::from(&Prop::Bottom), PropVariant::Bottom);
    assert_eq!(PropVariant::from(&sym("p")), PropVariant::Symbol);
    assert_eq!(
        PropVariant::from(&Prop::And(Box::new(sym("p")), Box::new(sym("q")))),
        PropVariant::And
    );
    assert_eq!(
        PropVariant::from(&Prop::Or(Box::new(sym("p")), Box::new(sym("q")))),
        PropVariant::Or
    );
    assert_eq!(
        PropVariant::from(&Prop::Imply(Box::new(sym("p")), Box::new(sym("q")))),
        PropVariant::Imply
    );
    assert_eq!(
        PropVariant::from(&boxed(sym("p"), sym("q"))),
        PropVariant::ProofBox
    );
}

#[test]
fn name_of_each_rule() {
    let i = StepIndex(1);
    let cases = [
        (Rule::AndI(i, i), RuleName::AndI),
        (Rule::AndELhs(i), RuleName::AndELhs),
        (Rule::AndERhs(i), RuleName::AndERhs),
        (Rule::OrILhs(i, sym("p")), RuleName::OrILhs),
        (Rule::OrIRhs(sym("p"), i), RuleName::OrIRhs),
        (
            Rule::OrE {
                or_prop: i,
                lhs_box: i,
                rhs_box: i,
            },
            RuleName::OrE,
        ),
        (Rule::NegI(i), RuleName::NegI),
        (
            Rule::NegE {
                prop: i,
                neg_prop: i,
            },
            RuleName::NegE,
        ),
        (Rule::ImplyI(i), RuleName::ImplyI),
        (
            Rule::ImplyE {
                implication: i,
                lhs_proof: i,
            },
            RuleName::ImplyE,
        ),
        (Rule::BottomE(i, sym("p")), RuleName::BottomE),
        (Rule::DoubleNegE(i), RuleName::DoubleNegE),
        (
            Rule::ModusTollens {
                implication: i,
                negated_rhs: i,
            },
            RuleName::ModusTollens,
        ),
        (Rule::DoubleNegI(i), RuleName::DoubleNegI),
        (Rule::ProofByContradiction(i), RuleName::ProofByContradiction),
        (Rule::LawOfExcludedMiddle(sym("p")), RuleName::LawOfExcludedMiddle),
    ];
    for (rule, name) in cases {
        assert_eq!(RuleName::from(&rule), name);
    }
}

#[test]
fn sub_proof_accessors() {
    let b = boxed(sym("p"), sym("q"));
    match &b {
        Prop::ProofBox(subproof) => {
            assert_eq!(subproof.assumption(), &sym("p"));
            assert_eq!(subproof.derived_prop(), &sym("q"));
            assert_eq!(subproof.starting_index(), StepIndex(2));
            assert_eq!(subproof.steps().len(), 2);
            assert_eq!(subproof.clone(), *subproof);
        }
        other => panic!("expected a box, got {:?}", other),
    }
}
