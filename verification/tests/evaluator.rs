use fitch::{Context, Error, Prop, Rule, StepIndex};

#[test]
fn evaluator_conjunction_introduction() {
    let mut ctx = Context::new();
    let p = ctx.add_premise(Prop::Symbol("p".into()));
    let q = ctx.add_premise(Prop::Symbol("q".into()));
    let p_and_q = ctx.apply_rule(Rule::AndI(p, q)).unwrap();

    assert_eq!(
        ctx.get_prop(p_and_q).unwrap(),
        &Prop::And(
            Box::new(Prop::Symbol("p".into())),
            Box::new(Prop::Symbol("q".into()))
        )
    )
}

#[test]
fn evaluator_scope_test() {
    let mut ctx = Context::new();
    let q = ctx.add_premise(Prop::Symbol("q".into()));
    let p = ctx.add_assumption(Prop::Symbol("p".into()));
    let _ = ctx.copy(q).unwrap();
    ctx.close_scope().unwrap();
    let p_implies_q = ctx.apply_rule(Rule::ImplyI(p)).unwrap();

    assert_eq!(
        ctx.get_prop(p_implies_q).unwrap(),
        &Prop::Imply(
            Box::new(Prop::Symbol("p".into())),
            Box::new(Prop::Symbol("q".into())),
        )
    );
}

#[test]
fn context_refuses_to_close_the_outermost_scope() {
    let mut ctx = Context::default();
    ctx.add_premise(Prop::Symbol("p".into()));
    assert_eq!(ctx.close_scope(), Err(()));
    assert_eq!(ctx.peek_index(), StepIndex(2));
    assert_eq!(ctx.get_prop(StepIndex(1)).unwrap(), &Prop::Symbol("p".into()));
}

#[test]
fn context_reports_errors_and_stays_as_it_was() {
    let mut ctx = Context::new();
    let p = ctx.add_premise(Prop::Symbol("p".into()));
    assert!(matches!(
        ctx.apply_rule(Rule::AndELhs(p)),
        Err(Error::ExpectedPropVariant { .. })
    ));
    assert!(matches!(
        ctx.copy(StepIndex(9)),
        Err(Error::InvalidStepIndex { index: StepIndex(9) })
    ));
    assert_eq!(ctx.peek_index(), StepIndex(2));
}
