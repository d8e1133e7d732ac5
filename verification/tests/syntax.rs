use chumsky::prelude::{choice, end, just, recursive, Parser, Simple};
use chumsky::text;
use chumsky::text::TextParser;
use fitch::{parse_command, parse_prop, tokenize, Command, Prop, Rule, RuleName, StepIndex, SyntaxError, Token};

fn sym(name: &str) -> Prop {
    Prop::Symbol(name.into())
}

fn and(l: Prop, r: Prop) -> Prop {
    Prop::And(Box::new(l), Box::new(r))
}

fn or(l: Prop, r: Prop) -> Prop {
    Prop::Or(Box::new(l), Box::new(r))
}

fn imply(l: Prop, r: Prop) -> Prop {
    Prop::Imply(Box::new(l), Box::new(r))
}

fn not(p: Prop) -> Prop {
    imply(p, Prop::Bottom)
}

/// A token without the formula or name types' own equality, for comparing.
#[derive(Clone, Debug, PartialEq)]
enum Word {
    Rule,
    Copy,
    Premise,
    Assume,
    Discharge,
    Quit,
    Help,
    Index(usize),
    Prop(Prop),
    RuleName(RuleName),
}

fn word(token: &Token) -> Word {
    match token {
        Token::Rule => Word::Rule,
        Token::Copy => Word::Copy,
        Token::Premise => Word::Premise,
        Token::Assume => Word::Assume,
        Token::Discharge => Word::Discharge,
        Token::Quit => Word::Quit,
        Token::Help => Word::Help,
        Token::Index(i) => Word::Index(i.0),
        Token::Prop(p) => Word::Prop(p.clone()),
        Token::RuleName(n) => Word::RuleName(*n),
    }
}

fn words(text: &str) -> Result<Vec<(Word, usize)>, SyntaxError> {
    tokenize(text).map(|tokens| tokens.iter().map(|(t, at)| (word(t), *at)).collect())
}

/// The formula grammar, written with parser combinators.
fn combinator_prop() -> impl Parser<char, Prop, Error = Simple<char>> {
    recursive(|prop| {
        let bottom = just("bottom").or(just("⊥")).map(|_| Prop::Bottom);
        let symbol = text::ident().map(Prop::Symbol);
        let atom = bottom
            .or(symbol)
            .or(prop.delimited_by(just('('), just(')')));
        let negate_op = just('-').or(just('¬')).padded();
        let negate = negate_op
            .repeated()
            .then(atom)
            .foldr(|_op, rhs| Prop::Imply(Box::new(rhs), Box::new(Prop::Bottom)));
        let and_op = just('*').or(just('∧')).or(just('&')).or(just('^')).padded();
        let and = negate
            .clone()
            .then(and_op.ignore_then(negate).repeated())
            .foldl(|lhs, rhs| Prop::And(Box::new(lhs), Box::new(rhs)));
        let or_op = just('+').or(just('∨')).or(just('|').or(just('v'))).padded();
        let or = and
            .clone()
            .then(or_op.ignore_then(and).repeated())
            .foldl(|lhs, rhs| Prop::Or(Box::new(lhs), Box::new(rhs)));
        let implies_op = just("->").or(just("⇒")).or(just("→")).padded();
        or.clone()
            .then_ignore(implies_op)
            .repeated()
            .then(or)
            .foldr(|lhs, rhs| Prop::Imply(Box::new(lhs), Box::new(rhs)))
    })
}

/// The rule names, written with parser combinators.
fn combinator_rule_name() -> impl Parser<char, RuleName, Error = Simple<char>> {
    let and_prefix = just("and_").or(just("∧")).or(just("&")).or(just("^"));
    let or_prefix = just("or_").or(just("∨")).or(just("|")).or(just("v"));
    let neg_prefix = just("neg_").or(just("-")).or(just("¬"));
    let imply_prefix = just("imply_").or(just("->")).or(just("⇒")).or(just("→"));
    let double_neg_prefix = just("neg_neg_").or(just("--")).or(just("¬¬"));
    choice((
        and_prefix.then_ignore(just("i")).to(RuleName::AndI),
        and_prefix.then_ignore(just("e_lhs")).to(RuleName::AndELhs),
        and_prefix.then_ignore(just("e_rhs")).to(RuleName::AndERhs),
        or_prefix.then_ignore(just("i_lhs")).to(RuleName::OrILhs),
        or_prefix.then_ignore(just("i_rhs")).to(RuleName::OrIRhs),
        or_prefix.then_ignore(just("e")).to(RuleName::OrE),
        neg_prefix.then_ignore(just("i")).to(RuleName::NegI),
        neg_prefix.then_ignore(just("e")).to(RuleName::NegE),
        imply_prefix.then_ignore(just("i")).to(RuleName::ImplyI),
        imply_prefix.then_ignore(just("e")).to(RuleName::ImplyE),
        just("bottom_e").to(RuleName::BottomE),
        double_neg_prefix.then_ignore(just("e")).to(RuleName::DoubleNegE),
        double_neg_prefix.then_ignore(just("i")).to(RuleName::DoubleNegI),
        just("modus_tollens").or(just("mt")).to(RuleName::ModusTollens),
        just("pbc")
            .or(just("proof_by_contradiction"))
            .to(RuleName::ProofByContradiction),
        just("lem")
            .or(just("law_of_excluded_middle"))
            .to(RuleName::LawOfExcludedMiddle),
    ))
}

/// The tokens of a line, read with parser combinators.
fn combinator_words(text: &str) -> Option<Vec<(Word, usize)>> {
    let index = text::int(10).map(|n: String| Word::Index(n.parse().unwrap()));
    let lexer = choice((
        just("rule").map(|_| Word::Rule),
        just("copy").map(|_| Word::Copy),
        just("premise").map(|_| Word::Premise),
        just("assume").map(|_| Word::Assume),
        just("discharge").map(|_| Word::Discharge),
        just("quit").map(|_| Word::Quit),
        just("help").map(|_| Word::Help),
        index,
        combinator_prop().map(Word::Prop),
        combinator_rule_name().map(Word::RuleName),
    ))
    .map_with_span(|token, span: std::ops::Range<usize>| (token, span.start))
    .padded()
    .repeated()
    .then_ignore(end());
    lexer.parse(text).ok()
}

fn check_against_combinators(text: &str) {
    let ours = words(text);
    let theirs = combinator_words(text);
    match (&ours, &theirs) {
        (Ok(a), Some(b)) => assert_eq!(a, b, "tokens of {:?}", text),
        (Err(_), None) => {}
        _ => panic!("{:?}: {:?} against {:?}", text, ours, theirs),
    }
}

#[test]
fn tokens_agree_with_the_combinator_grammar() {
    let lines = [
        "",
        " ",
        "   \t ",
        "quit",
        "  quit  ",
        "help",
        "discharge",
        "quit help",
        "quithelp",
        "rule",
        "copy 5",
        "copy5",
        "copy 05",
        "copy 007",
        "copy 0",
        "copy 10 20",
        "premise p",
        "premise p & q",
        "premise p&q",
        "premise p ∧ q",
        "premise p * q",
        "premise p ^ q",
        "premise p | q",
        "premise p + q",
        "premise p ∨ q",
        "premise p v q",
        "premise pvq",
        "premise p vq",
        "premise p value",
        "premise p -> q",
        "premise p -> q -> r",
        "premise p ⇒ q",
        "premise p → q",
        "premise p->q->r",
        "premise p -> ",
        "premise p ->",
        "premise p &",
        "premise p & ",
        "premise p |",
        "premise -p",
        "premise - p",
        "premise --p",
        "premise ¬p",
        "premise ¬ ¬ p",
        "premise - - - p",
        "premise -",
        "premise (p)",
        "premise ( p )",
        "premise (p )",
        "premise ( p)",
        "premise (p & q) -> r",
        "premise ((p))",
        "premise ((p)",
        "premise (p))",
        "premise ()",
        "premise (",
        "premise )",
        "premise p & (q | r)",
        "premise (p | q) & r",
        "premise p & q | r",
        "premise p | q & r",
        "premise p & q & r",
        "premise p | q | r",
        "premise (p -> q) -> r",
        "premise -(p & q)",
        "premise -p & q",
        "premise -p -> -q",
        "premise p & -q",
        "premise p &-q",
        "premise p & - q",
        "premise bottom",
        "premise ⊥",
        "premise bottomless",
        "premise bottom_e",
        "premise bottom -> p",
        "premise p -> ⊥",
        "premise _x1",
        "premise x_1",
        "premise 1x",
        "premise x1y2",
        "premise X",
        "premise étoile",
        "premise p é",
        "assume (p | q) -> -q",
        "assume p",
        "assumep",
        "premisep",
        "rulex",
        "copyright",
        "quite",
        "helper",
        "discharged",
        "rule &i 1 2",
        "rule ∧i 1 2",
        "rule ^i 1 2",
        "rule and_i 1 2",
        "rule &e 1",
        "rule &e_lhs 1",
        "rule &e_rhs 1",
        "rule ^e_lhs 3",
        "rule ∧e_rhs 3",
        "rule |i_lhs 1 p",
        "rule |i_rhs p 1",
        "rule ∨i_lhs 1 p | q",
        "rule |e 1 2 3",
        "rule ∨e 1 2 3",
        "rule vi_lhs 1 p",
        "rule ve 1 2 3",
        "rule or_e 1 2 3",
        "rule -i 1",
        "rule -e 1 2",
        "rule ¬i 1",
        "rule ¬e 1 2",
        "rule neg_i 1",
        "rule ->i 1",
        "rule ->e 1 2",
        "rule ⇒i 1",
        "rule →e 1 2",
        "rule imply_i 1",
        "rule bottom_e 1 p",
        "rule --e 1",
        "rule --i 1",
        "rule ¬¬e 1",
        "rule ¬¬i 1",
        "rule neg_neg_e 1",
        "rule mt 1 2",
        "rule modus_tollens 1 2",
        "rule pbc 1",
        "rule proof_by_contradiction 1",
        "rule lem p",
        "rule law_of_excluded_middle p",
        "rule &i1 2",
        "rule &i 12",
        "rule & i 1 2",
        "rule &ix",
        "rule |i 1",
        "rule |",
        "rule ->",
        "rule -> i",
        "rule ⇒",
        "&i",
        "->e",
        "|e|e",
        "&",
        "-",
        "->",
        ">",
        "p q",
        "p,q",
        "1 2 3",
        "123abc",
        "abc123",
        "0",
        "00",
        "01",
        "10",
        "9 9",
        "p\tq",
        "p\nq",
        "\u{a0}quit\u{2003}",
        "quit\u{3000}help",
        "quit\u{200b}",
        "premise p \u{2028}& q",
        "premise p&\u{85}q",
        "!",
        "premise p!",
        "premise p & !",
        "premise p -> q !",
        "rule &i 1 2 x",
        "copy p",
        "premise 1",
        "premise p q",
        "¬",
        "¬¬",
        "∧",
        "∨x",
        "v",
        "vv",
        "v v v",
        "p v v",
        "x*y+z->w",
        "x * y + z -> w",
        "-x*-y",
        "((a|b)&(c|d))->((e))",
        "(a->b)->(c->d)",
        "a->(b->c)->d",
        "(((((a)))))",
        "(a&b",
        "a&b)",
        "a & (b",
        "a -> (b -> ",
        "a | -",
        "a | ---b",
        "bottom&bottom",
        "bottombottom",
        "⊥⊥",
        "⊥p",
        "p⊥",
        "and_i",
        "and_",
        "or_",
        "neg_",
        "mt",
        "lem",
        "pbc",
        "1&i",
        "&i&i",
        "&i1",
        "&e_lhs&e_rhs",
        "&e_l",
        "|i_l",
        "|i_lhs|i_rhs",
        "→i→e",
        "--",
        "--e",
        "---e",
        "-e",
        "- e",
        "-> e",
        "¬¬ e",
        "^",
        "^i",
        "^ i",
        "*",
        "*i",
        "+",
        "+e",
    ];
    for line in lines {
        check_against_combinators(line);
    }
}

#[test]
fn systematic_lines_agree_with_the_combinator_grammar() {
    let pieces = [
        "p", "q", " ", "&", "|", "v", "-", ">", "(", ")", "->", "¬", "1", "0", "i", "e", "rule",
        "copy", "_", "bottom", "⊥",
    ];
    for a in pieces {
        for b in pieces {
            for c in pieces {
                let line = format!("{a}{b}{c}");
                check_against_combinators(&line);
                let padded = format!("{a} {b} {c}");
                check_against_combinators(&padded);
            }
        }
    }
}

#[test]
fn longer_systematic_lines_agree_with_the_combinator_grammar() {
    let pieces = ["p", " ", "&", "v", "-", "(", ")", "->", "1", "i"];
    for a in pieces {
        for b in pieces {
            for c in pieces {
                for d in pieces {
                    let line = format!("{a}{b}{c}{d}");
                    check_against_combinators(&line);
                }
            }
        }
    }
}

#[test]
fn simple_commands() {
    assert!(matches!(parse_command("quit"), Ok(Command::Quit)));
    assert!(matches!(parse_command("  help "), Ok(Command::Help)));
    assert!(matches!(parse_command("discharge"), Ok(Command::Discharge)));
    match parse_command("copy 5").unwrap() {
        Command::Copy(i) => assert_eq!(i, StepIndex(5)),
        other => panic!("{:?}", other),
    }
    match parse_command("premise p & q").unwrap() {
        Command::Premise(p) => assert_eq!(p, and(sym("p"), sym("q"))),
        other => panic!("{:?}", other),
    }
    match parse_command("assume (p | q) -> -q").unwrap() {
        Command::Assume(p) => assert_eq!(p, imply(or(sym("p"), sym("q")), not(sym("q")))),
        other => panic!("{:?}", other),
    }
}

#[test]
fn rule_commands() {
    let cases = [
        ("rule &i 1 2", Rule::AndI(StepIndex(1), StepIndex(2))),
        ("rule ∧e_lhs 3", Rule::AndELhs(StepIndex(3))),
        ("rule ^e_rhs 3", Rule::AndERhs(StepIndex(3))),
        ("rule |i_lhs 1 q", Rule::OrILhs(StepIndex(1), sym("q"))),
        ("rule ∨i_rhs q 1", Rule::OrIRhs(sym("q"), StepIndex(1))),
        (
            "rule |e 1 2 4",
            Rule::OrE {
                or_prop: StepIndex(1),
                lhs_box: StepIndex(2),
                rhs_box: StepIndex(4),
            },
        ),
        ("rule ->i 7", Rule::ImplyI(StepIndex(7))),
        (
            "rule →e 7 8",
            Rule::ImplyE {
                implication: StepIndex(7),
                lhs_proof: StepIndex(8),
            },
        ),
        (
            "rule ⇒e 10 11",
            Rule::ImplyE {
                implication: StepIndex(10),
                lhs_proof: StepIndex(11),
            },
        ),
    ];
    for (line, rule) in cases {
        match parse_command(line).unwrap() {
            Command::Rule(found) => assert_eq!(found, rule, "{}", line),
            other => panic!("{}: {:?}", line, other),
        }
    }
}

#[test]
fn rule_names_that_read_as_formulas_are_formulas() {
    assert_eq!(
        words("rule mt 1 2").unwrap(),
        vec![
            (Word::Rule, 0),
            (Word::Prop(sym("mt")), 5),
            (Word::Index(1), 8),
            (Word::Index(2), 10)
        ]
    );
    assert_eq!(
        parse_command("rule mt 1 2"),
        Err(SyntaxError::UnexpectedToken { at: 5 })
    );
    assert_eq!(
        words("-i 1").unwrap(),
        vec![(Word::Prop(not(sym("i"))), 0), (Word::Index(1), 3)]
    );
    assert_eq!(
        parse_command("rule -i 1"),
        Err(SyntaxError::UnexpectedToken { at: 5 })
    );
}

#[test]
fn keywords_need_no_space_after_them() {
    match parse_command("premisep").unwrap() {
        Command::Premise(p) => assert_eq!(p, sym("p")),
        other => panic!("{:?}", other),
    }
    match parse_command("copy12").unwrap() {
        Command::Copy(i) => assert_eq!(i, StepIndex(12)),
        other => panic!("{:?}", other),
    }
}

#[test]
fn errors_name_the_position() {
    assert_eq!(parse_command(""), Err(SyntaxError::UnexpectedToken { at: 0 }));
    assert_eq!(parse_command("   "), Err(SyntaxError::NoToken { at: 3 }));
    assert_eq!(parse_command("quit !"), Err(SyntaxError::NoToken { at: 5 }));
    assert_eq!(parse_command("?"), Err(SyntaxError::NoToken { at: 0 }));
    assert_eq!(parse_command("copy"), Err(SyntaxError::UnexpectedToken { at: 4 }));
    assert_eq!(parse_command("copy p"), Err(SyntaxError::UnexpectedToken { at: 5 }));
    assert_eq!(parse_command("copy 1 2"), Err(SyntaxError::UnexpectedToken { at: 7 }));
    assert_eq!(parse_command("premise 1"), Err(SyntaxError::UnexpectedToken { at: 8 }));
    assert_eq!(parse_command("premise p q"), Err(SyntaxError::UnexpectedToken { at: 10 }));
    assert_eq!(parse_command("quit quit"), Err(SyntaxError::UnexpectedToken { at: 5 }));
    assert_eq!(parse_command("1"), Err(SyntaxError::UnexpectedToken { at: 0 }));
    assert_eq!(parse_command("p"), Err(SyntaxError::UnexpectedToken { at: 0 }));
    assert_eq!(parse_command("rule"), Err(SyntaxError::UnexpectedToken { at: 4 }));
    assert_eq!(parse_command("rule 1"), Err(SyntaxError::UnexpectedToken { at: 5 }));
    assert_eq!(parse_command("rule &i"), Err(SyntaxError::UnexpectedToken { at: 7 }));
    assert_eq!(parse_command("rule &i 1"), Err(SyntaxError::UnexpectedToken { at: 9 }));
    assert_eq!(parse_command("rule &i 1 q"), Err(SyntaxError::UnexpectedToken { at: 10 }));
    assert_eq!(parse_command("rule &i 1 2 3"), Err(SyntaxError::UnexpectedToken { at: 12 }));
    assert_eq!(parse_command("rule |i_lhs q 1"), Err(SyntaxError::UnexpectedToken { at: 12 }));
    assert_eq!(parse_command("rule |i_rhs 1 q"), Err(SyntaxError::UnexpectedToken { at: 12 }));
    assert_eq!(parse_command("rule |e 1 2"), Err(SyntaxError::UnexpectedToken { at: 11 }));
    assert_eq!(parse_command("premise p -> "), Err(SyntaxError::NoToken { at: 8 }));
    assert_eq!(parse_command("premise (p"), Err(SyntaxError::NoToken { at: 8 }));
}

#[test]
fn numbers_that_do_not_fit_are_no_tokens() {
    let fits = format!("copy {}", usize::MAX);
    match parse_command(&fits).unwrap() {
        Command::Copy(i) => assert_eq!(i, StepIndex(usize::MAX)),
        other => panic!("{:?}", other),
    }
    let too_big = format!("copy {}0", usize::MAX);
    assert_eq!(parse_command(&too_big), Err(SyntaxError::NoToken { at: 5 }));
    let one_more = "copy 18446744073709551616";
    if usize::MAX as u128 == u64::MAX as u128 {
        assert_eq!(parse_command(one_more), Err(SyntaxError::NoToken { at: 5 }));
    }
}

#[test]
fn whole_formulas() {
    assert_eq!(parse_prop("p"), Some(sym("p")));
    assert_eq!(
        parse_prop("p & q | r -> s"),
        Some(imply(or(and(sym("p"), sym("q")), sym("r")), sym("s")))
    );
    assert_eq!(
        parse_prop("p -> q -> r"),
        Some(imply(sym("p"), imply(sym("q"), sym("r"))))
    );
    assert_eq!(
        parse_prop("p & q & r"),
        Some(and(and(sym("p"), sym("q")), sym("r")))
    );
    assert_eq!(parse_prop("--p"), Some(not(not(sym("p")))));
    assert_eq!(parse_prop("-(p|q)"), Some(not(or(sym("p"), sym("q")))));
    assert_eq!(parse_prop("bottom"), Some(Prop::Bottom));
    assert_eq!(parse_prop("⊥ -> p"), Some(imply(Prop::Bottom, sym("p"))));
    assert_eq!(parse_prop("p "), None);
    assert_eq!(parse_prop(" p"), None);
    assert_eq!(parse_prop(""), None);
    assert_eq!(parse_prop("p q"), None);
    assert_eq!(parse_prop("( p )"), None);
}

#[test]
fn formulas_read_back_from_their_text() {
    let props = [
        sym("p"),
        Prop::Bottom,
        and(sym("p"), sym("q")),
        or(and(sym("p"), sym("q")), sym("r")),
        and(sym("p"), or(sym("q"), sym("r"))),
        imply(imply(sym("p"), sym("q")), sym("r")),
        imply(sym("p"), imply(sym("q"), sym("r"))),
        and(and(sym("p"), sym("q")), imply(sym("r"), sym("s"))),
        not(not(sym("p"))),
        or(sym("p"), not(sym("p"))),
    ];
    for p in props {
        assert_eq!(parse_prop(&p.to_string()), Some(p.clone()), "{}", p.to_string());
    }
}

#[test]
fn errors_say_what_went_wrong() {
    let no_token = SyntaxError::NoToken { at: 3 };
    assert_eq!(no_token.position(), 3);
    assert_eq!(no_token.message(10), "Unexpected character in input");
    let unexpected = SyntaxError::UnexpectedToken { at: 4 };
    assert_eq!(unexpected.position(), 4);
    assert_eq!(unexpected.message(10), "Unexpected token in input");
    assert_eq!(unexpected.message(4), "Unexpected end of input");
    assert_eq!(unexpected.message(3), "Unexpected end of input");
}

#[test]
fn tokens_as_text() {
    let tokens = tokenize("rule copy premise assume discharge quit help |e 12 p&q").unwrap();
    let texts: Vec<String> = tokens.iter().map(|(t, _)| t.to_string()).collect();
    assert_eq!(
        texts,
        vec![
            "rule",
            "copy",
            "premise",
            "assume",
            "discharge",
            "quit",
            "help",
            "∨E",
            "12",
            "p ∧ q"
        ]
    );
}
