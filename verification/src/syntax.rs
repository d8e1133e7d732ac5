//! The language of commands.
//!
//! A line of input is first cut into tokens and the tokens are then read as
//! one command. Both steps are defined as spec functions on sequences of
//! characters; [`parse_command`] is proved to compute them.
//!
//! The grammar is a parsing expression grammar: of several alternatives the
//! first that fits is taken for good, and a repetition takes as much as it
//! can. Each recursive definition goes on only where the position has moved
//! forward and lies inside the line.

use vstd::prelude::*;
use vstd::std_specs::cmp::PartialEqSpecImpl;
use vstd::string::*;
use crate::prop::{Prop, PropView, StepIndex, prop_clone, prop_eq};
use crate::rules::{Rule, RuleName, RuleView, rule_clone, rule_eq};
use crate::text::{decimal_string, decimal_text, prop_string, prop_text, rule_name_text};

verus! {

/// Whether a character is white space: the characters that Unicode gives the
/// property `White_Space`.
pub open spec fn is_space(c: char) -> bool {
    let n = c as u32;
    ||| 0x09 <= n <= 0x0d
    ||| n == 0x20
    ||| n == 0x85
    ||| n == 0xa0
    ||| n == 0x1680
    ||| 0x2000 <= n <= 0x200a
    ||| n == 0x2028
    ||| n == 0x2029
    ||| n == 0x202f
    ||| n == 0x205f
    ||| n == 0x3000
}

/// Whether a character is a decimal digit.
pub open spec fn is_digit(c: char) -> bool {
    '0' <= c <= '9'
}

/// Whether a character can begin a name: a letter of the basic alphabet or
/// an underscore.
pub open spec fn is_name_start(c: char) -> bool {
    'a' <= c <= 'z' || 'A' <= c <= 'Z' || c == '_'
}

/// Whether a character can continue a name.
pub open spec fn is_name_part(c: char) -> bool {
    is_name_start(c) || is_digit(c)
}

fn space(c: char) -> (r: bool)
    ensures
        r == is_space(c),
{
    let n = c as u32;
    (0x09 <= n && n <= 0x0d) || n == 0x20 || n == 0x85 || n == 0xa0 || n == 0x1680 || (0x2000 <= n
        && n <= 0x200a) || n == 0x2028 || n == 0x2029 || n == 0x202f || n == 0x205f || n == 0x3000
}

fn digit(c: char) -> (r: bool)
    ensures
        r == is_digit(c),
{
    '0' <= c && c <= '9'
}

fn name_start(c: char) -> (r: bool)
    ensures
        r == is_name_start(c),
{
    ('a' <= c && c <= 'z') || ('A' <= c && c <= 'Z') || c == '_'
}

fn name_part(c: char) -> (r: bool)
    ensures
        r == is_name_part(c),
{
    name_start(c) || digit(c)
}

/// The first position at or after `i` that holds no white space.
pub open spec fn skip_spaces(s: Seq<char>, i: int) -> int
    decreases s.len() - i,
{
    if 0 <= i < s.len() && is_space(s[i]) {
        skip_spaces(s, i + 1)
    } else {
        i
    }
}

/// Whether `lit` stands in `s` at position `i`.
pub open spec fn matches_at(s: Seq<char>, i: int, lit: Seq<char>) -> bool {
    0 <= i && i + lit.len() <= s.len() && s.subrange(i, i + lit.len()) == lit
}

/// Where `lit` ends if it stands in `s` at position `i`.
pub open spec fn lit_end(s: Seq<char>, i: int, lit: Seq<char>) -> Option<int> {
    if matches_at(s, i, lit) {
        Some(i + lit.len())
    } else {
        None
    }
}

/// The first of two alternatives that fits.
pub open spec fn or_else(a: Option<int>, b: Option<int>) -> Option<int> {
    if a is Some {
        a
    } else {
        b
    }
}

/// Where `lit` ends if it follows at once on what ended at `a`.
pub open spec fn then_lit(a: Option<int>, s: Seq<char>, lit: Seq<char>) -> Option<int> {
    match a {
        Some(j) => lit_end(s, j, lit),
        None => None,
    }
}

/// The end of the run of name characters that begins at `i`.
pub open spec fn name_end(s: Seq<char>, i: int) -> int
    decreases s.len() - i,
{
    if 0 <= i < s.len() && is_name_part(s[i]) {
        name_end(s, i + 1)
    } else {
        i
    }
}

/// Where the name ends that begins at `i`, if one does.
pub open spec fn name_at(s: Seq<char>, i: int) -> Option<int> {
    if 0 <= i < s.len() && is_name_start(s[i]) {
        Some(name_end(s, i + 1))
    } else {
        None
    }
}

/// The end of the run of digits that begins at `i`.
pub open spec fn digits_end(s: Seq<char>, i: int) -> int
    decreases s.len() - i,
{
    if 0 <= i < s.len() && is_digit(s[i]) {
        digits_end(s, i + 1)
    } else {
        i
    }
}

/// The number that a sequence of digits denotes.
pub open spec fn decimal_value(digits: Seq<char>) -> nat
    decreases digits.len(),
{
    if digits.len() == 0 {
        0
    } else {
        (decimal_value(digits.drop_last()) * 10 + (digits.last() as nat - '0' as nat)) as nat
    }
}

/// The number that begins at `i`: a single `0`, or digits that begin with
/// another digit than `0`. A number that does not fit the machine's integers
/// is not read.
pub open spec fn index_at(s: Seq<char>, i: int) -> Option<(nat, int)> {
    if 0 <= i < s.len() && s[i] == '0' {
        Some((0nat, i + 1))
    } else if 0 <= i < s.len() && is_digit(s[i]) {
        let end = digits_end(s, i + 1);
        let value = decimal_value(s.subrange(i, end));
        if value <= usize::MAX {
            Some((value, end))
        } else {
            None
        }
    } else {
        None
    }
}

/// Whether a position that a reader reports is the one that the grammar
/// prescribes.
pub open spec fn pos_is(r: Option<usize>, expected: Option<int>, len: usize) -> bool {
    match expected {
        Some(j) => r == Some(j as usize) && 0 <= j <= len,
        None => r is None,
    }
}

/// More digits do not denote a smaller number.
proof fn lemma_decimal_value_grows(digits: Seq<char>, n: int, m: int)
    requires
        0 <= n <= m <= digits.len(),
        forall|k: int| 0 <= k < digits.len() ==> is_digit(#[trigger] digits[k]),
    ensures
        decimal_value(digits.take(n)) <= decimal_value(digits.take(m)),
    decreases m - n,
{
    if n < m {
        lemma_decimal_value_grows(digits, n, m - 1);
        assert(digits.take(m).drop_last() =~= digits.take(m - 1));
        assert(is_digit(digits[m - 1]));
        assert(digits.take(m).last() == digits[m - 1]);
    }
}

fn skip_spaces_from(s: &str, len: usize, i: usize) -> (r: usize)
    requires
        len == s@.len(),
        i <= len,
    ensures
        r == skip_spaces(s@, i as int),
        i <= r <= len,
{
    let mut j = i;
    while j < len && space(s.get_char(j))
        invariant
            len == s@.len(),
            i <= j <= len,
            skip_spaces(s@, i as int) == skip_spaces(s@, j as int),
        decreases len - j,
    {
        j += 1;
    }
    j
}

fn lit_end_at(s: &str, len: usize, i: usize, lit: &str) -> (r: Option<usize>)
    requires
        len == s@.len(),
        i <= len,
    ensures
        pos_is(r, lit_end(s@, i as int, lit@), len),
{
    let n = lit.unicode_len();
    if n > len - i {
        return None;
    }
    let mut k: usize = 0;
    while k < n
        invariant
            len == s@.len(),
            n == lit@.len(),
            i + n <= len,
            k <= n,
            s@.subrange(i as int, i + k) == lit@.subrange(0, k as int),
        decreases n - k,
    {
        if s.get_char(i + k) != lit.get_char(k) {
            proof {
                let whole = s@.subrange(i as int, i + n);
                assert(whole[k as int] == s@[i + k]);
            }
            return None;
        }
        proof {
            assert(s@.subrange(i as int, i + k + 1) =~= s@.subrange(i as int, i + k).push(s@[i + k]));
            assert(lit@.subrange(0, k + 1) =~= lit@.subrange(0, k as int).push(lit@[k as int]));
        }
        k += 1;
    }
    assert(lit@.subrange(0, n as int) =~= lit@);
    Some(i + n)
}

fn first_some(a: Option<usize>, b: Option<usize>) -> (r: Option<usize>)
    ensures
        r == (if a is Some {
            a
        } else {
            b
        }),
{
    match a {
        Some(_) => a,
        None => b,
    }
}

fn then_lit_at(a: Option<usize>, s: &str, len: usize, lit: &str) -> (r: Option<usize>)
    requires
        len == s@.len(),
        a matches Some(j) ==> j <= len,
    ensures
        match a {
            Some(j) => pos_is(r, lit_end(s@, j as int, lit@), len),
            None => r is None,
        },
{
    match a {
        Some(j) => lit_end_at(s, len, j, lit),
        None => None,
    }
}

fn name_end_from(s: &str, len: usize, i: usize) -> (r: usize)
    requires
        len == s@.len(),
        i <= len,
    ensures
        r == name_end(s@, i as int),
        i <= r <= len,
{
    let mut j = i;
    while j < len && name_part(s.get_char(j))
        invariant
            len == s@.len(),
            i <= j <= len,
            name_end(s@, i as int) == name_end(s@, j as int),
        decreases len - j,
    {
        j += 1;
    }
    j
}

fn name_end_at(s: &str, len: usize, i: usize) -> (r: Option<usize>)
    requires
        len == s@.len(),
        i <= len,
    ensures
        pos_is(r, name_at(s@, i as int), len),
        r matches Some(j) ==> j > i,
{
    if i < len && name_start(s.get_char(i)) {
        Some(name_end_from(s, len, i + 1))
    } else {
        None
    }
}

fn digit_value(c: char) -> (r: usize)
    requires
        is_digit(c),
    ensures
        r == c as nat - '0' as nat,
        r <= 9,
{
    (c as u32 - '0' as u32) as usize
}

fn index_end_at(s: &str, len: usize, i: usize) -> (r: Option<(usize, usize)>)
    requires
        len == s@.len(),
        i <= len,
    ensures
        match index_at(s@, i as int) {
            Some((value, end)) => r == Some((value as usize, end as usize)) && i < end <= len
                && value <= usize::MAX,
            None => r is None,
        },
{
    if i >= len {
        return None;
    }
    let first = s.get_char(i);
    if first == '0' {
        return Some((0, i + 1));
    }
    if !digit(first) {
        return None;
    }
    let mut end = i + 1;
    while end < len && digit(s.get_char(end))
        invariant
            len == s@.len(),
            i < end <= len,
            digits_end(s@, i + 1) == digits_end(s@, end as int),
            forall|k: int| i <= k < end ==> is_digit(#[trigger] s@[k]),
        decreases len - end,
    {
        end += 1;
    }
    let ghost digits = s@.subrange(i as int, end as int);
    let mut value: usize = 0;
    let mut k = i;
    assert(digits.take(0) =~= Seq::<char>::empty());
    assert(end == digits_end(s@, i + 1));
    while k < end
        invariant
            len == s@.len(),
            i <= k <= end <= len,
            i < len,
            s@[i as int] != '0',
            is_digit(s@[i as int]),
            end == digits_end(s@, i + 1),
            digits == s@.subrange(i as int, end as int),
            forall|j: int| 0 <= j < digits.len() ==> is_digit(#[trigger] digits[j]),
            value == decimal_value(digits.take(k - i)),
        decreases end - k,
    {
        assert(digits[k - i] == s@[k as int]);
        let d = digit_value(s.get_char(k));
        proof {
            assert(digits.take(k - i + 1).drop_last() =~= digits.take(k - i));
            assert(digits.take(k - i + 1).last() == digits[k - i]);
            lemma_decimal_value_grows(digits, k - i + 1, digits.len() as int);
            assert(digits.take(digits.len() as int) =~= digits);
        }
        if value > (usize::MAX - d) / 10 {
            assert(value * 10 + d > usize::MAX);
            return None;
        }
        value = value * 10 + d;
        k += 1;
    }
    assert(digits.take(end - i) =~= digits);
    Some((value, end))
}

/// The connectives of the formula language.
#[derive(Clone, Copy, Debug, PartialEq, Eq, Structural)]
pub enum Operator {
    Not,
    And,
    Or,
    Implies,
}

/// Where the operator ends that begins at `i`: each operator can be written
/// in several ways.
pub open spec fn operator_end(s: Seq<char>, i: int, op: Operator) -> Option<int> {
    match op {
        Operator::Not => or_else(lit_end(s, i, "-"@), lit_end(s, i, "¬"@)),
        Operator::And => or_else(
            lit_end(s, i, "*"@),
            or_else(lit_end(s, i, "∧"@), or_else(lit_end(s, i, "&"@), lit_end(s, i, "^"@))),
        ),
        Operator::Or => or_else(
            lit_end(s, i, "+"@),
            or_else(lit_end(s, i, "∨"@), or_else(lit_end(s, i, "|"@), lit_end(s, i, "v"@))),
        ),
        Operator::Implies => or_else(
            lit_end(s, i, "->"@),
            or_else(lit_end(s, i, "⇒"@), lit_end(s, i, "→"@)),
        ),
    }
}

/// Where the operator ends that begins at or after `i`, with the white
/// space before and after it.
pub open spec fn padded_operator_end(s: Seq<char>, i: int, op: Operator) -> Option<int> {
    match operator_end(s, skip_spaces(s, i), op) {
        Some(j) => Some(skip_spaces(s, j)),
        None => None,
    }
}

/// Whether `k` lies after `i` and inside `s`.
pub open spec fn ahead(s: Seq<char>, i: int, k: int) -> bool {
    i < k <= s.len()
}

/// An atom: the absurdity, a name, or a formula in parentheses. Inside the
/// parentheses no white space stands next to them.
pub open spec fn atom_at(s: Seq<char>, i: int) -> Option<(PropView, int)>
    decreases s.len() - i, 0int,
{
    match or_else(lit_end(s, i, "bottom"@), lit_end(s, i, "⊥"@)) {
        Some(j) => Some((PropView::Bottom, j)),
        None => match name_at(s, i) {
            Some(j) => Some((PropView::Symbol(s.subrange(i, j)), j)),
            None => {
                if 0 <= i < s.len() && s[i] == '(' {
                    match implies_at(s, i + 1) {
                        Some((p, j)) => {
                            if 0 <= j < s.len() && s[j] == ')' {
                                Some((p, j + 1))
                            } else {
                                None
                            }
                        },
                        None => None,
                    }
                } else {
                    None
                }
            },
        },
    }
}

/// Any number of negations before an atom.
pub open spec fn negate_at(s: Seq<char>, i: int) -> Option<(PropView, int)>
    decreases s.len() - i, 1int,
{
    match padded_operator_end(s, i, Operator::Not) {
        Some(j) => {
            if ahead(s, i, j) {
                match negate_at(s, j) {
                    Some((p, k)) => Some((p.negated(), k)),
                    None => None,
                }
            } else {
                None
            }
        },
        None => atom_at(s, i),
    }
}

/// The conjuncts that follow `acc`, joined to it from the left.
pub open spec fn and_tail(s: Seq<char>, acc: PropView, i: int) -> (PropView, int)
    decreases s.len() - i, 2int,
{
    match padded_operator_end(s, i, Operator::And) {
        Some(j) => {
            if ahead(s, i, j) {
                match negate_at(s, j) {
                    Some((p, k)) => {
                        if ahead(s, i, k) {
                            and_tail(s, PropView::And(Box::new(acc), Box::new(p)), k)
                        } else {
                            (acc, i)
                        }
                    },
                    None => (acc, i),
                }
            } else {
                (acc, i)
            }
        },
        None => (acc, i),
    }
}

/// One or more negations joined by `∧`.
pub open spec fn and_at(s: Seq<char>, i: int) -> Option<(PropView, int)>
    decreases s.len() - i, 3int,
{
    match negate_at(s, i) {
        Some((p, j)) => {
            if ahead(s, i, j) {
                Some(and_tail(s, p, j))
            } else {
                None
            }
        },
        None => None,
    }
}

/// The disjuncts that follow `acc`, joined to it from the left.
pub open spec fn or_tail(s: Seq<char>, acc: PropView, i: int) -> (PropView, int)
    decreases s.len() - i, 4int,
{
    match padded_operator_end(s, i, Operator::Or) {
        Some(j) => {
            if ahead(s, i, j) {
                match and_at(s, j) {
                    Some((p, k)) => {
                        if ahead(s, i, k) {
                            or_tail(s, PropView::Or(Box::new(acc), Box::new(p)), k)
                        } else {
                            (acc, i)
                        }
                    },
                    None => (acc, i),
                }
            } else {
                (acc, i)
            }
        },
        None => (acc, i),
    }
}

/// One or more conjunctions joined by `∨`.
pub open spec fn or_at(s: Seq<char>, i: int) -> Option<(PropView, int)>
    decreases s.len() - i, 5int,
{
    match and_at(s, i) {
        Some((p, j)) => {
            if ahead(s, i, j) {
                Some(or_tail(s, p, j))
            } else {
                None
            }
        },
        None => None,
    }
}

/// One or more disjunctions joined by `→`, which associates to the right.
/// An arrow that nothing follows spoils the whole formula.
pub open spec fn implies_at(s: Seq<char>, i: int) -> Option<(PropView, int)>
    decreases s.len() - i, 6int,
{
    match or_at(s, i) {
        Some((p, j)) => match padded_operator_end(s, j, Operator::Implies) {
            Some(k) => {
                if ahead(s, i, k) {
                    match implies_at(s, k) {
                        Some((q, m)) => Some((PropView::Imply(Box::new(p), Box::new(q)), m)),
                        None => None,
                    }
                } else {
                    None
                }
            },
            None => Some((p, j)),
        },
        None => None,
    }
}

/// The formula that begins at `i`.
pub open spec fn prop_at(s: Seq<char>, i: int) -> Option<(PropView, int)> {
    implies_at(s, i)
}

/// Whether a formula that a reader reports is the one that the grammar
/// prescribes.
pub open spec fn prop_is(
    r: Option<(Prop, usize)>,
    expected: Option<(PropView, int)>,
    len: usize,
) -> bool {
    match expected {
        Some((p, j)) => r matches Some((q, k)) && q@ == p && k == j && 0 <= j <= len,
        None => r is None,
    }
}

fn operator_end_at(s: &str, len: usize, i: usize, op: Operator) -> (r: Option<usize>)
    requires
        len == s@.len(),
        i <= len,
    ensures
        pos_is(r, operator_end(s@, i as int, op), len),
{
    match op {
        Operator::Not => first_some(lit_end_at(s, len, i, "-"), lit_end_at(s, len, i, "¬")),
        Operator::And => first_some(
            lit_end_at(s, len, i, "*"),
            first_some(
                lit_end_at(s, len, i, "∧"),
                first_some(lit_end_at(s, len, i, "&"), lit_end_at(s, len, i, "^")),
            ),
        ),
        Operator::Or => first_some(
            lit_end_at(s, len, i, "+"),
            first_some(
                lit_end_at(s, len, i, "∨"),
                first_some(lit_end_at(s, len, i, "|"), lit_end_at(s, len, i, "v")),
            ),
        ),
        Operator::Implies => first_some(
            lit_end_at(s, len, i, "->"),
            first_some(lit_end_at(s, len, i, "⇒"), lit_end_at(s, len, i, "→")),
        ),
    }
}

fn padded_operator_end_at(s: &str, len: usize, i: usize, op: Operator) -> (r: Option<usize>)
    requires
        len == s@.len(),
        i <= len,
    ensures
        pos_is(r, padded_operator_end(s@, i as int, op), len),
{
    let start = skip_spaces_from(s, len, i);
    match operator_end_at(s, len, start, op) {
        Some(j) => Some(skip_spaces_from(s, len, j)),
        None => None,
    }
}

fn parse_atom(s: &str, len: usize, i: usize) -> (r: Option<(Prop, usize)>)
    requires
        len == s@.len(),
        i <= len,
    ensures
        prop_is(r, atom_at(s@, i as int), len),
    decreases len - i, 0int,
{
    if let Some(j) = lit_end_at(s, len, i, "bottom") {
        return Some((Prop::Bottom, j));
    }
    if let Some(j) = lit_end_at(s, len, i, "⊥") {
        return Some((Prop::Bottom, j));
    }
    if let Some(j) = name_end_at(s, len, i) {
        let name = String::from_str(s.substring_char(i, j));
        return Some((Prop::Symbol(name), j));
    }
    if i < len && s.get_char(i) == '(' {
        match parse_implies(s, len, i + 1) {
            Some((p, j)) => {
                if j < len && s.get_char(j) == ')' {
                    Some((p, j + 1))
                } else {
                    None
                }
            },
            None => None,
        }
    } else {
        None
    }
}

fn parse_negate(s: &str, len: usize, i: usize) -> (r: Option<(Prop, usize)>)
    requires
        len == s@.len(),
        i <= len,
    ensures
        prop_is(r, negate_at(s@, i as int), len),
    decreases len - i, 1int,
{
    match padded_operator_end_at(s, len, i, Operator::Not) {
        Some(j) => {
            if j > i {
                match parse_negate(s, len, j) {
                    Some((p, k)) => Some((Prop::negated(p), k)),
                    None => None,
                }
            } else {
                None
            }
        },
        None => parse_atom(s, len, i),
    }
}

fn parse_and_tail(s: &str, len: usize, acc: Prop, i: usize) -> (r: (Prop, usize))
    requires
        len == s@.len(),
        i <= len,
    ensures
        r.0@ == and_tail(s@, acc@, i as int).0,
        r.1 == and_tail(s@, acc@, i as int).1,
        r.1 <= len,
    decreases len - i, 2int,
{
    match padded_operator_end_at(s, len, i, Operator::And) {
        Some(j) => {
            if j > i {
                match parse_negate(s, len, j) {
                    Some((p, k)) => {
                        if k > i {
                            parse_and_tail(s, len, Prop::And(Box::new(acc), Box::new(p)), k)
                        } else {
                            (acc, i)
                        }
                    },
                    None => (acc, i),
                }
            } else {
                (acc, i)
            }
        },
        None => (acc, i),
    }
}

fn parse_and(s: &str, len: usize, i: usize) -> (r: Option<(Prop, usize)>)
    requires
        len == s@.len(),
        i <= len,
    ensures
        prop_is(r, and_at(s@, i as int), len),
    decreases len - i, 3int,
{
    match parse_negate(s, len, i) {
        Some((p, j)) => {
            if j > i {
                Some(parse_and_tail(s, len, p, j))
            } else {
                None
            }
        },
        None => None,
    }
}

fn parse_or_tail(s: &str, len: usize, acc: Prop, i: usize) -> (r: (Prop, usize))
    requires
        len == s@.len(),
        i <= len,
    ensures
        r.0@ == or_tail(s@, acc@, i as int).0,
        r.1 == or_tail(s@, acc@, i as int).1,
        r.1 <= len,
    decreases len - i, 4int,
{
    match padded_operator_end_at(s, len, i, Operator::Or) {
        Some(j) => {
            if j > i {
                match parse_and(s, len, j) {
                    Some((p, k)) => {
                        if k > i {
                            parse_or_tail(s, len, Prop::Or(Box::new(acc), Box::new(p)), k)
                        } else {
                            (acc, i)
                        }
                    },
                    None => (acc, i),
                }
            } else {
                (acc, i)
            }
        },
        None => (acc, i),
    }
}

fn parse_or(s: &str, len: usize, i: usize) -> (r: Option<(Prop, usize)>)
    requires
        len == s@.len(),
        i <= len,
    ensures
        prop_is(r, or_at(s@, i as int), len),
    decreases len - i, 5int,
{
    match parse_and(s, len, i) {
        Some((p, j)) => {
            if j > i {
                Some(parse_or_tail(s, len, p, j))
            } else {
                None
            }
        },
        None => None,
    }
}

fn parse_implies(s: &str, len: usize, i: usize) -> (r: Option<(Prop, usize)>)
    requires
        len == s@.len(),
        i <= len,
    ensures
        prop_is(r, implies_at(s@, i as int), len),
    decreases len - i, 6int,
{
    match parse_or(s, len, i) {
        Some((p, j)) => match padded_operator_end_at(s, len, j, Operator::Implies) {
            Some(k) => {
                if k > i {
                    match parse_implies(s, len, k) {
                        Some((q, m)) => Some((Prop::Imply(Box::new(p), Box::new(q)), m)),
                        None => None,
                    }
                } else {
                    None
                }
            },
            None => Some((p, j)),
        },
        None => None,
    }
}

/// Reads a formula that takes up the whole of `text`.
pub fn parse_prop(text: &str) -> (r: Option<Prop>)
    ensures
        match prop_at(text@, 0) {
            Some((p, end)) => if end == text@.len() {
                r matches Some(q) && q@ == p
            } else {
                r is None
            },
            None => r is None,
        },
{
    let len = text.unicode_len();
    match parse_implies(text, len, 0) {
        Some((p, end)) => {
            if end == len {
                Some(p)
            } else {
                None
            }
        },
        None => None,
    }
}

/// One word of a command.
#[derive(Debug)]
pub enum Token {
    Rule,
    Copy,
    Premise,
    Assume,
    Discharge,
    Quit,
    Help,
    Index(StepIndex),
    Prop(Prop),
    RuleName(RuleName),
}

/// The model of a [`Token`].
pub ghost enum TokenView {
    Rule,
    Copy,
    Premise,
    Assume,
    Discharge,
    Quit,
    Help,
    Index(nat),
    Prop(PropView),
    RuleName(RuleName),
}

impl View for Token {
    type V = TokenView;

    open spec fn view(&self) -> TokenView {
        match *self {
            Token::Rule => TokenView::Rule,
            Token::Copy => TokenView::Copy,
            Token::Premise => TokenView::Premise,
            Token::Assume => TokenView::Assume,
            Token::Discharge => TokenView::Discharge,
            Token::Quit => TokenView::Quit,
            Token::Help => TokenView::Help,
            Token::Index(i) => TokenView::Index(i@),
            Token::Prop(p) => TokenView::Prop(p@),
            Token::RuleName(name) => TokenView::RuleName(name),
        }
    }
}

/// A token as it is shown to the user.
pub open spec fn token_text(token: TokenView) -> Seq<char> {
    match token {
        TokenView::Rule => "rule"@,
        TokenView::Copy => "copy"@,
        TokenView::Premise => "premise"@,
        TokenView::Assume => "assume"@,
        TokenView::Discharge => "discharge"@,
        TokenView::Quit => "quit"@,
        TokenView::Help => "help"@,
        TokenView::Index(i) => decimal_text(i),
        TokenView::Prop(p) => prop_text(p),
        TokenView::RuleName(name) => rule_name_text(name),
    }
}

impl Token {
    /// The token as text: see [`token_text`].
    pub fn to_string(&self) -> (r: String)
        ensures
            r@ == token_text(self@),
    {
        match self {
            Token::Rule => String::from_str("rule"),
            Token::Copy => String::from_str("copy"),
            Token::Premise => String::from_str("premise"),
            Token::Assume => String::from_str("assume"),
            Token::Discharge => String::from_str("discharge"),
            Token::Quit => String::from_str("quit"),
            Token::Help => String::from_str("help"),
            Token::Index(i) => decimal_string(i.0),
            Token::Prop(p) => prop_string(p),
            Token::RuleName(name) => name.to_string(),
        }
    }
}

/// A command to the proof assistant.
#[derive(Debug)]
pub enum Command {
    Rule(Rule),
    Copy(StepIndex),
    Premise(Prop),
    Assume(Prop),
    Discharge,
    Quit,
    Help,
}

/// The model of a [`Command`].
pub ghost enum CommandView {
    Rule(RuleView),
    Copy(nat),
    Premise(PropView),
    Assume(PropView),
    Discharge,
    Quit,
    Help,
}

impl View for Command {
    type V = CommandView;

    open spec fn view(&self) -> CommandView {
        match *self {
            Command::Rule(rule) => CommandView::Rule(rule@),
            Command::Copy(i) => CommandView::Copy(i@),
            Command::Premise(p) => CommandView::Premise(p@),
            Command::Assume(p) => CommandView::Assume(p@),
            Command::Discharge => CommandView::Discharge,
            Command::Quit => CommandView::Quit,
            Command::Help => CommandView::Help,
        }
    }
}

impl Clone for Command {
    fn clone(&self) -> (r: Self)
        ensures
            r@ == self@,
    {
        match self {
            Command::Rule(rule) => Command::Rule(rule_clone(rule)),
            Command::Copy(i) => Command::Copy(*i),
            Command::Premise(p) => Command::Premise(prop_clone(p)),
            Command::Assume(p) => Command::Assume(prop_clone(p)),
            Command::Discharge => Command::Discharge,
            Command::Quit => Command::Quit,
            Command::Help => Command::Help,
        }
    }
}

impl PartialEq for Command {
    fn eq(&self, other: &Self) -> (r: bool) {
        match (self, other) {
            (Command::Rule(a), Command::Rule(b)) => rule_eq(a, b),
            (Command::Copy(a), Command::Copy(b)) => a.0 == b.0,
            (Command::Premise(a), Command::Premise(b)) => prop_eq(a, b),
            (Command::Assume(a), Command::Assume(b)) => prop_eq(a, b),
            (Command::Discharge, Command::Discharge) => true,
            (Command::Quit, Command::Quit) => true,
            (Command::Help, Command::Help) => true,
            _ => false,
        }
    }
}

impl PartialEqSpecImpl for Command {
    open spec fn obeys_eq_spec() -> bool {
        true
    }

    open spec fn eq_spec(&self, other: &Self) -> bool {
        self@ == other@
    }
}

impl Eq for Command {

}

/// Why a line is no command. Positions count characters from zero.
#[derive(Clone, Copy, Debug, PartialEq, Eq, Structural)]
pub enum SyntaxError {
    /// No word of the language begins at this position. The position is the
    /// length of the line where the line holds white space only.
    NoToken { at: usize },
    /// The word that begins at this position is not what a command needs
    /// there. The position is the length of the line where the line ends
    /// too early.
    UnexpectedToken { at: usize },
}

/// The position that an error names.
pub open spec fn error_position(e: SyntaxError) -> usize {
    match e {
        SyntaxError::NoToken { at } => at,
        SyntaxError::UnexpectedToken { at } => at,
    }
}

/// What an error says about a line of `len` characters.
pub open spec fn error_message(e: SyntaxError, len: usize) -> Seq<char> {
    match e {
        SyntaxError::NoToken { at } => "Unexpected character in input"@,
        SyntaxError::UnexpectedToken { at } => if at >= len {
            "Unexpected end of input"@
        } else {
            "Unexpected token in input"@
        },
    }
}

impl SyntaxError {
    /// The position in the line that the error names.
    pub fn position(&self) -> (r: usize)
        ensures
            r == error_position(*self),
    {
        match self {
            SyntaxError::NoToken { at } => *at,
            SyntaxError::UnexpectedToken { at } => *at,
        }
    }

    /// What to tell the user about a line of `len` characters.
    pub fn message(&self, len: usize) -> (r: &'static str)
        ensures
            r@ == error_message(*self, len),
    {
        match self {
            SyntaxError::NoToken { .. } => "Unexpected character in input",
            SyntaxError::UnexpectedToken { at } => {
                if *at >= len {
                    "Unexpected end of input"
                } else {
                    "Unexpected token in input"
                }
            },
        }
    }
}

/// The written form of one of the words that a command begins with.
pub open spec fn keyword_at(s: Seq<char>, i: int) -> Option<(TokenView, int)> {
    if lit_end(s, i, "rule"@) is Some {
        Some((TokenView::Rule, lit_end(s, i, "rule"@)->0))
    } else if lit_end(s, i, "copy"@) is Some {
        Some((TokenView::Copy, lit_end(s, i, "copy"@)->0))
    } else if lit_end(s, i, "premise"@) is Some {
        Some((TokenView::Premise, lit_end(s, i, "premise"@)->0))
    } else if lit_end(s, i, "assume"@) is Some {
        Some((TokenView::Assume, lit_end(s, i, "assume"@)->0))
    } else if lit_end(s, i, "discharge"@) is Some {
        Some((TokenView::Discharge, lit_end(s, i, "discharge"@)->0))
    } else if lit_end(s, i, "quit"@) is Some {
        Some((TokenView::Quit, lit_end(s, i, "quit"@)->0))
    } else if lit_end(s, i, "help"@) is Some {
        Some((TokenView::Help, lit_end(s, i, "help"@)->0))
    } else {
        None
    }
}

/// The ways to begin the name of a rule for `∧`.
pub open spec fn and_prefix_end(s: Seq<char>, i: int) -> Option<int> {
    or_else(
        lit_end(s, i, "and_"@),
        or_else(lit_end(s, i, "∧"@), or_else(lit_end(s, i, "&"@), lit_end(s, i, "^"@))),
    )
}

/// The ways to begin the name of a rule for `∨`.
pub open spec fn or_prefix_end(s: Seq<char>, i: int) -> Option<int> {
    or_else(
        lit_end(s, i, "or_"@),
        or_else(lit_end(s, i, "∨"@), or_else(lit_end(s, i, "|"@), lit_end(s, i, "v"@))),
    )
}

/// The ways to begin the name of a rule for `¬`.
pub open spec fn neg_prefix_end(s: Seq<char>, i: int) -> Option<int> {
    or_else(lit_end(s, i, "neg_"@), or_else(lit_end(s, i, "-"@), lit_end(s, i, "¬"@)))
}

/// The ways to begin the name of a rule for `→`.
pub open spec fn imply_prefix_end(s: Seq<char>, i: int) -> Option<int> {
    or_else(
        lit_end(s, i, "imply_"@),
        or_else(lit_end(s, i, "->"@), or_else(lit_end(s, i, "⇒"@), lit_end(s, i, "→"@))),
    )
}

/// The ways to begin the name of a rule for `¬¬`.
pub open spec fn double_neg_prefix_end(s: Seq<char>, i: int) -> Option<int> {
    or_else(lit_end(s, i, "neg_neg_"@), or_else(lit_end(s, i, "--"@), lit_end(s, i, "¬¬"@)))
}

/// One way to write a rule's name, with where it ends.
pub open spec fn named(end: Option<int>, name: RuleName) -> Option<(RuleName, int)> {
    match end {
        Some(j) => Some((name, j)),
        None => None,
    }
}

/// The first of two ways to write a rule's name that fits.
pub open spec fn or_named(a: Option<(RuleName, int)>, b: Option<(RuleName, int)>) -> Option<
    (RuleName, int),
> {
    if a is Some {
        a
    } else {
        b
    }
}

/// The name of a rule, in the order in which the ways to write one are
/// tried.
pub open spec fn rule_name_at(s: Seq<char>, i: int) -> Option<(RuleName, int)> {
    or_named(
        named(then_lit(and_prefix_end(s, i), s, "i"@), RuleName::AndI),
        or_named(
            named(then_lit(and_prefix_end(s, i), s, "e_lhs"@), RuleName::AndELhs),
            or_named(
                named(then_lit(and_prefix_end(s, i), s, "e_rhs"@), RuleName::AndERhs),
                or_named(
                    named(then_lit(or_prefix_end(s, i), s, "i_lhs"@), RuleName::OrILhs),
                    or_named(
                        named(then_lit(or_prefix_end(s, i), s, "i_rhs"@), RuleName::OrIRhs),
                        or_named(
                            named(then_lit(or_prefix_end(s, i), s, "e"@), RuleName::OrE),
                            rule_name_rest_at(s, i),
                        ),
                    ),
                ),
            ),
        ),
    )
}

/// The names of the rules that are tried after those for `∧` and `∨`.
pub open spec fn rule_name_rest_at(s: Seq<char>, i: int) -> Option<(RuleName, int)> {
    or_named(
        named(then_lit(neg_prefix_end(s, i), s, "i"@), RuleName::NegI),
        or_named(
            named(then_lit(neg_prefix_end(s, i), s, "e"@), RuleName::NegE),
            or_named(
                named(then_lit(imply_prefix_end(s, i), s, "i"@), RuleName::ImplyI),
                or_named(
                    named(then_lit(imply_prefix_end(s, i), s, "e"@), RuleName::ImplyE),
                    or_named(
                        named(lit_end(s, i, "bottom_e"@), RuleName::BottomE),
                        or_named(
                            named(
                                then_lit(double_neg_prefix_end(s, i), s, "e"@),
                                RuleName::DoubleNegE,
                            ),
                            or_named(
                                named(
                                    then_lit(double_neg_prefix_end(s, i), s, "i"@),
                                    RuleName::DoubleNegI,
                                ),
                                or_named(
                                    named(
                                        or_else(
                                            lit_end(s, i, "modus_tollens"@),
                                            lit_end(s, i, "mt"@),
                                        ),
                                        RuleName::ModusTollens,
                                    ),
                                    or_named(
                                        named(
                                            or_else(
                                                lit_end(s, i, "pbc"@),
                                                lit_end(s, i, "proof_by_contradiction"@),
                                            ),
                                            RuleName::ProofByContradiction,
                                        ),
                                        named(
                                            or_else(
                                                lit_end(s, i, "lem"@),
                                                lit_end(s, i, "law_of_excluded_middle"@),
                                            ),
                                            RuleName::LawOfExcludedMiddle,
                                        ),
                                    ),
                                ),
                            ),
                        ),
                    ),
                ),
            ),
        ),
    )
}

/// The token that begins at `i`. A keyword is tried first, then a number,
/// then a formula, then the name of a rule: what reads as a formula is never
/// read as the name of a rule.
pub open spec fn token_at(s: Seq<char>, i: int) -> Option<(TokenView, int)> {
    match keyword_at(s, i) {
        Some(found) => Some(found),
        None => match index_at(s, i) {
            Some((value, end)) => Some((TokenView::Index(value), end)),
            None => match prop_at(s, i) {
                Some((p, end)) => Some((TokenView::Prop(p), end)),
                None => match rule_name_at(s, i) {
                    Some((name, end)) => Some((TokenView::RuleName(name), end)),
                    None => None,
                },
            },
        },
    }
}

/// The tokens from `i` on, after those of `acc`, each with the position at
/// which it begins, and the position up to which the line was read.
pub open spec fn tokens_from(s: Seq<char>, i: int, acc: Seq<(TokenView, int)>) -> (
    Seq<(TokenView, int)>,
    int,
)
    decreases s.len() - i,
{
    let start = skip_spaces(s, i);
    match token_at(s, start) {
        Some((token, end)) => {
            let next = skip_spaces(s, end);
            if start < end && ahead(s, i, next) {
                tokens_from(s, next, acc.push((token, start)))
            } else {
                (acc, i)
            }
        },
        None => (acc, i),
    }
}

/// The tokens of a line, or the position at which none begins.
pub open spec fn lex(s: Seq<char>) -> Result<Seq<(TokenView, int)>, SyntaxError> {
    let (tokens, end) = tokens_from(s, 0, Seq::empty());
    if end == s.len() {
        Ok(tokens)
    } else {
        Err(SyntaxError::NoToken { at: skip_spaces(s, end) as usize })
    }
}

/// What a command takes after its first words.
#[derive(Clone, Copy, Debug, PartialEq, Eq, Structural)]
pub enum Shape {
    Index,
    TwoIndices,
    ThreeIndices,
    IndexProp,
    PropIndex,
    Prop,
}

/// What each rule takes.
pub open spec fn shape_of(name: RuleName) -> Shape {
    match name {
        RuleName::AndI => Shape::TwoIndices,
        RuleName::AndELhs => Shape::Index,
        RuleName::AndERhs => Shape::Index,
        RuleName::OrILhs => Shape::IndexProp,
        RuleName::OrIRhs => Shape::PropIndex,
        RuleName::OrE => Shape::ThreeIndices,
        RuleName::NegI => Shape::Index,
        RuleName::NegE => Shape::TwoIndices,
        RuleName::ImplyI => Shape::Index,
        RuleName::ImplyE => Shape::TwoIndices,
        RuleName::BottomE => Shape::IndexProp,
        RuleName::DoubleNegE => Shape::Index,
        RuleName::ModusTollens => Shape::TwoIndices,
        RuleName::DoubleNegI => Shape::Index,
        RuleName::ProofByContradiction => Shape::Index,
        RuleName::LawOfExcludedMiddle => Shape::Prop,
    }
}

/// The arguments of a rule as they were read: what a shape does not ask for
/// is left at zero or at `⊥`.
pub ghost struct ArgsView {
    pub a: nat,
    pub b: nat,
    pub c: nat,
    pub prop: PropView,
}

/// The rule of the given name with the given arguments.
pub open spec fn rule_of(name: RuleName, args: ArgsView) -> RuleView {
    match name {
        RuleName::AndI => RuleView::AndI(args.a, args.b),
        RuleName::AndELhs => RuleView::AndELhs(args.a),
        RuleName::AndERhs => RuleView::AndERhs(args.a),
        RuleName::OrILhs => RuleView::OrILhs(args.a, args.prop),
        RuleName::OrIRhs => RuleView::OrIRhs(args.prop, args.a),
        RuleName::OrE => RuleView::OrE { or_prop: args.a, lhs_box: args.b, rhs_box: args.c },
        RuleName::NegI => RuleView::NegI(args.a),
        RuleName::NegE => RuleView::NegE { prop: args.a, neg_prop: args.b },
        RuleName::ImplyI => RuleView::ImplyI(args.a),
        RuleName::ImplyE => RuleView::ImplyE { implication: args.a, lhs_proof: args.b },
        RuleName::BottomE => RuleView::BottomE(args.a, args.prop),
        RuleName::DoubleNegE => RuleView::DoubleNegE(args.a),
        RuleName::ModusTollens => RuleView::ModusTollens {
            implication: args.a,
            negated_rhs: args.b,
        },
        RuleName::DoubleNegI => RuleView::DoubleNegI(args.a),
        RuleName::ProofByContradiction => RuleView::ProofByContradiction(args.a),
        RuleName::LawOfExcludedMiddle => RuleView::LawOfExcludedMiddle(args.prop),
    }
}

/// The position to blame where token `k` is not what is needed: where it
/// begins, or the length of the line where there is no such token.
pub open spec fn blame(tokens: Seq<(TokenView, int)>, k: int, len: int) -> SyntaxError {
    if 0 <= k < tokens.len() {
        SyntaxError::UnexpectedToken { at: tokens[k].1 as usize }
    } else {
        SyntaxError::UnexpectedToken { at: len as usize }
    }
}

/// The number that token `k` holds.
pub open spec fn index_arg(tokens: Seq<(TokenView, int)>, k: int, len: int) -> Result<
    nat,
    SyntaxError,
> {
    if 0 <= k < tokens.len() && tokens[k].0 is Index {
        Ok(tokens[k].0->Index_0)
    } else {
        Err(blame(tokens, k, len))
    }
}

/// The formula that token `k` holds.
pub open spec fn prop_arg(tokens: Seq<(TokenView, int)>, k: int, len: int) -> Result<
    PropView,
    SyntaxError,
> {
    if 0 <= k < tokens.len() && tokens[k].0 is Prop {
        Ok(tokens[k].0->Prop_0)
    } else {
        Err(blame(tokens, k, len))
    }
}

/// The arguments of the given shape from token `k` on, with nothing after
/// them. Of several faults the first one is reported.
pub open spec fn args_from(tokens: Seq<(TokenView, int)>, k: int, len: int, shape: Shape) -> Result<
    ArgsView,
    SyntaxError,
> {
    let none = ArgsView { a: 0, b: 0, c: 0, prop: PropView::Bottom };
    match shape {
        Shape::Index => match index_arg(tokens, k, len) {
            Err(e) => Err(e),
            Ok(a) => if tokens.len() > k + 1 {
                Err(blame(tokens, k + 1, len))
            } else {
                Ok(ArgsView { a, ..none })
            },
        },
        Shape::TwoIndices => match index_arg(tokens, k, len) {
            Err(e) => Err(e),
            Ok(a) => match index_arg(tokens, k + 1, len) {
                Err(e) => Err(e),
                Ok(b) => if tokens.len() > k + 2 {
                    Err(blame(tokens, k + 2, len))
                } else {
                    Ok(ArgsView { a, b, ..none })
                },
            },
        },
        Shape::ThreeIndices => match index_arg(tokens, k, len) {
            Err(e) => Err(e),
            Ok(a) => match index_arg(tokens, k + 1, len) {
                Err(e) => Err(e),
                Ok(b) => match index_arg(tokens, k + 2, len) {
                    Err(e) => Err(e),
                    Ok(c) => if tokens.len() > k + 3 {
                        Err(blame(tokens, k + 3, len))
                    } else {
                        Ok(ArgsView { a, b, c, ..none })
                    },
                },
            },
        },
        Shape::IndexProp => match index_arg(tokens, k, len) {
            Err(e) => Err(e),
            Ok(a) => match prop_arg(tokens, k + 1, len) {
                Err(e) => Err(e),
                Ok(prop) => if tokens.len() > k + 2 {
                    Err(blame(tokens, k + 2, len))
                } else {
                    Ok(ArgsView { a, prop, ..none })
                },
            },
        },
        Shape::PropIndex => match prop_arg(tokens, k, len) {
            Err(e) => Err(e),
            Ok(prop) => match index_arg(tokens, k + 1, len) {
                Err(e) => Err(e),
                Ok(a) => if tokens.len() > k + 2 {
                    Err(blame(tokens, k + 2, len))
                } else {
                    Ok(ArgsView { a, prop, ..none })
                },
            },
        },
        Shape::Prop => match prop_arg(tokens, k, len) {
            Err(e) => Err(e),
            Ok(prop) => if tokens.len() > k + 1 {
                Err(blame(tokens, k + 1, len))
            } else {
                Ok(ArgsView { prop, ..none })
            },
        },
    }
}

/// The command that the tokens of a line of `len` characters form.
pub open spec fn command_of(tokens: Seq<(TokenView, int)>, len: int) -> Result<
    CommandView,
    SyntaxError,
> {
    if tokens.len() == 0 {
        Err(blame(tokens, 0, len))
    } else {
        match tokens[0].0 {
            TokenView::Copy => match args_from(tokens, 1, len, Shape::Index) {
                Ok(args) => Ok(CommandView::Copy(args.a)),
                Err(e) => Err(e),
            },
            TokenView::Premise => match args_from(tokens, 1, len, Shape::Prop) {
                Ok(args) => Ok(CommandView::Premise(args.prop)),
                Err(e) => Err(e),
            },
            TokenView::Assume => match args_from(tokens, 1, len, Shape::Prop) {
                Ok(args) => Ok(CommandView::Assume(args.prop)),
                Err(e) => Err(e),
            },
            TokenView::Rule => {
                if tokens.len() > 1 && tokens[1].0 is RuleName {
                    let name = tokens[1].0->RuleName_0;
                    match args_from(tokens, 2, len, shape_of(name)) {
                        Ok(args) => Ok(CommandView::Rule(rule_of(name, args))),
                        Err(e) => Err(e),
                    }
                } else {
                    Err(blame(tokens, 1, len))
                }
            },
            TokenView::Discharge => if tokens.len() > 1 {
                Err(blame(tokens, 1, len))
            } else {
                Ok(CommandView::Discharge)
            },
            TokenView::Quit => if tokens.len() > 1 {
                Err(blame(tokens, 1, len))
            } else {
                Ok(CommandView::Quit)
            },
            TokenView::Help => if tokens.len() > 1 {
                Err(blame(tokens, 1, len))
            } else {
                Ok(CommandView::Help)
            },
            _ => Err(blame(tokens, 0, len)),
        }
    }
}

/// The command that a line is, or why it is none.
pub open spec fn command_text(s: Seq<char>) -> Result<CommandView, SyntaxError> {
    match lex(s) {
        Ok(tokens) => command_of(tokens, s.len() as int),
        Err(e) => Err(e),
    }
}

/// The tokens of a line as the parser holds them.
pub open spec fn tokens_view(tokens: Seq<(Token, usize)>) -> Seq<(TokenView, int)> {
    Seq::new(tokens.len(), |k: int| (tokens[k].0@, tokens[k].1 as int))
}

/// The model of what the argument reader hands on.
pub open spec fn args_view(args: (StepIndex, StepIndex, StepIndex, Prop)) -> ArgsView {
    ArgsView { a: args.0@, b: args.1@, c: args.2@, prop: args.3@ }
}

fn keyword_end_at(s: &str, len: usize, i: usize) -> (r: Option<(Token, usize)>)
    requires
        len == s@.len(),
        i <= len,
    ensures
        match keyword_at(s@, i as int) {
            Some((token, end)) => r matches Some((t, e)) && t@ == token && e == end && e <= len,
            None => r is None,
        },
{
    if let Some(j) = lit_end_at(s, len, i, "rule") {
        return Some((Token::Rule, j));
    }
    if let Some(j) = lit_end_at(s, len, i, "copy") {
        return Some((Token::Copy, j));
    }
    if let Some(j) = lit_end_at(s, len, i, "premise") {
        return Some((Token::Premise, j));
    }
    if let Some(j) = lit_end_at(s, len, i, "assume") {
        return Some((Token::Assume, j));
    }
    if let Some(j) = lit_end_at(s, len, i, "discharge") {
        return Some((Token::Discharge, j));
    }
    if let Some(j) = lit_end_at(s, len, i, "quit") {
        return Some((Token::Quit, j));
    }
    if let Some(j) = lit_end_at(s, len, i, "help") {
        return Some((Token::Help, j));
    }
    None
}

fn and_prefix_end_at(s: &str, len: usize, i: usize) -> (r: Option<usize>)
    requires
        len == s@.len(),
        i <= len,
    ensures
        pos_is(r, and_prefix_end(s@, i as int), len),
{
    first_some(
        lit_end_at(s, len, i, "and_"),
        first_some(
            lit_end_at(s, len, i, "∧"),
            first_some(lit_end_at(s, len, i, "&"), lit_end_at(s, len, i, "^")),
        ),
    )
}

fn or_prefix_end_at(s: &str, len: usize, i: usize) -> (r: Option<usize>)
    requires
        len == s@.len(),
        i <= len,
    ensures
        pos_is(r, or_prefix_end(s@, i as int), len),
{
    first_some(
        lit_end_at(s, len, i, "or_"),
        first_some(
            lit_end_at(s, len, i, "∨"),
            first_some(lit_end_at(s, len, i, "|"), lit_end_at(s, len, i, "v")),
        ),
    )
}

fn neg_prefix_end_at(s: &str, len: usize, i: usize) -> (r: Option<usize>)
    requires
        len == s@.len(),
        i <= len,
    ensures
        pos_is(r, neg_prefix_end(s@, i as int), len),
{
    first_some(
        lit_end_at(s, len, i, "neg_"),
        first_some(lit_end_at(s, len, i, "-"), lit_end_at(s, len, i, "¬")),
    )
}

fn imply_prefix_end_at(s: &str, len: usize, i: usize) -> (r: Option<usize>)
    requires
        len == s@.len(),
        i <= len,
    ensures
        pos_is(r, imply_prefix_end(s@, i as int), len),
{
    first_some(
        lit_end_at(s, len, i, "imply_"),
        first_some(
            lit_end_at(s, len, i, "->"),
            first_some(lit_end_at(s, len, i, "⇒"), lit_end_at(s, len, i, "→")),
        ),
    )
}

fn double_neg_prefix_end_at(s: &str, len: usize, i: usize) -> (r: Option<usize>)
    requires
        len == s@.len(),
        i <= len,
    ensures
        pos_is(r, double_neg_prefix_end(s@, i as int), len),
{
    first_some(
        lit_end_at(s, len, i, "neg_neg_"),
        first_some(lit_end_at(s, len, i, "--"), lit_end_at(s, len, i, "¬¬")),
    )
}

/// Whether a rule name that a reader reports is the one that the grammar
/// prescribes.
pub open spec fn name_is(
    r: Option<(RuleName, usize)>,
    expected: Option<(RuleName, int)>,
    len: usize,
) -> bool {
    match expected {
        Some((name, end)) => r == Some((name, end as usize)) && 0 <= end <= len,
        None => r is None,
    }
}

fn name_with(end: Option<usize>, name: RuleName) -> (r: Option<(RuleName, usize)>)
    ensures
        r == (match end {
            Some(j) => Some((name, j)),
            None => None,
        }),
{
    match end {
        Some(j) => Some((name, j)),
        None => None,
    }
}

fn rule_name_rest_end_at(s: &str, len: usize, i: usize) -> (r: Option<(RuleName, usize)>)
    requires
        len == s@.len(),
        i <= len,
    ensures
        name_is(r, rule_name_rest_at(s@, i as int), len),
{
    let neg = neg_prefix_end_at(s, len, i);
    let imply = imply_prefix_end_at(s, len, i);
    let double_neg = double_neg_prefix_end_at(s, len, i);
    let found = name_with(then_lit_at(neg, s, len, "i"), RuleName::NegI);
    if found.is_some() {
        return found;
    }
    let found = name_with(then_lit_at(neg, s, len, "e"), RuleName::NegE);
    if found.is_some() {
        return found;
    }
    let found = name_with(then_lit_at(imply, s, len, "i"), RuleName::ImplyI);
    if found.is_some() {
        return found;
    }
    let found = name_with(then_lit_at(imply, s, len, "e"), RuleName::ImplyE);
    if found.is_some() {
        return found;
    }
    let found = name_with(lit_end_at(s, len, i, "bottom_e"), RuleName::BottomE);
    if found.is_some() {
        return found;
    }
    let found = name_with(then_lit_at(double_neg, s, len, "e"), RuleName::DoubleNegE);
    if found.is_some() {
        return found;
    }
    let found = name_with(then_lit_at(double_neg, s, len, "i"), RuleName::DoubleNegI);
    if found.is_some() {
        return found;
    }
    let found = name_with(
        first_some(lit_end_at(s, len, i, "modus_tollens"), lit_end_at(s, len, i, "mt")),
        RuleName::ModusTollens,
    );
    if found.is_some() {
        return found;
    }
    let found = name_with(
        first_some(lit_end_at(s, len, i, "pbc"), lit_end_at(s, len, i, "proof_by_contradiction")),
        RuleName::ProofByContradiction,
    );
    if found.is_some() {
        return found;
    }
    name_with(
        first_some(lit_end_at(s, len, i, "lem"), lit_end_at(s, len, i, "law_of_excluded_middle")),
        RuleName::LawOfExcludedMiddle,
    )
}

fn rule_name_end_at(s: &str, len: usize, i: usize) -> (r: Option<(RuleName, usize)>)
    requires
        len == s@.len(),
        i <= len,
    ensures
        name_is(r, rule_name_at(s@, i as int), len),
{
    let and = and_prefix_end_at(s, len, i);
    let or = or_prefix_end_at(s, len, i);
    let found = name_with(then_lit_at(and, s, len, "i"), RuleName::AndI);
    if found.is_some() {
        return found;
    }
    let found = name_with(then_lit_at(and, s, len, "e_lhs"), RuleName::AndELhs);
    if found.is_some() {
        return found;
    }
    let found = name_with(then_lit_at(and, s, len, "e_rhs"), RuleName::AndERhs);
    if found.is_some() {
        return found;
    }
    let found = name_with(then_lit_at(or, s, len, "i_lhs"), RuleName::OrILhs);
    if found.is_some() {
        return found;
    }
    let found = name_with(then_lit_at(or, s, len, "i_rhs"), RuleName::OrIRhs);
    if found.is_some() {
        return found;
    }
    let found = name_with(then_lit_at(or, s, len, "e"), RuleName::OrE);
    if found.is_some() {
        return found;
    }
    rule_name_rest_end_at(s, len, i)
}

fn token_end_at(s: &str, len: usize, i: usize) -> (r: Option<(Token, usize)>)
    requires
        len == s@.len(),
        i <= len,
    ensures
        match token_at(s@, i as int) {
            Some((token, end)) => r matches Some((t, e)) && t@ == token && e == end && e <= len,
            None => r is None,
        },
{
    if let Some(found) = keyword_end_at(s, len, i) {
        return Some(found);
    }
    if let Some((value, end)) = index_end_at(s, len, i) {
        return Some((Token::Index(StepIndex(value)), end));
    }
    if let Some((p, end)) = parse_implies(s, len, i) {
        return Some((Token::Prop(p), end));
    }
    match rule_name_end_at(s, len, i) {
        Some((name, end)) => Some((Token::RuleName(name), end)),
        None => None,
    }
}

/// Cuts a line into tokens, each with the position at which it begins.
pub fn tokenize(text: &str) -> (r: Result<Vec<(Token, usize)>, SyntaxError>)
    ensures
        match lex(text@) {
            Ok(tokens) => r matches Ok(found) && tokens_view(found@) == tokens,
            Err(e) => r == Err::<Vec<(Token, usize)>, SyntaxError>(e),
        },
{
    let len = text.unicode_len();
    let mut tokens: Vec<(Token, usize)> = Vec::new();
    let mut i: usize = 0;
    assert(tokens_view(tokens@) =~= Seq::<(TokenView, int)>::empty());
    loop
        invariant
            len == text@.len(),
            i <= len,
            tokens_from(text@, 0, Seq::empty()) == tokens_from(
                text@,
                i as int,
                tokens_view(tokens@),
            ),
        ensures
            tokens_from(text@, 0, Seq::empty()) == (tokens_view(tokens@), i as int),
        decreases len - i,
    {
        let start = skip_spaces_from(text, len, i);
        let ghost before = tokens_view(tokens@);
        match token_end_at(text, len, start) {
            Some((token, end)) => {
                let next = skip_spaces_from(text, len, end);
                if start < end && i < next {
                    let ghost token_view = token@;
                    tokens.push((token, start));
                    assert(tokens_view(tokens@) =~= before.push((token_view, start as int)));
                    i = next;
                } else {
                    break ;
                }
            },
            None => {
                break ;
            },
        }
    }
    if i == len {
        Ok(tokens)
    } else {
        Err(SyntaxError::NoToken { at: skip_spaces_from(text, len, i) })
    }
}

fn blame_at(tokens: &Vec<(Token, usize)>, k: usize, len: usize) -> (e: SyntaxError)
    ensures
        e == blame(tokens_view(tokens@), k as int, len as int),
{
    if k < tokens.len() {
        SyntaxError::UnexpectedToken { at: tokens[k].1 }
    } else {
        SyntaxError::UnexpectedToken { at: len }
    }
}

fn index_arg_at(tokens: &Vec<(Token, usize)>, k: usize, len: usize) -> (r: Result<
    StepIndex,
    SyntaxError,
>)
    ensures
        match index_arg(tokens_view(tokens@), k as int, len as int) {
            Ok(n) => r matches Ok(i) && i@ == n,
            Err(e) => r == Err::<StepIndex, SyntaxError>(e),
        },
{
    if k < tokens.len() {
        if let Token::Index(i) = &tokens[k].0 {
            return Ok(*i);
        }
    }
    Err(blame_at(tokens, k, len))
}

fn prop_arg_at(tokens: &Vec<(Token, usize)>, k: usize, len: usize) -> (r: Result<Prop, SyntaxError>)
    ensures
        match prop_arg(tokens_view(tokens@), k as int, len as int) {
            Ok(p) => r matches Ok(q) && q@ == p,
            Err(e) => r == Err::<Prop, SyntaxError>(e),
        },
{
    if k < tokens.len() {
        if let Token::Prop(p) = &tokens[k].0 {
            return Ok(p.clone());
        }
    }
    Err(blame_at(tokens, k, len))
}

fn nothing_after(tokens: &Vec<(Token, usize)>, k: usize, len: usize) -> (r: Result<(), SyntaxError>)
    ensures
        match r {
            Ok(_) => tokens.len() <= k,
            Err(e) => tokens.len() > k && e == blame(tokens_view(tokens@), k as int, len as int),
        },
{
    if tokens.len() > k {
        Err(blame_at(tokens, k, len))
    } else {
        Ok(())
    }
}

fn shape_for(name: RuleName) -> (r: Shape)
    ensures
        r == shape_of(name),
{
    match name {
        RuleName::AndI => Shape::TwoIndices,
        RuleName::AndELhs => Shape::Index,
        RuleName::AndERhs => Shape::Index,
        RuleName::OrILhs => Shape::IndexProp,
        RuleName::OrIRhs => Shape::PropIndex,
        RuleName::OrE => Shape::ThreeIndices,
        RuleName::NegI => Shape::Index,
        RuleName::NegE => Shape::TwoIndices,
        RuleName::ImplyI => Shape::Index,
        RuleName::ImplyE => Shape::TwoIndices,
        RuleName::BottomE => Shape::IndexProp,
        RuleName::DoubleNegE => Shape::Index,
        RuleName::ModusTollens => Shape::TwoIndices,
        RuleName::DoubleNegI => Shape::Index,
        RuleName::ProofByContradiction => Shape::Index,
        RuleName::LawOfExcludedMiddle => Shape::Prop,
    }
}

fn read_args(tokens: &Vec<(Token, usize)>, k: usize, len: usize, shape: Shape) -> (r: Result<
    (StepIndex, StepIndex, StepIndex, Prop),
    SyntaxError,
>)
    requires
        k <= 2,
    ensures
        match args_from(tokens_view(tokens@), k as int, len as int, shape) {
            Ok(args) => r matches Ok(found) && args_view(found) == args,
            Err(e) => r == Err::<(StepIndex, StepIndex, StepIndex, Prop), SyntaxError>(e),
        },
{
    let zero = StepIndex(0);
    match shape {
        Shape::Index => {
            let a = index_arg_at(tokens, k, len)?;
            nothing_after(tokens, k + 1, len)?;
            Ok((a, zero, zero, Prop::Bottom))
        },
        Shape::TwoIndices => {
            let a = index_arg_at(tokens, k, len)?;
            let b = index_arg_at(tokens, k + 1, len)?;
            nothing_after(tokens, k + 2, len)?;
            Ok((a, b, zero, Prop::Bottom))
        },
        Shape::ThreeIndices => {
            let a = index_arg_at(tokens, k, len)?;
            let b = index_arg_at(tokens, k + 1, len)?;
            let c = index_arg_at(tokens, k + 2, len)?;
            nothing_after(tokens, k + 3, len)?;
            Ok((a, b, c, Prop::Bottom))
        },
        Shape::IndexProp => {
            let a = index_arg_at(tokens, k, len)?;
            let prop = prop_arg_at(tokens, k + 1, len)?;
            nothing_after(tokens, k + 2, len)?;
            Ok((a, zero, zero, prop))
        },
        Shape::PropIndex => {
            let prop = prop_arg_at(tokens, k, len)?;
            let a = index_arg_at(tokens, k + 1, len)?;
            nothing_after(tokens, k + 2, len)?;
            Ok((a, zero, zero, prop))
        },
        Shape::Prop => {
            let prop = prop_arg_at(tokens, k, len)?;
            nothing_after(tokens, k + 1, len)?;
            Ok((zero, zero, zero, prop))
        },
    }
}

fn build_rule(name: RuleName, args: (StepIndex, StepIndex, StepIndex, Prop)) -> (r: Rule)
    ensures
        r@ == rule_of(name, args_view(args)),
{
    let (a, b, c, prop) = args;
    match name {
        RuleName::AndI => Rule::AndI(a, b),
        RuleName::AndELhs => Rule::AndELhs(a),
        RuleName::AndERhs => Rule::AndERhs(a),
        RuleName::OrILhs => Rule::OrILhs(a, prop),
        RuleName::OrIRhs => Rule::OrIRhs(prop, a),
        RuleName::OrE => Rule::OrE { or_prop: a, lhs_box: b, rhs_box: c },
        RuleName::NegI => Rule::NegI(a),
        RuleName::NegE => Rule::NegE { prop: a, neg_prop: b },
        RuleName::ImplyI => Rule::ImplyI(a),
        RuleName::ImplyE => Rule::ImplyE { implication: a, lhs_proof: b },
        RuleName::BottomE => Rule::BottomE(a, prop),
        RuleName::DoubleNegE => Rule::DoubleNegE(a),
        RuleName::ModusTollens => Rule::ModusTollens { implication: a, negated_rhs: b },
        RuleName::DoubleNegI => Rule::DoubleNegI(a),
        RuleName::ProofByContradiction => Rule::ProofByContradiction(a),
        RuleName::LawOfExcludedMiddle => Rule::LawOfExcludedMiddle(prop),
    }
}

/// Reads the tokens of a line of `len` characters as one command.
pub fn command_from_tokens(tokens: &Vec<(Token, usize)>, len: usize) -> (r: Result<
    Command,
    SyntaxError,
>)
    ensures
        match command_of(tokens_view(tokens@), len as int) {
            Ok(command) => r matches Ok(found) && found@ == command,
            Err(e) => r == Err::<Command, SyntaxError>(e),
        },
{
    if tokens.len() == 0 {
        return Err(blame_at(tokens, 0, len));
    }
    match &tokens[0].0 {
        Token::Copy => {
            let args = read_args(tokens, 1, len, Shape::Index)?;
            Ok(Command::Copy(args.0))
        },
        Token::Premise => {
            let args = read_args(tokens, 1, len, Shape::Prop)?;
            Ok(Command::Premise(args.3))
        },
        Token::Assume => {
            let args = read_args(tokens, 1, len, Shape::Prop)?;
            Ok(Command::Assume(args.3))
        },
        Token::Rule => {
            if tokens.len() > 1 {
                if let Token::RuleName(name) = &tokens[1].0 {
                    let args = read_args(tokens, 2, len, shape_for(*name))?;
                    return Ok(Command::Rule(build_rule(*name, args)));
                }
            }
            Err(blame_at(tokens, 1, len))
        },
        Token::Discharge => {
            nothing_after(tokens, 1, len)?;
            Ok(Command::Discharge)
        },
        Token::Quit => {
            nothing_after(tokens, 1, len)?;
            Ok(Command::Quit)
        },
        Token::Help => {
            nothing_after(tokens, 1, len)?;
            Ok(Command::Help)
        },
        _ => Err(blame_at(tokens, 0, len)),
    }
}

/// Reads a line as a command.
pub fn parse_command(s: &str) -> (r: Result<Command, SyntaxError>)
    ensures
        match command_text(s@) {
            Ok(command) => r matches Ok(found) && found@ == command,
            Err(e) => r == Err::<Command, SyntaxError>(e),
        },
{
    let len = s.unicode_len();
    match tokenize(s) {
        Ok(tokens) => command_from_tokens(&tokens, len),
        Err(e) => Err(e),
    }
}

} // verus!
