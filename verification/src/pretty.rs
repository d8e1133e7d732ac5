//! A proof as a table of plain text, with a frame around every box.
//!
//! Each line holds a step's index, its proposition and how it was justified.
//! The steps of a box are framed and indented by one bar on either side for
//! each level of nesting. The layout has room for twenty levels.

use vstd::prelude::*;
use vstd::string::*;
use crate::engine::Proof;
use crate::latex::{lemma_depth_grows, max_depth, nesting_depth};
use crate::prop::{Prop, PropView, Step, StepIndex, StepView, steps_view};
use crate::text::{decimal_string, decimal_text, prop_string, prop_text, step_type_text};

verus! {

/// The width of a frame, in characters.
pub const WIDTH: usize = 70;

/// The deepest nesting that the layout has room for.
pub const MAX_INDENT: usize = 20;

/// `unit`, written `n` times.
pub open spec fn repeat_text(unit: Seq<char>, n: nat) -> Seq<char>
    decreases n,
{
    if n == 0 {
        Seq::<char>::empty()
    } else {
        repeat_text(unit, (n - 1) as nat) + unit
    }
}

/// `text` after as many spaces as it takes to fill `width` characters.
pub open spec fn right_aligned(text: Seq<char>, width: nat) -> Seq<char> {
    if text.len() < width {
        repeat_text(" "@, (width - text.len()) as nat) + text
    } else {
        text
    }
}

/// `text` before as many spaces as it takes to fill `width` characters.
pub open spec fn left_aligned(text: Seq<char>, width: nat) -> Seq<char> {
    if text.len() < width {
        text + repeat_text(" "@, (width - text.len()) as nat)
    } else {
        text
    }
}

/// The upper or lower edge of the frame at nesting level `indent`, which is
/// at least 1, between the two given corners.
pub open spec fn border_text(indent: nat, left: Seq<char>, right: Seq<char>) -> Seq<char> {
    "    "@ + repeat_text("│"@, (indent - 1) as nat) + left + repeat_text(
        "─"@,
        (WIDTH - indent * 2 - 7) as nat,
    ) + right + repeat_text("│"@, (indent - 1) as nat) + "\n"@
}

/// The line of a step at nesting level `indent`.
pub open spec fn step_line_text(index: nat, step: StepView, indent: nat) -> Seq<char> {
    right_aligned(decimal_text(index), 3) + " "@ + repeat_text("│"@, indent) + " "@ + left_aligned(
        prop_text(step.prop),
        (40 - indent * 2) as nat,
    ) + " "@ + right_aligned(step_type_text(step.step_type), 20) + " "@ + repeat_text("│"@, indent)
        + "\n"@
}

/// A run of steps at nesting level `indent`: under an upper edge where it is
/// nested, and over a lower edge where it is nested and `closed`.
pub open spec fn block_text(steps: Seq<(nat, StepView)>, indent: nat, closed: bool) -> Seq<char>
    decreases steps, steps.len() + 1,
{
    (if indent > 0 {
        border_text(indent, "┌"@, "┐"@)
    } else {
        Seq::<char>::empty()
    }) + block_lines(steps, steps.len(), indent) + (if closed && indent > 0 {
        border_text(indent, "└"@, "┘"@)
    } else {
        Seq::<char>::empty()
    })
}

/// The first `n` steps of a run: a box becomes a closed block one level
/// further in, any other step becomes one line.
pub open spec fn block_lines(steps: Seq<(nat, StepView)>, n: nat, indent: nat) -> Seq<char>
    decreases steps, n,
{
    if n == 0 || n > steps.len() {
        Seq::<char>::empty()
    } else {
        block_lines(steps, (n - 1) as nat, indent) + (match steps[n - 1].1.prop {
            PropView::ProofBox(inner) => block_text(inner, indent + 1, true),
            _ => step_line_text(steps[n - 1].0, steps[n - 1].1, indent),
        })
    }
}

/// The first `n` scopes of a proof, each as an open block at its level.
pub open spec fn scopes_text(scopes: Seq<Seq<(nat, StepView)>>, n: nat) -> Seq<char>
    decreases n,
{
    if n == 0 || n > scopes.len() {
        Seq::<char>::empty()
    } else {
        scopes_text(scopes, (n - 1) as nat) + block_text(scopes[n - 1], (n - 1) as nat, false)
    }
}

/// Whether the layout has room for every scope of the proof and the boxes
/// in it.
pub open spec fn scopes_fit(scopes: Seq<Seq<(nat, StepView)>>) -> bool {
    forall|k: int| 0 <= k < scopes.len() ==> k + nesting_depth(#[trigger] scopes[k]) <= MAX_INDENT
}

/// Renders a proof as text: the open scopes from the outermost to the
/// innermost, each with its steps in the order in which they were added.
/// There is no text for a proof that is nested deeper than the layout has
/// room for.
pub fn render_proof(proof: &Proof) -> (r: Option<String>)
    ensures
        scopes_fit(proof@.scopes) ==> (r matches Some(s) && s@ == scopes_text(
            proof@.scopes,
            proof@.scopes.len(),
        )),
        !scopes_fit(proof@.scopes) ==> r is None,
{
    let mut out = String::new();
    let mut level: usize = 0;
    while level < proof.context.len()
        invariant
            level <= proof.context.len(),
            out@ == scopes_text(proof@.scopes, level as nat),
            forall|k: int| 0 <= k < level ==> k + nesting_depth(#[trigger] proof@.scopes[k]) <= MAX_INDENT,
        decreases proof.context.len() - level,
    {
        let steps = &proof.context[level].steps;
        assert(proof@.scopes[level as int] == steps_view(steps@));
        let fits = level <= MAX_INDENT && match max_depth(steps) {
            Some(depth) => depth <= MAX_INDENT - level,
            None => false,
        };
        if !fits {
            return None;
        }
        steps_to_string(&mut out, steps, level, false);
        level += 1;
    }
    Some(out)
}

fn push_repeated(out: &mut String, unit: &str, n: usize)
    ensures
        final(out)@ == old(out)@ + repeat_text(unit@, n as nat),
{
    let mut i: usize = 0;
    assert(out@ =~= old(out)@ + repeat_text(unit@, 0));
    while i < n
        invariant
            i <= n,
            out@ == old(out)@ + repeat_text(unit@, i as nat),
        decreases n - i,
    {
        out.append(unit);
        i += 1;
        assert(out@ =~= old(out)@ + repeat_text(unit@, i as nat));
    }
}

fn push_right_aligned(out: &mut String, text: &String, width: usize)
    ensures
        final(out)@ == old(out)@ + right_aligned(text@, width as nat),
{
    let len = text.as_str().unicode_len();
    if len < width {
        push_repeated(out, " ", width - len);
    }
    out.append(text.as_str());
    assert(out@ =~= old(out)@ + right_aligned(text@, width as nat));
}

fn push_left_aligned(out: &mut String, text: &String, width: usize)
    ensures
        final(out)@ == old(out)@ + left_aligned(text@, width as nat),
{
    let len = text.as_str().unicode_len();
    out.append(text.as_str());
    if len < width {
        push_repeated(out, " ", width - len);
    }
    assert(out@ =~= old(out)@ + left_aligned(text@, width as nat));
}

fn push_border(out: &mut String, indent_level: usize, left: &str, right: &str)
    requires
        1 <= indent_level <= MAX_INDENT,
    ensures
        final(out)@ == old(out)@ + border_text(indent_level as nat, left@, right@),
{
    out.append("    ");
    push_repeated(out, "│", indent_level - 1);
    out.append(left);
    push_repeated(out, "─", WIDTH - indent_level * 2 - 7);
    out.append(right);
    push_repeated(out, "│", indent_level - 1);
    out.append("\n");
    assert(out@ =~= old(out)@ + border_text(indent_level as nat, left@, right@));
}

fn push_step_line(out: &mut String, index: StepIndex, step: &Step, indent_level: usize)
    requires
        indent_level <= MAX_INDENT,
    ensures
        final(out)@ == old(out)@ + step_line_text(index@, step@, indent_level as nat),
{
    let number = decimal_string(index.0);
    let prop = prop_string(step.prop());
    let step_type = step.step_type().to_string();
    push_right_aligned(out, &number, 3);
    out.append(" ");
    push_repeated(out, "│", indent_level);
    out.append(" ");
    push_left_aligned(out, &prop, 40 - indent_level * 2);
    out.append(" ");
    push_right_aligned(out, &step_type, 20);
    out.append(" ");
    push_repeated(out, "│", indent_level);
    out.append("\n");
    assert(out@ =~= old(out)@ + step_line_text(index@, step@, indent_level as nat));
}

fn steps_to_string(
    out: &mut String,
    steps: &Vec<(StepIndex, Step)>,
    indent_level: usize,
    closed: bool,
)
    requires
        indent_level + nesting_depth(steps_view(steps@)) <= MAX_INDENT,
    ensures
        final(out)@ == old(out)@ + block_text(steps_view(steps@), indent_level as nat, closed),
    decreases steps,
{
    let ghost view = steps_view(steps@);
    let ghost before = out@;
    if indent_level > 0 {
        push_border(out, indent_level, "┌", "┐");
    }
    let ghost opened = out@;
    let mut i: usize = 0;
    while i < steps.len()
        invariant
            i <= steps.len(),
            view == steps_view(steps@),
            indent_level + nesting_depth(view) <= MAX_INDENT,
            out@ == opened + block_lines(view, i as nat, indent_level as nat),
        decreases steps.len() - i,
    {
        let entry = &steps[i];
        let ghost so_far = out@;
        proof {
            assert(view[i as int] == (entry.0@, entry.1@));
            lemma_depth_grows(view, (i + 1) as nat, view.len());
        }
        match &entry.1.0 {
            Prop::ProofBox(subproof) => {
                steps_to_string(out, &subproof.0, indent_level + 1, true);
            },
            _ => {
                push_step_line(out, entry.0, &entry.1, indent_level);
            },
        }
        proof {
            let line = match entry.1@.prop {
                PropView::ProofBox(inner) => block_text(inner, (indent_level + 1) as nat, true),
                _ => step_line_text(entry.0@, entry.1@, indent_level as nat),
            };
            assert(out@ =~= so_far + line);
            assert(block_lines(view, (i + 1) as nat, indent_level as nat) == block_lines(
                view,
                i as nat,
                indent_level as nat,
            ) + line);
            assert(out@ =~= opened + block_lines(view, (i + 1) as nat, indent_level as nat));
        }
        i += 1;
    }
    if closed && indent_level > 0 {
        push_border(out, indent_level, "└", "┘");
    }
    assert(out@ =~= before + block_text(view, indent_level as nat, closed));
}

} // verus!
