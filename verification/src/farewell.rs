//! The words that the editor parts with.

use rand::seq::SliceRandom;
use vstd::prelude::*;

verus! {

/// The phrases to choose from.
pub open spec fn goodbye_phrases() -> Seq<Seq<char>> {
    seq![
        "Bye!"@,
        "See you later!"@,
        "Have a nice day!"@,
        "See you soon!"@,
        "See you next time!"@,
    ]
}

/// Whether `text` is what one of the `items` says.
pub open spec fn is_among(text: Seq<char>, items: Seq<&'static str>) -> bool {
    exists|k: int| 0 <= k < items.len() && (#[trigger] items[k])@ == text
}

/// One of the phrases of [`goodbye_phrases`], chosen at random.
pub fn goodbye() -> (r: &'static str)
    ensures
        goodbye_phrases().contains(r@),
{
    let phrases: Vec<&'static str> = vec![
        "Bye!",
        "See you later!",
        "Have a nice day!",
        "See you soon!",
        "See you next time!",
    ];
    let chosen = pick_one(&phrases);
    proof {
        let k = choose|k: int| 0 <= k < phrases@.len() && (#[trigger] phrases@[k])@ == chosen@;
        assert(goodbye_phrases()[k] == chosen@);
    }
    chosen
}

/// Calls `rand::seq::SliceRandom::choose` on the items with the generator of
/// `rand::thread_rng`. Believed, not proved: from a slice that is not empty
/// the call returns one of its elements. Which one is left open. The
/// generator is seeded by the operating system on its first use.
#[verifier::external_body]
fn pick_one(items: &Vec<&'static str>) -> (r: &'static str)
    requires
        items.len() > 0,
    ensures
        is_among(r@, items@),
{
    items.choose(&mut rand::thread_rng()).unwrap()
}

} // verus!
