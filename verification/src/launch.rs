//! How a copy of the program that was started inside its own terminal window
//! knows it.

use vstd::prelude::*;

verus! {

/// The argument that marks the copy started inside the dedicated window.
pub const INNER_LAUNCH_ARGUMENT: &'static str = "--inner";

/// One of `arguments` is exactly the inner launch marker.
pub open spec fn has_inner_marker(arguments: Seq<Seq<char>>) -> bool {
    exists|i: int| 0 <= i < arguments.len() && arguments[i] == INNER_LAUNCH_ARGUMENT@
}

/// Whether the program was started as the copy inside the dedicated window:
/// one of its arguments is exactly the marker (a longer argument that only
/// starts with it does not count).
pub fn has_inner_launch_argument(arguments: &[String]) -> (r: bool)
    ensures
        r == has_inner_marker(arguments@.map_values(|a: String| a@)),
{
    let ghost texts = arguments@.map_values(|a: String| a@);
    let marker = INNER_LAUNCH_ARGUMENT.to_owned();
    let mut i: usize = 0;
    while i < arguments.len()
        invariant
            i <= arguments.len(),
            texts == arguments@.map_values(|a: String| a@),
            marker@ == INNER_LAUNCH_ARGUMENT@,
            forall|j: int| 0 <= j < i ==> texts[j] != INNER_LAUNCH_ARGUMENT@,
        decreases arguments.len() - i,
    {
        if arguments[i] == marker {
            assert(texts[i as int] == INNER_LAUNCH_ARGUMENT@);
            return true;
        }
        i = i + 1;
    }
    false
}

/// Adding an argument finds the marker exactly when it was already there or
/// the new argument is the marker itself; no arguments never hold it.
pub proof fn lemma_marker_search(arguments: Seq<Seq<char>>, argument: Seq<char>)
    ensures
        !has_inner_marker(Seq::empty()),
        has_inner_marker(arguments.push(argument)) <==> (has_inner_marker(arguments) || argument
            == INNER_LAUNCH_ARGUMENT@),
{
    let more = arguments.push(argument);
    if has_inner_marker(arguments) {
        let i = choose|i: int| 0 <= i < arguments.len() && arguments[i] == INNER_LAUNCH_ARGUMENT@;
        assert(more[i] == arguments[i]);
    }
    if argument == INNER_LAUNCH_ARGUMENT@ {
        assert(more[arguments.len() as int] == argument);
    }
    if has_inner_marker(more) {
        let i = choose|i: int| 0 <= i < more.len() && more[i] == INNER_LAUNCH_ARGUMENT@;
        if i < arguments.len() {
            assert(more[i] == arguments[i]);
        }
    }
}

} // verus!
