//! What a creating element does.
use vstd::prelude::*;

use crate::element::{without_greatest, Element};
use crate::schedule::law_greatest_after_insert;
use vstd::multiset::Multiset;
use crate::text::{decimal, summary_head, summary_head_text, u32_decimal};
use vstd::string::*;

verus! {

/// A creating element receives nothing.
pub fn in_act() {
}

/// A creating element hands an item on: it counts it, adds the time of the
/// next arrival and takes its greatest pending time away.
pub fn out_act(e: &mut Element, next_arrival: u32)
    requires
        old(e).quantity < u32::MAX,
    ensures
        final(e).quantity == old(e).quantity + 1,
        final(e).state == old(e).state,
        final(e).queue == old(e).queue,
        final(e).failure == old(e).failure,
        final(e).state_sum == old(e).state_sum,
        final(e).tnext@ == without_greatest(old(e).tnext@.insert(next_arrival)),
        final(e).same_setup(*old(e)),
{
    e.quantity = e.quantity + 1;
    e.put_tnext(next_arrival);
    e.pop_tnext();
}

/// The summary of a creating element: its name, items handed on, queue,
/// next time and average load, the last two as the caller wrote them, and
/// items turned away.
pub fn get_summary(e: &Element, nearest_tnext: String, average_load: String) -> (s: String)
    ensures
        s@ == summary_head(e.name@) + "quantity = "@ + decimal(e.quantity as nat) + " | queue = "@
            + decimal(e.queue as nat) + " | tnext = "@ + nearest_tnext@ + " | average_load = "@
            + average_load@ + "\n\n        failure = "@ + decimal(e.failure as nat),
{
    let quantity = u32_decimal(e.quantity);
    let queue = u32_decimal(e.queue);
    let failure = u32_decimal(e.failure);
    summary_head_text(e.name.as_str()).concat("quantity = ").concat(quantity.as_str()).concat(
        " | queue = ",
    ).concat(queue.as_str()).concat(" | tnext = ").concat(nearest_tnext.as_str()).concat(
        " | average_load = ",
    ).concat(average_load.as_str()).concat("\n\n        failure = ").concat(failure.as_str())
}

/// The pending times form a max-heap: a next arrival that is not earlier
/// than every pending time is itself taken away again at once, and the
/// pending times stay as they were.
pub proof fn law_late_arrival_is_dropped(ms: Multiset<u32>, next_arrival: u32)
    requires
        forall|x: u32| ms.contains(x) ==> x <= next_arrival,
    ensures
        without_greatest(ms.insert(next_arrival)) =~= ms,
{
    law_greatest_after_insert(ms, next_arrival);
}

} // verus!
