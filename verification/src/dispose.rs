//! What a disposing element does.
use vstd::prelude::*;

use crate::element::Element;
use crate::text::{decimal, summary_head, summary_head_text, u32_decimal};
use vstd::string::*;

verus! {

/// An item arrives and leaves the network at once: it is counted as finished.
pub fn in_act(e: &mut Element)
    requires
        old(e).quantity < u32::MAX,
    ensures
        final(e).quantity == old(e).quantity + 1,
        final(e).state == old(e).state,
        final(e).queue == old(e).queue,
        final(e).failure == old(e).failure,
        final(e).state_sum == old(e).state_sum,
        final(e).tnext@ == old(e).tnext@,
        final(e).same_setup(*old(e)),
{
    out_act(e);
}

/// An item leaves the network: it is counted as finished.
pub fn out_act(e: &mut Element)
    requires
        old(e).quantity < u32::MAX,
    ensures
        final(e).quantity == old(e).quantity + 1,
        final(e).state == old(e).state,
        final(e).queue == old(e).queue,
        final(e).failure == old(e).failure,
        final(e).state_sum == old(e).state_sum,
        final(e).tnext@ == old(e).tnext@,
        final(e).same_setup(*old(e)),
{
    e.quantity = e.quantity + 1;
}

/// The summary of a disposing element: its name and how many items left.
pub fn get_summary(e: &Element) -> (s: String)
    ensures
        s@ == summary_head(e.name@) + "quantity = "@ + decimal(e.quantity as nat),
{
    let quantity = u32_decimal(e.quantity);
    summary_head_text(e.name.as_str()).concat("quantity = ").concat(quantity.as_str())
}

} // verus!
