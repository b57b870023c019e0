//! What a serving element does.
use vstd::prelude::*;

use crate::element::{without_greatest, Counters, Element};
use crate::text::{decimal, summary_head, summary_head_text, u32_decimal};
use vstd::string::*;

verus! {

/// An arrival at a serving element with `worker_count` workers stays clear
/// of counter overflow.
pub open spec fn in_act_defined(c: Counters, worker_count: u32) -> bool {
    if c.state < worker_count {
        true
    } else if c.queue > 0 {
        c.queue < u32::MAX
    } else {
        c.failure < u32::MAX
    }
}

/// An arrival starts a service: a worker is free.
pub open spec fn in_act_starts(c: Counters, worker_count: u32) -> bool {
    c.state < worker_count
}

/// The counters after an arrival: a free worker takes the item; else, if
/// items are already waiting, it waits too; else it is turned away.
pub open spec fn in_act_counters(c: Counters, worker_count: u32) -> Counters {
    if c.state < worker_count {
        Counters { state: (c.state + 1) as u32, ..c }
    } else if c.queue > 0 {
        Counters { queue: (c.queue + 1) as u32, ..c }
    } else {
        Counters { failure: (c.failure + 1) as u32, ..c }
    }
}

/// A completion needs a busy worker and room in the count of finished items.
pub open spec fn out_act_defined(c: Counters) -> bool {
    c.state > 0 && c.quantity < u32::MAX
}

/// A completion starts the next service: an item is waiting.
pub open spec fn out_act_starts(c: Counters) -> bool {
    c.queue > 0
}

/// The counters after a completion: the item is counted, and the worker
/// either takes a waiting item or becomes free.
pub open spec fn out_act_counters(c: Counters) -> Counters {
    if c.queue > 0 {
        Counters { quantity: (c.quantity + 1) as u32, queue: (c.queue - 1) as u32, ..c }
    } else {
        Counters { quantity: (c.quantity + 1) as u32, state: (c.state - 1) as u32, ..c }
    }
}

/// Every item that has arrived is in service, waiting, finished or turned away.
pub open spec fn arrivals(c: Counters) -> int {
    c.state + c.queue + c.quantity + c.failure
}

/// An item arrives; where a worker takes it, `completion` is the time at
/// which the service ends.
pub fn in_act(e: &mut Element, completion: Option<u32>)
    requires
        in_act_defined(old(e).counters(), old(e).worker_count),
        completion is Some <==> in_act_starts(old(e).counters(), old(e).worker_count),
    ensures
        final(e).counters() == in_act_counters(old(e).counters(), old(e).worker_count),
        final(e).tnext@ == match completion {
            Some(t) => old(e).tnext@.insert(t),
            None => old(e).tnext@,
        },
        final(e).state_sum == old(e).state_sum,
        final(e).same_setup(*old(e)),
{
    if e.state < e.worker_count {
        e.state = e.state + 1;
        match completion {
            Some(t) => e.put_tnext(t),
            None => {},
        }
    } else if e.queue > 0 {
        e.queue = e.queue + 1;
    } else {
        e.failure = e.failure + 1;
    }
}

/// A service ends; where a waiting item is taken up, `completion` is the
/// time at which its service ends. The greatest pending time is then taken
/// away. The result tells whether the worker became free.
///
/// The finished item is not routed here: its receivers are known by id
/// only, and a run routes it in `Model::plan_actions`, which chooses the
/// receiver among all elements, before the receiver's `in_act` runs. Where
/// the receivers are held as elements, `shortcuts::out_act` chooses one and
/// hands the item to it.
pub fn out_act(e: &mut Element, completion: Option<u32>) -> (idle: bool)
    requires
        out_act_defined(old(e).counters()),
        completion is Some <==> out_act_starts(old(e).counters()),
    ensures
        idle == !out_act_starts(old(e).counters()),
        final(e).counters() == out_act_counters(old(e).counters()),
        final(e).tnext@ == without_greatest(
            match completion {
                Some(t) => old(e).tnext@.insert(t),
                None => old(e).tnext@,
            },
        ),
        final(e).state_sum == old(e).state_sum,
        final(e).same_setup(*old(e)),
{
    e.quantity = e.quantity + 1;
    e.state = e.state - 1;
    let idle;
    if e.queue > 0 {
        e.queue = e.queue - 1;
        e.state = e.state + 1;
        match completion {
            Some(t) => e.put_tnext(t),
            None => {},
        }
        idle = false;
    } else {
        idle = true;
    }
    e.pop_tnext();
    idle
}

/// Adds the busy workers over `delta` whole time units to the running sum.
pub fn do_statistics(e: &mut Element, delta: u32)
    requires
        old(e).state * delta + old(e).state_sum <= u32::MAX,
    ensures
        final(e).state_sum == old(e).state_sum + old(e).state * delta,
        final(e).counters() == old(e).counters(),
        final(e).tnext@ == old(e).tnext@,
        final(e).same_setup(*old(e)),
{
    assert(e.state * delta <= u32::MAX) by (nonlinear_arith)
        requires
            e.state * delta + e.state_sum <= u32::MAX,
            e.state_sum >= 0,
    ;
    e.state_sum = e.state_sum + e.state * delta;
}

/// The summary of a serving element: its name, busy workers, items
/// finished, queue, next time and average load, the last two as the caller
/// wrote them, and items turned away.
pub fn get_summary(e: &Element, nearest_tnext: String, average_load: String) -> (s: String)
    ensures
        s@ == summary_head(e.name@) + "state = "@ + decimal(e.state as nat) + " | quantity = "@
            + decimal(e.quantity as nat) + " | queue = "@ + decimal(e.queue as nat) + " | tnext = "@
            + nearest_tnext@ + " | average_load = "@ + average_load@ + "\n\n        failure = "@
            + decimal(e.failure as nat),
{
    let state = u32_decimal(e.state);
    let quantity = u32_decimal(e.quantity);
    let queue = u32_decimal(e.queue);
    let failure = u32_decimal(e.failure);
    summary_head_text(e.name.as_str()).concat("state = ").concat(state.as_str()).concat(
        " | quantity = ",
    ).concat(quantity.as_str()).concat(" | queue = ").concat(queue.as_str()).concat(
        " | tnext = ",
    ).concat(nearest_tnext.as_str()).concat(" | average_load = ").concat(average_load.as_str()).concat(
        "\n\n        failure = ",
    ).concat(failure.as_str())
}

/// An arrival at a serving element: while a worker is free it takes the
/// item, a service starts and needs a completion time, and only the busy
/// workers grow by one; with every worker busy, the item waits if items
/// already wait, and is turned away otherwise, and no service starts.
pub proof fn law_arrival_at_serving_element(e: Element)
    requires
        e.elem_type == crate::consts::ElementType::Process,
    ensures
        e.state < e.worker_count ==> {
            &&& e.spec_in_act_defined()
            &&& e.spec_in_act_starts()
            &&& e.counters_after_in_act().state == e.state + 1
            &&& e.counters_after_in_act().queue == e.queue
            &&& e.counters_after_in_act().quantity == e.quantity
            &&& e.counters_after_in_act().failure == e.failure
        },
        e.state >= e.worker_count ==> {
            &&& !e.spec_in_act_starts()
            &&& e.counters_after_in_act().state == e.state
            &&& e.counters_after_in_act().quantity == e.quantity
            &&& e.queue > 0 && e.queue < u32::MAX ==> e.spec_in_act_defined()
                && e.counters_after_in_act().queue == e.queue + 1
                && e.counters_after_in_act().failure == e.failure
            &&& e.queue == 0 && e.failure < u32::MAX ==> e.spec_in_act_defined()
                && e.counters_after_in_act().queue == 0
                && e.counters_after_in_act().failure == e.failure + 1
        },
{
}

/// Each arrival adds exactly one item to those in service, waiting,
/// finished or turned away.
pub proof fn law_arrival_counts_once(c: Counters, worker_count: u32)
    requires
        in_act_defined(c, worker_count),
    ensures
        arrivals(in_act_counters(c, worker_count)) == arrivals(c) + 1,
{
}

/// A completion moves one item from service to finished and loses none.
pub proof fn law_completion_keeps_arrivals(c: Counters)
    requires
        out_act_defined(c),
    ensures
        arrivals(out_act_counters(c)) == arrivals(c),
        out_act_counters(c).quantity == c.quantity + 1,
{
}

/// No more workers are busy than there are: arrivals and completions keep
/// the busy workers within the worker count.
pub proof fn law_busy_within_workers(c: Counters, worker_count: u32)
    requires
        c.state <= worker_count,
    ensures
        in_act_defined(c, worker_count) ==> in_act_counters(c, worker_count).state <= worker_count,
        out_act_defined(c) ==> out_act_counters(c).state <= worker_count,
{
}

/// An item only waits behind items that already wait, so an element whose
/// queue is empty keeps it empty through arrivals and completions.
pub proof fn law_empty_queue_stays_empty(c: Counters, worker_count: u32)
    requires
        c.queue == 0,
    ensures
        in_act_counters(c, worker_count).queue == 0,
        out_act_counters(c).queue == 0,
{
}

} // verus!
