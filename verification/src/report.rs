//! The texts of the event log: the message of one event and the results of
//! a run. Times, loads and other floating-point figures come written by the
//! caller.
use vstd::prelude::*;
use vstd::string::*;

use crate::consts::ElementType;
use crate::element::{create_summary, dispose_summary, process_summary, Element};
use crate::text::{decimal, u32_decimal};

verus! {

/// The summary of an element, with its next time and average load written
/// as `texts`.
pub open spec fn summary_of(e: Element, texts: (Seq<char>, Seq<char>)) -> Seq<char> {
    match e.elem_type {
        ElementType::Create => create_summary(e, texts.0, texts.1),
        ElementType::Process => process_summary(e, texts.0, texts.1),
        ElementType::Dispose => dispose_summary(e),
    }
}

/// The summaries of the first `n` elements, one after the other.
pub open spec fn summaries(elems: Seq<Element>, texts: Seq<(String, String)>, n: nat) -> Seq<char>
    decreases n,
{
    if n == 0 {
        Seq::empty()
    } else {
        summaries(elems, texts, (n - 1) as nat) + summary_of(
            elems[n - 1],
            (texts[n - 1].0@, texts[n - 1].1@),
        )
    }
}

/// The opening of an event's message: its number, the element it happened
/// in and its time.
pub open spec fn event_header(iters: u32, name: Seq<char>, time: Seq<char>) -> Seq<char> {
    "\n\n            >>>     Event #"@ + decimal(iters as nat) + " in "@ + name
        + "     <<<\n\n            >>>     time: "@ + time + "     <<<\n\n"@
}

/// The message of event number `iters`, which happened in element
/// `event_id` at the time written as `time`: the header, then the summary of
/// every element with its next time and average load written as `texts`.
pub fn event_message(
    elems: &Vec<Element>,
    iters: u32,
    event_id: usize,
    time: &str,
    texts: &Vec<(String, String)>,
) -> (s: String)
    requires
        event_id < elems@.len(),
        texts@.len() == elems@.len(),
    ensures
        s@ == event_header(iters, elems@[event_id as int].name@, time@) + summaries(
            elems@,
            texts@,
            elems@.len(),
        ),
{
    let number = u32_decimal(iters);
    let mut msg = "\n\n            >>>     Event #".to_owned();
    msg.append(number.as_str());
    msg.append(" in ");
    msg.append(elems[event_id].name.as_str());
    msg.append("     <<<\n\n            >>>     time: ");
    msg.append(time);
    msg.append("     <<<\n\n");
    let ghost head = msg@;
    assert(head == event_header(iters, elems@[event_id as int].name@, time@));
    let n = elems.len();
    let mut i: usize = 0;
    while i < n
        invariant
            n == elems@.len(),
            texts@.len() == n,
            i <= n,
            msg@ == head + summaries(elems@, texts@, i as nat),
        decreases n - i,
    {
        let part = elems[i].get_summary(texts[i].0.clone(), texts[i].1.clone());
        msg.append(part.as_str());
        assert(head + summaries(elems@, texts@, (i + 1) as nat) =~= head + summaries(elems@, texts@, i as nat)
            + part@);
        i = i + 1;
    }
    msg
}

/// The results of one element: its name and items finished, and for a
/// serving element the mean queue, the failure probability and the time
/// stalled written as `stats`.
pub open spec fn element_results(e: Element, stats: (Seq<char>, Seq<char>, Seq<char>)) -> Seq<char> {
    "##### "@ + e.name@ + " #####\n\n                quantity = "@ + decimal(e.quantity as nat) + "\n"@
        + (if e.elem_type == ElementType::Process {
        "\n\n                    Mean length of queue = "@ + stats.0
            + "\n\n                    Failure probability = "@ + stats.1
            + "\n\n                    Total time stalling = "@ + stats.2 + "\n"@
    } else {
        Seq::empty()
    }) + "\n"@
}

/// The results of the first `n` elements, one after the other.
pub open spec fn all_results(elems: Seq<Element>, stats: Seq<(String, String, String)>, n: nat) -> Seq<char>
    decreases n,
{
    if n == 0 {
        Seq::empty()
    } else {
        all_results(elems, stats, (n - 1) as nat) + element_results(
            elems[n - 1],
            (stats[n - 1].0@, stats[n - 1].1@, stats[n - 1].2@),
        )
    }
}

/// The closing message of a run: a banner, the results of every element
/// with the figures of serving elements written as `stats`, and a closing
/// line.
pub fn results_message(elems: &Vec<Element>, stats: &Vec<(String, String, String)>) -> (s: String)
    requires
        stats@.len() == elems@.len(),
    ensures
        s@ == "\n\n-------------RESULTS-------------\n\n"@ + all_results(elems@, stats@, elems@.len())
            + "---------------------------------\n\n            Simulation is done successfully!"@,
{
    let mut msg = "\n\n-------------RESULTS-------------\n\n".to_owned();
    let ghost head = msg@;
    let n = elems.len();
    let mut i: usize = 0;
    while i < n
        invariant
            n == elems@.len(),
            stats@.len() == n,
            i <= n,
            msg@ == head + all_results(elems@, stats@, i as nat),
        decreases n - i,
    {
        let ghost before = msg@;
        let e = &elems[i];
        msg.append("##### ");
        msg.append(e.name.as_str());
        msg.append(" #####\n\n                quantity = ");
        let quantity = u32_decimal(e.quantity);
        msg.append(quantity.as_str());
        msg.append("\n");
        if e.elem_type == ElementType::Process {
            msg.append("\n\n                    Mean length of queue = ");
            msg.append(stats[i].0.as_str());
            msg.append("\n\n                    Failure probability = ");
            msg.append(stats[i].1.as_str());
            msg.append("\n\n                    Total time stalling = ");
            msg.append(stats[i].2.as_str());
            msg.append("\n");
        }
        msg.append("\n");
        assert(msg@ =~= before + element_results(
            elems@[i as int],
            (stats@[i as int].0@, stats@[i as int].1@, stats@[i as int].2@),
        ));
        assert(head + all_results(elems@, stats@, (i + 1) as nat) =~= before + element_results(
            elems@[i as int],
            (stats@[i as int].0@, stats@[i as int].1@, stats@[i as int].2@),
        ));
        i = i + 1;
    }
    msg.append("---------------------------------\n\n            Simulation is done successfully!");
    msg
}

} // verus!
