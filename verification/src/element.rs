//! An element of the network: its setup, its counters and its pending times.
use vstd::prelude::*;
use vstd::multiset::Multiset;
use vstd::string::*;

use crate::consts::{DistributionType, ElementType, NextElementType};
use crate::schedule::{greatest, TimeQueue, FIRST_ARRIVAL, NEVER};
use crate::text::{decimal, summary_head, usize_decimal};
use crate::{create, dispose, process};

verus! {

/// The id that follows `id`; ids wrap around as `AtomicUsize::fetch_add` does.
pub open spec fn id_after(id: usize) -> usize {
    if id == usize::MAX {
        0
    } else {
        (id + 1) as usize
    }
}

/// Hands out element ids in increasing order, starting at 0.
pub struct IdCounter {
    next: usize,
}

impl IdCounter {
    /// The id that the counter hands out next.
    pub closed spec fn next_id(&self) -> usize {
        self.next
    }

    /// A counter that starts at 0.
    pub fn new() -> (c: Self)
        ensures
            c.next_id() == 0,
    {
        IdCounter { next: 0 }
    }

    /// The id that the counter hands out next, without handing it out.
    pub fn peek_next_id(&self) -> (id: usize)
        ensures
            id == self.next_id(),
    {
        self.next
    }

    /// Hands out the next id.
    pub fn get_next_id(&mut self) -> (id: usize)
        ensures
            id == old(self).next_id(),
            final(self).next_id() == id_after(id),
    {
        let id = self.next;
        if self.next == usize::MAX {
            self.next = 0;
        } else {
            self.next = self.next + 1;
        }
        id
    }
}

/// The counters that an element's actions change.
pub struct Counters {
    /// Busy workers.
    pub state: u32,
    /// Items waiting.
    pub queue: u32,
    /// Items finished.
    pub quantity: u32,
    /// Items turned away.
    pub failure: u32,
}

/// The prefix of the name that an element of the given type gets.
pub open spec fn type_prefix(t: ElementType) -> Seq<char> {
    match t {
        ElementType::Create => "Create"@,
        ElementType::Process => "Process"@,
        ElementType::Dispose => "Dispose"@,
    }
}

/// The time at which a new element of the given type first acts.
pub open spec fn initial_time(t: ElementType) -> u32 {
    match t {
        ElementType::Create => FIRST_ARRIVAL,
        _ => NEVER,
    }
}

/// The pending times that are left after the greatest is taken away.
pub open spec fn without_greatest(ms: Multiset<u32>) -> Multiset<u32> {
    match greatest(ms) {
        Some(m) => ms.remove(m),
        None => ms,
    }
}

/// The summary text of a disposing element.
pub open spec fn dispose_summary(e: Element) -> Seq<char> {
    summary_head(e.name@) + "quantity = "@ + decimal(e.quantity as nat)
}

/// The summary text of a creating element.
pub open spec fn create_summary(e: Element, tnext: Seq<char>, load: Seq<char>) -> Seq<char> {
    summary_head(e.name@) + "quantity = "@ + decimal(e.quantity as nat) + " | queue = "@ + decimal(
        e.queue as nat,
    ) + " | tnext = "@ + tnext + " | average_load = "@ + load + "\n\n        failure = "@ + decimal(
        e.failure as nat,
    )
}

/// The summary text of a serving element.
pub open spec fn process_summary(e: Element, tnext: Seq<char>, load: Seq<char>) -> Seq<char> {
    summary_head(e.name@) + "state = "@ + decimal(e.state as nat) + " | quantity = "@ + decimal(
        e.quantity as nat,
    ) + " | queue = "@ + decimal(e.queue as nat) + " | tnext = "@ + tnext + " | average_load = "@
        + load + "\n\n        failure = "@ + decimal(e.failure as nat)
}

/// One element of the network.
#[derive(Debug)]
pub struct Element {
    pub id: usize,
    pub name: String,
    pub worker_count: u32,
    pub elem_type: ElementType,
    /// Pending times; the element acts at the greatest.
    pub tnext: TimeQueue,
    pub distribution: DistributionType,
    /// The shape of an Erlang distribution.
    pub k: u32,
    pub next_element_type: NextElementType,
    /// Ids of the elements that receive what this element finishes.
    pub next_elements: Vec<usize>,
    /// The position that the in-turn routing of `shortcuts::out_act` hands out next.
    pub round_robin_idx: usize,
    pub state: u32,
    pub queue: u32,
    pub quantity: u32,
    pub max_queue: u32,
    pub failure: u32,
    /// Busy workers summed over whole time steps.
    pub state_sum: u32,
}

impl Element {
    /// The counters that actions change.
    pub open spec fn counters(self) -> Counters {
        Counters {
            state: self.state,
            queue: self.queue,
            quantity: self.quantity,
            failure: self.failure,
        }
    }

    /// The time at which the element acts next: the greatest pending time,
    /// or never.
    pub open spec fn next_time(self) -> u32 {
        match greatest(self.tnext@) {
            Some(m) => m,
            None => NEVER,
        }
    }

    /// Everything but the counters and the pending times is as in `other`.
    pub open spec fn same_setup(self, other: Element) -> bool {
        &&& self.id == other.id
        &&& self.name@ == other.name@
        &&& self.worker_count == other.worker_count
        &&& self.elem_type == other.elem_type
        &&& self.distribution == other.distribution
        &&& self.k == other.k
        &&& self.next_element_type == other.next_element_type
        &&& self.next_elements@ == other.next_elements@
        &&& self.round_robin_idx == other.round_robin_idx
        &&& self.max_queue == other.max_queue
    }

    /// A new element with the given id, as `new` makes it.
    pub open spec fn is_fresh(self, id: usize, worker_count: u32, elem_type: ElementType) -> bool {
        &&& self.id == id
        &&& self.name@ == type_prefix(elem_type) + decimal(id as nat)
        &&& self.worker_count == worker_count
        &&& self.elem_type == elem_type
        &&& self.tnext@ == Multiset::<u32>::empty().insert(initial_time(elem_type))
        &&& self.distribution == DistributionType::Exponential
        &&& self.k == 0
        &&& self.next_element_type == NextElementType::Random
        &&& self.next_elements@.len() == 0
        &&& self.round_robin_idx == 0
        &&& self.state == 0
        &&& self.queue == 0
        &&& self.quantity == 0
        &&& self.max_queue == 0
        &&& self.failure == 0
        &&& self.state_sum == 0
    }

    /// A new element that takes the next id of `ids`. A creating element
    /// first acts at `FIRST_ARRIVAL`, the others never until they are given
    /// work.
    pub fn new(ids: &mut IdCounter, worker_count: u32, elem_type: ElementType) -> (e: Element)
        ensures
            e.is_fresh(old(ids).next_id(), worker_count, elem_type),
            final(ids).next_id() == id_after(old(ids).next_id()),
    {
        let id = ids.get_next_id();
        let prefix = match elem_type {
            ElementType::Create => "Create",
            ElementType::Process => "Process",
            ElementType::Dispose => "Dispose",
        };
        let digits = usize_decimal(id);
        let name = prefix.to_owned().concat(digits.as_str());
        let mut tnext = TimeQueue::new();
        match elem_type {
            ElementType::Create => tnext.push(FIRST_ARRIVAL),
            ElementType::Process => tnext.push(NEVER),
            ElementType::Dispose => tnext.push(NEVER),
        }
        Element {
            id,
            name,
            worker_count,
            elem_type,
            tnext,
            distribution: DistributionType::Exponential,
            k: 0,
            next_element_type: NextElementType::Random,
            next_elements: Vec::new(),
            round_robin_idx: 0,
            state: 0,
            queue: 0,
            quantity: 0,
            max_queue: 0,
            failure: 0,
            state_sum: 0,
        }
    }

    /// The time at which the element acts next.
    pub fn get_tnext(&self) -> (t: u32)
        ensures
            t == self.next_time(),
    {
        match self.tnext.peek() {
            Some(t) => t,
            None => NEVER,
        }
    }

    /// Sets the routing rule and the receivers.
    pub fn set_next_element_type(&mut self, next_type: NextElementType, next_elements: Vec<usize>)
        ensures
            final(self).next_element_type == next_type,
            final(self).next_elements@ == next_elements@,
            final(self).id == old(self).id,
            final(self).name@ == old(self).name@,
            final(self).worker_count == old(self).worker_count,
            final(self).elem_type == old(self).elem_type,
            final(self).tnext@ == old(self).tnext@,
            final(self).counters() == old(self).counters(),
            final(self).state_sum == old(self).state_sum,
    {
        self.next_element_type = next_type;
        self.next_elements = next_elements;
    }

    /// Adds the pending time `t`.
    pub fn put_tnext(&mut self, t: u32)
        ensures
            final(self).tnext@ == old(self).tnext@.insert(t),
            final(self).same_setup(*old(self)),
            final(self).counters() == old(self).counters(),
            final(self).state_sum == old(self).state_sum,
    {
        self.tnext.push(t);
    }

    /// Takes the greatest pending time away.
    pub fn pop_tnext(&mut self)
        ensures
            final(self).tnext@ == without_greatest(old(self).tnext@),
            final(self).same_setup(*old(self)),
            final(self).counters() == old(self).counters(),
            final(self).state_sum == old(self).state_sum,
    {
        let _ = self.tnext.pop();
    }

    /// An arrival starts a service, so `in_act` needs the time it ends.
    pub open spec fn spec_in_act_starts(&self) -> bool {
        self.elem_type == ElementType::Process && process::in_act_starts(self.counters(), self.worker_count)
    }

    /// An arrival stays clear of counter overflow.
    pub open spec fn spec_in_act_defined(&self) -> bool {
        match self.elem_type {
            ElementType::Create => true,
            ElementType::Process => process::in_act_defined(self.counters(), self.worker_count),
            ElementType::Dispose => self.quantity < u32::MAX,
        }
    }

    /// The counters after an arrival.
    pub open spec fn counters_after_in_act(self) -> Counters {
        match self.elem_type {
            ElementType::Create => self.counters(),
            ElementType::Process => process::in_act_counters(self.counters(), self.worker_count),
            ElementType::Dispose => Counters { quantity: (self.quantity + 1) as u32, ..self.counters() },
        }
    }

    /// A completion schedules another: a creating element always does, a
    /// serving element when an item waits.
    pub open spec fn spec_out_act_starts(&self) -> bool {
        match self.elem_type {
            ElementType::Create => true,
            ElementType::Process => process::out_act_starts(self.counters()),
            ElementType::Dispose => false,
        }
    }

    /// A completion stays clear of counter underflow and overflow.
    pub open spec fn spec_out_act_defined(&self) -> bool {
        match self.elem_type {
            ElementType::Process => process::out_act_defined(self.counters()),
            _ => self.quantity < u32::MAX,
        }
    }

    /// The counters after a completion.
    pub open spec fn counters_after_out_act(self) -> Counters {
        match self.elem_type {
            ElementType::Process => process::out_act_counters(self.counters()),
            _ => Counters { quantity: (self.quantity + 1) as u32, ..self.counters() },
        }
    }

    /// The pending times after a completion that schedules `completion`.
    pub open spec fn times_after_out_act(self, completion: Option<u32>) -> Multiset<u32> {
        match self.elem_type {
            ElementType::Dispose => self.tnext@,
            _ => without_greatest(
                match completion {
                    Some(t) => self.tnext@.insert(t),
                    None => self.tnext@,
                },
            ),
        }
    }

    /// Whether an arrival starts a service.
    #[verifier::when_used_as_spec(spec_in_act_starts)]
    pub fn in_act_starts(&self) -> (r: bool)
        ensures
            r == self.spec_in_act_starts(),
    {
        match self.elem_type {
            ElementType::Process => self.state < self.worker_count,
            _ => false,
        }
    }

    /// Whether an arrival stays clear of counter overflow.
    #[verifier::when_used_as_spec(spec_in_act_defined)]
    pub fn in_act_defined(&self) -> (r: bool)
        ensures
            r == self.spec_in_act_defined(),
    {
        match self.elem_type {
            ElementType::Create => true,
            ElementType::Process => {
                if self.state < self.worker_count {
                    true
                } else if self.queue > 0 {
                    self.queue < u32::MAX
                } else {
                    self.failure < u32::MAX
                }
            },
            ElementType::Dispose => self.quantity < u32::MAX,
        }
    }

    /// Whether a completion schedules another.
    #[verifier::when_used_as_spec(spec_out_act_starts)]
    pub fn out_act_starts(&self) -> (r: bool)
        ensures
            r == self.spec_out_act_starts(),
    {
        match self.elem_type {
            ElementType::Create => true,
            ElementType::Process => self.queue > 0,
            ElementType::Dispose => false,
        }
    }

    /// Whether a completion stays clear of counter underflow and overflow.
    #[verifier::when_used_as_spec(spec_out_act_defined)]
    pub fn out_act_defined(&self) -> (r: bool)
        ensures
            r == self.spec_out_act_defined(),
    {
        match self.elem_type {
            ElementType::Process => self.state > 0 && self.quantity < u32::MAX,
            _ => self.quantity < u32::MAX,
        }
    }

    /// An item arrives. Where it starts a service, `completion` is the time
    /// at which the service ends.
    pub fn in_act(&mut self, completion: Option<u32>)
        requires
            old(self).spec_in_act_defined(),
            completion is Some <==> old(self).spec_in_act_starts(),
        ensures
            final(self).counters() == old(self).counters_after_in_act(),
            final(self).tnext@ == match completion {
                Some(t) => old(self).tnext@.insert(t),
                None => old(self).tnext@,
            },
            final(self).state_sum == old(self).state_sum,
            final(self).same_setup(*old(self)),
    {
        match self.elem_type {
            ElementType::Create => create::in_act(),
            ElementType::Process => process::in_act(self, completion),
            ElementType::Dispose => dispose::in_act(self),
        }
    }

    /// An item is finished and handed on. Where this schedules another
    /// completion, `completion` is its time. The result tells whether a
    /// serving element's worker became free.
    pub fn out_act(&mut self, completion: Option<u32>) -> (idle: bool)
        requires
            old(self).spec_out_act_defined(),
            completion is Some <==> old(self).spec_out_act_starts(),
        ensures
            idle == (old(self).elem_type == ElementType::Process && !old(self).spec_out_act_starts()),
            final(self).counters() == old(self).counters_after_out_act(),
            final(self).tnext@ == old(self).times_after_out_act(completion),
            final(self).state_sum == old(self).state_sum,
            final(self).same_setup(*old(self)),
    {
        match self.elem_type {
            ElementType::Create => {
                let t = match completion {
                    Some(t) => t,
                    None => NEVER,
                };
                create::out_act(self, t);
                false
            },
            ElementType::Process => process::out_act(self, completion),
            ElementType::Dispose => {
                dispose::out_act(self);
                false
            },
        }
    }

    /// Adds the busy workers over `delta` whole time units to the running
    /// sum; only serving elements keep it.
    pub fn do_statistics(&mut self, delta: u32)
        requires
            old(self).elem_type == ElementType::Process ==> old(self).state * delta
                + old(self).state_sum <= u32::MAX,
        ensures
            final(self).state_sum == if old(self).elem_type == ElementType::Process {
                old(self).state_sum + old(self).state * delta
            } else {
                old(self).state_sum as int
            },
            final(self).counters() == old(self).counters(),
            final(self).tnext@ == old(self).tnext@,
            final(self).same_setup(*old(self)),
    {
        match self.elem_type {
            ElementType::Create => {},
            ElementType::Process => process::do_statistics(self, delta),
            ElementType::Dispose => {},
        }
    }

    /// The summary of the element; the next time and the average load come
    /// written by the caller, and a disposing element shows neither.
    pub fn get_summary(&self, nearest_tnext: String, average_load: String) -> (s: String)
        ensures
            self.elem_type == ElementType::Dispose ==> s@ == dispose_summary(*self),
            self.elem_type == ElementType::Create ==> s@ == create_summary(*self, nearest_tnext@, average_load@),
            self.elem_type == ElementType::Process ==> s@ == process_summary(*self, nearest_tnext@, average_load@),
    {
        match self.elem_type {
            ElementType::Create => create::get_summary(self, nearest_tnext, average_load),
            ElementType::Process => process::get_summary(self, nearest_tnext, average_load),
            ElementType::Dispose => dispose::get_summary(self),
        }
    }
}

} // verus!
