//! A simulation run: the elements, the count of events and the event log.
//!
//! The run itself alternates between drawing delays (floating point, done
//! by the caller) and the decisions made here: which element acts next,
//! which elements act at the current time and where their items go.
use vstd::prelude::*;
use vstd::string::*;

use crate::consts::NextElementType;
use crate::element::Element;
use crate::log::{recorded, EventLog};
use crate::report::{all_results, event_header, event_message, results_message, summaries};
use crate::routing::{
    balanced_choice, choice, choice_defined, find_element, free_places_defined, len_as_u32,
    lemma_find_id, loads, random_u32,
};
use crate::schedule::NEVER;
use crate::text::{decimal, usize_decimal};

verus! {

/// The earliest next time among the first `n` elements and the id of the
/// first element that has it; (`NEVER`, 0) when none acts before never.
pub open spec fn earliest(elems: Seq<Element>, n: nat) -> (u32, usize)
    decreases n,
{
    if n == 0 {
        (NEVER, 0)
    } else {
        let (t, id) = earliest(elems, (n - 1) as nat);
        let x = elems[n - 1].next_time();
        if x < t {
            (x, elems[n - 1].id)
        } else {
            (t, id)
        }
    }
}

/// The receiver of what element `out` finishes, and its routing rule
/// afterwards, given the draw `random`.
pub open spec fn in_act_choice(elems: Seq<Element>, out: int, random: u32) -> (
    Option<usize>,
    NextElementType,
) {
    choice(loads(elems), elems[out].next_elements@, elems[out].next_element_type, random)
}

/// The receiver of what element `out` finishes can be chosen without a panic.
pub open spec fn in_act_choice_defined(elems: Seq<Element>, out: int) -> bool {
    choice_defined(loads(elems), elems[out].next_elements@, elems[out].next_element_type)
}

/// The element with its routing rule replaced.
pub open spec fn with_rule(e: Element, rule: NextElementType) -> Element {
    Element { next_element_type: rule, ..e }
}

/// The positions, among the first `n`, of the elements that act at `tcurr`.
pub open spec fn fired(elems: Seq<Element>, tcurr: u32, n: nat) -> Seq<usize>
    decreases n,
{
    if n == 0 {
        Seq::empty()
    } else {
        let f = fired(elems, tcurr, (n - 1) as nat);
        if elems[n - 1].next_time() == tcurr {
            f.push((n - 1) as usize)
        } else {
            f
        }
    }
}

/// The receivers chosen for the elements, among the first `n`, that act at
/// `tcurr`, with `rs[i]` the draw for element `i`.
pub open spec fn receivers(elems: Seq<Element>, tcurr: u32, rs: Seq<u32>, n: nat) -> Seq<usize>
    decreases n,
{
    if n == 0 {
        Seq::empty()
    } else {
        let r = receivers(elems, tcurr, rs, (n - 1) as nat);
        if elems[n - 1].next_time() == tcurr {
            match in_act_choice(elems, n - 1, rs[n - 1]).0 {
                Some(x) => r.push(x),
                None => r,
            }
        } else {
            r
        }
    }
}

/// Element `i` after the routing decisions of one time step.
pub open spec fn routed(elems: Seq<Element>, i: int, tcurr: u32, random: u32) -> Element {
    if elems[i].next_time() == tcurr {
        with_rule(elems[i], in_act_choice(elems, i, random).1)
    } else {
        elems[i]
    }
}

/// The receivers of every element that acts at `tcurr` can be chosen.
pub open spec fn plan_defined(elems: Seq<Element>, tcurr: u32) -> bool {
    forall|i: int|
        0 <= i < elems.len() && #[trigger] elems[i].next_time() == tcurr ==> in_act_choice_defined(
            elems,
            i,
        )
}

/// The receivers depend on the draws of the first `n` elements only.
pub proof fn lemma_receivers_prefix(elems: Seq<Element>, tcurr: u32, a: Seq<u32>, b: Seq<u32>, n: nat)
    requires
        n <= a.len(),
        n <= b.len(),
        forall|i: int| 0 <= i < n ==> a[i] == b[i],
    ensures
        receivers(elems, tcurr, a, n) == receivers(elems, tcurr, b, n),
    decreases n,
{
    if n > 0 {
        lemma_receivers_prefix(elems, tcurr, a, b, (n - 1) as nat);
    }
}

/// The next event is the earliest: no element acts before it, and unless
/// no element acts before never, the first element that acts then is the
/// one named.
pub proof fn law_next_event_is_earliest(elems: Seq<Element>, n: nat)
    requires
        n <= elems.len(),
    ensures
        ({
            let (t, id) = earliest(elems, n);
            &&& forall|i: int| 0 <= i < n ==> t <= #[trigger] elems[i].next_time()
            &&& t <= NEVER
            &&& t == NEVER ==> id == 0
            &&& t != NEVER ==> exists|j: int|
                0 <= j < n && elems[j].next_time() == t && elems[j].id == id && forall|i: int|
                    0 <= i < j ==> t < #[trigger] elems[i].next_time()
        }),
    decreases n,
{
    if n > 0 {
        law_next_event_is_earliest(elems, (n - 1) as nat);
        let (t0, id0) = earliest(elems, (n - 1) as nat);
        let x = elems[n - 1].next_time();
        if x < t0 {
            assert(forall|i: int| 0 <= i < n - 1 ==> x < #[trigger] elems[i].next_time());
            assert(x != NEVER);
        } else if t0 != NEVER {
            let j = choose|j: int|
                0 <= j < n - 1 && elems[j].next_time() == t0 && elems[j].id == id0 && forall|i: int|
                    0 <= i < j ==> t0 < #[trigger] elems[i].next_time();
            assert(0 <= j < n && elems[j].next_time() == t0 && elems[j].id == id0);
        }
    }
}

/// The elements that act in a time step are exactly those whose next time
/// is the current time, in the order of their positions.
pub proof fn law_fired_are_due(elems: Seq<Element>, tcurr: u32, n: nat)
    requires
        n <= elems.len(),
        elems.len() <= usize::MAX,
    ensures
        forall|k: int| 0 <= k < fired(elems, tcurr, n).len() ==> {
            let i = #[trigger] fired(elems, tcurr, n)[k];
            &&& i < n
            &&& elems[i as int].next_time() == tcurr
        },
        forall|i: int, k: int| 0 <= i < k < fired(elems, tcurr, n).len() ==> fired(elems, tcurr, n)[i]
            < fired(elems, tcurr, n)[k],
        forall|i: int|
            0 <= i < n && #[trigger] elems[i].next_time() == tcurr ==> fired(elems, tcurr, n).contains(
                i as usize,
            ),
    decreases n,
{
    if n > 0 {
        law_fired_are_due(elems, tcurr, (n - 1) as nat);
        let f0 = fired(elems, tcurr, (n - 1) as nat);
        if elems[n - 1].next_time() == tcurr {
            let f = f0.push((n - 1) as usize);
            assert forall|i: int, k: int| 0 <= i < k < f.len() implies f[i] < f[k] by {
                if k == f.len() - 1 {
                    assert(f0[i] < n - 1);
                }
            }
            assert forall|i: int| 0 <= i < n && #[trigger] elems[i].next_time() == tcurr implies f.contains(
                i as usize,
            ) by {
                if i < n - 1 {
                    let k = choose|k: int| 0 <= k < f0.len() && f0[k] == i as usize;
                    assert(f[k] == i as usize);
                } else {
                    assert(f[f.len() - 1] == i as usize);
                }
            }
        }
    }
}

/// Every element that acts in a time step and has a receiver hands one
/// item on: the receivers planned are the choices of the acting elements,
/// in their order, one for each that has a receiver.
pub proof fn law_every_acting_element_is_routed(elems: Seq<Element>, tcurr: u32, rs: Seq<u32>, n: nat)
    requires
        n <= elems.len(),
        elems.len() <= usize::MAX,
        n <= rs.len(),
    ensures
        receivers(elems, tcurr, rs, n) == fired(elems, tcurr, n).filter_map(
            |i: usize| in_act_choice(elems, i as int, rs[i as int]).0,
        ),
    decreases n,
{
    let f = |i: usize| in_act_choice(elems, i as int, rs[i as int]).0;
    if n > 0 {
        law_every_acting_element_is_routed(elems, tcurr, rs, (n - 1) as nat);
        let prev = fired(elems, tcurr, (n - 1) as nat);
        if elems[n - 1].next_time() == tcurr {
            let cur = prev.push((n - 1) as usize);
            assert(cur.drop_last() =~= prev);
            assert(cur.last() == (n - 1) as usize);
            match f((n - 1) as usize) {
                Some(x) => {
                    assert(cur.filter_map(f) == prev.filter_map(f) + seq![x]);
                    assert(prev.filter_map(f) + seq![x] =~= prev.filter_map(f).push(x));
                },
                None => {
                    assert(cur.filter_map(f) == prev.filter_map(f));
                },
            }
        }
    }
}

/// A simulation run.
pub struct Model {
    elements: Vec<Element>,
    iters: u32,
    log: EventLog,
}

impl Model {
    /// The elements.
    pub closed spec fn elements_view(&self) -> Seq<Element> {
        self.elements@
    }

    /// The number of events so far.
    pub closed spec fn iters_view(&self) -> u32 {
        self.iters
    }

    /// The first messages of the log.
    pub closed spec fn log_first(&self) -> Seq<Seq<char>> {
        self.log.first_view()
    }

    /// The latest messages of the log.
    pub closed spec fn log_last(&self) -> Seq<Seq<char>> {
        self.log.last_view()
    }

    /// How many messages each part of the log keeps.
    pub closed spec fn log_max_size(&self) -> usize {
        self.log.max_size_view()
    }

    /// A run over `elements` with no event yet and an empty log.
    pub fn new(elements: Vec<Element>, log_max_size: usize) -> (m: Self)
        requires
            log_max_size < usize::MAX,
        ensures
            m.elements_view() == elements@,
            m.iters_view() == 0,
            m.log_first() == Seq::<Seq<char>>::empty(),
            m.log_last() == Seq::<Seq<char>>::empty(),
            m.log_max_size() == log_max_size,
    {
        Model { elements, iters: 0, log: EventLog::new(log_max_size) }
    }

    /// The elements.
    pub fn elements(&self) -> (v: &Vec<Element>)
        ensures
            v@ == self.elements_view(),
    {
        &self.elements
    }

    /// Element `i`, to change.
    pub fn element_mut(&mut self, i: usize) -> (e: &mut Element)
        requires
            i < old(self).elements_view().len(),
        ensures
            *e == old(self).elements_view()[i as int],
            final(self).elements_view() == old(self).elements_view().update(i as int, *final(e)),
            final(self).iters_view() == old(self).iters_view(),
            final(self).log_first() == old(self).log_first(),
            final(self).log_last() == old(self).log_last(),
            final(self).log_max_size() == old(self).log_max_size(),
    {
        &mut self.elements[i]
    }

    /// The number of events so far.
    pub fn iters(&self) -> (n: u32)
        ensures
            n == self.iters_view(),
    {
        self.iters
    }

    /// The event log.
    pub fn log(&self) -> (l: &EventLog)
        ensures
            l.first_view() == self.log_first(),
            l.last_view() == self.log_last(),
            l.max_size_view() == self.log_max_size(),
    {
        &self.log
    }

    /// The next event: the earliest next time of any element, and the id of
    /// the first element that acts then.
    pub fn next_event(&self) -> (r: (u32, usize))
        ensures
            r == earliest(self.elements_view(), self.elements_view().len()),
    {
        let mut tnext: u32 = NEVER;
        let mut event_id: usize = 0;
        let n = self.elements.len();
        let mut i: usize = 0;
        while i < n
            invariant
                n == self.elements@.len(),
                i <= n,
                (tnext, event_id) == earliest(self.elements@, i as nat),
            decreases n - i,
        {
            let t = self.elements[i].get_tnext();
            if t < tnext {
                tnext = t;
                event_id = self.elements[i].id;
            }
            i = i + 1;
        }
        (tnext, event_id)
    }

    /// Whether the receiver of what element `out` finishes can be chosen
    /// without a panic.
    pub fn in_act_choice_is_defined(&self, out: usize) -> (r: bool)
        requires
            out < self.elements_view().len(),
        ensures
            r == in_act_choice_defined(self.elements_view(), out as int),
    {
        let next = &self.elements[out].next_elements;
        let len = next.len();
        if len <= 1 {
            return true;
        }
        match self.elements[out].next_element_type {
            NextElementType::Random => len_as_u32(len) != 0,
            NextElementType::RoundRobin(idx) => idx == len || idx < usize::MAX,
            NextElementType::Balanced => {
                let ghost ls = loads(self.elements@);
                let mut k: usize = 0;
                while k < len
                    invariant
                        len == next@.len(),
                        out < self.elements@.len(),
                        *next == self.elements@[out as int].next_elements,
                        self.elements@[out as int].next_element_type == NextElementType::Balanced,
                        len > 1,
                        ls == loads(self.elements@),
                        k <= len,
                        forall|q: int| 0 <= q < k ==> free_places_defined(ls, #[trigger] next@[q]),
                    decreases len - k,
                {
                    let id = next[k];
                    proof {
                        lemma_find_id(ls, id, ls.len());
                    }
                    match find_element(&self.elements, id) {
                        Some(j) => {
                            assert(ls[j as int] == crate::routing::load_of(self.elements@[j as int]));
                            if self.elements[j].queue < self.elements[j].state {
                                assert(!free_places_defined(ls, next@[k as int]));
                                return false;
                            }
                        },
                        None => {
                            assert(!free_places_defined(ls, next@[k as int]));
                            return false;
                        },
                    }
                    k = k + 1;
                }
                true
            },
        }
    }

    /// Whether the receivers of every element that acts at `tcurr` can be
    /// chosen without a panic.
    pub fn plan_is_defined(&self, tcurr: u32) -> (r: bool)
        ensures
            r == plan_defined(self.elements_view(), tcurr),
    {
        let n = self.elements.len();
        let mut i: usize = 0;
        while i < n
            invariant
                n == self.elements@.len(),
                i <= n,
                forall|j: int|
                    0 <= j < i && #[trigger] self.elements@[j].next_time() == tcurr
                        ==> in_act_choice_defined(self.elements@, j),
            decreases n - i,
        {
            if self.elements[i].get_tnext() == tcurr && !self.in_act_choice_is_defined(i) {
                return false;
            }
            i = i + 1;
        }
        true
    }

    /// Chooses the receiver of what element `out` finishes, given the draw
    /// `random`, and advances an in-turn counter.
    pub fn choose_in_act_element(&mut self, out: usize, random: u32) -> (r: Option<usize>)
        requires
            out < old(self).elements_view().len(),
            in_act_choice_defined(old(self).elements_view(), out as int),
        ensures
            r == in_act_choice(old(self).elements_view(), out as int, random).0,
            final(self).elements_view() == old(self).elements_view().update(
                out as int,
                with_rule(
                    old(self).elements_view()[out as int],
                    in_act_choice(old(self).elements_view(), out as int, random).1,
                ),
            ),
            final(self).iters_view() == old(self).iters_view(),
            final(self).log_first() == old(self).log_first(),
            final(self).log_last() == old(self).log_last(),
            final(self).log_max_size() == old(self).log_max_size(),
    {
        let len = self.elements[out].next_elements.len();
        if len == 1 {
            return Some(self.elements[out].next_elements[0]);
        }
        match self.elements[out].next_element_type {
            NextElementType::Random => {
                if len > 0 {
                    Some((random % len_as_u32(len)) as usize)
                } else {
                    None
                }
            },
            NextElementType::RoundRobin(idx) => {
                if len > 0 {
                    let from = if idx == len {
                        0
                    } else {
                        idx
                    };
                    let next = from + 1;
                    self.elements[out].next_element_type = NextElementType::RoundRobin(next);
                    Some(next)
                } else {
                    None
                }
            },
            NextElementType::Balanced => {
                if len > 0 {
                    Some(balanced_choice(&self.elements, &self.elements[out].next_elements))
                } else {
                    None
                }
            },
        }
    }

    /// Chooses the receiver, drawing a random number where the rule needs one.
    fn pick_with_draw(&mut self, out: usize) -> (r: (Option<usize>, Ghost<u32>))
        requires
            out < old(self).elements_view().len(),
            in_act_choice_defined(old(self).elements_view(), out as int),
        ensures
            r.0 == in_act_choice(old(self).elements_view(), out as int, r.1@).0,
            final(self).elements_view() == old(self).elements_view().update(
                out as int,
                with_rule(
                    old(self).elements_view()[out as int],
                    in_act_choice(old(self).elements_view(), out as int, r.1@).1,
                ),
            ),
            final(self).iters_view() == old(self).iters_view(),
            final(self).log_first() == old(self).log_first(),
            final(self).log_last() == old(self).log_last(),
            final(self).log_max_size() == old(self).log_max_size(),
    {
        let random = match self.elements[out].next_element_type {
            NextElementType::Random => {
                if self.elements[out].next_elements.len() > 1 {
                    random_u32()
                } else {
                    0
                }
            },
            _ => 0,
        };
        let r = self.choose_in_act_element(out, random);
        (r, Ghost(random))
    }

    /// Chooses the receiver of what element `out` finishes; a random rule
    /// draws from `rand`'s thread-local generator.
    pub fn pick_in_act_element(&mut self, out: usize) -> (r: Option<usize>)
        requires
            out < old(self).elements_view().len(),
            in_act_choice_defined(old(self).elements_view(), out as int),
        ensures
            exists|random: u32|
                {
                    &&& r == in_act_choice(old(self).elements_view(), out as int, random).0
                    &&& final(self).elements_view() == old(self).elements_view().update(
                        out as int,
                        with_rule(
                            old(self).elements_view()[out as int],
                            in_act_choice(old(self).elements_view(), out as int, random).1,
                        ),
                    )
                },
            final(self).iters_view() == old(self).iters_view(),
            final(self).log_first() == old(self).log_first(),
            final(self).log_last() == old(self).log_last(),
            final(self).log_max_size() == old(self).log_max_size(),
    {
        let (r, Ghost(random)) = self.pick_with_draw(out);
        r
    }

    /// The routing decisions of one time step: the positions of the elements
    /// that act at `tcurr`, in order, and the receivers chosen for them.
    pub fn plan_actions(&mut self, tcurr: u32) -> (r: (Vec<usize>, Vec<usize>))
        requires
            plan_defined(old(self).elements_view(), tcurr),
        ensures
            r.0@ == fired(old(self).elements_view(), tcurr, old(self).elements_view().len()),
            exists|rs: Seq<u32>|
                {
                    &&& rs.len() == old(self).elements_view().len()
                    &&& r.1@ == receivers(
                        old(self).elements_view(),
                        tcurr,
                        rs,
                        old(self).elements_view().len(),
                    )
                    &&& r.1@ == fired(old(self).elements_view(), tcurr, old(self).elements_view().len()).filter_map(
                        |i: usize| in_act_choice(old(self).elements_view(), i as int, rs[i as int]).0,
                    )
                    &&& final(self).elements_view().len() == old(self).elements_view().len()
                    &&& forall|i: int|
                        0 <= i < rs.len() ==> #[trigger] final(self).elements_view()[i] == routed(
                            old(self).elements_view(),
                            i,
                            tcurr,
                            rs[i],
                        )
                },
            final(self).iters_view() == old(self).iters_view(),
            final(self).log_first() == old(self).log_first(),
            final(self).log_last() == old(self).log_last(),
            final(self).log_max_size() == old(self).log_max_size(),
    {
        let ghost start = self.elements@;
        let n = self.elements.len();
        let mut to_out_act: Vec<usize> = Vec::with_capacity(n);
        let mut to_in_act: Vec<usize> = Vec::with_capacity(n);
        let ghost mut rs: Seq<u32> = Seq::empty();
        let mut i: usize = 0;
        while i < n
            invariant
                n == start.len(),
                i <= n,
                rs.len() == i,
                plan_defined(start, tcurr),
                self.elements@.len() == n,
                loads(self.elements@) == loads(start),
                forall|j: int| i <= j < n ==> #[trigger] self.elements@[j] == start[j],
                forall|j: int| 0 <= j < i ==> #[trigger] self.elements@[j] == routed(start, j, tcurr, rs[j]),
                to_out_act@ == fired(start, tcurr, i as nat),
                to_in_act@ == receivers(start, tcurr, rs, i as nat),
                self.iters == old(self).iters,
                self.log.first_view() == old(self).log.first_view(),
                self.log.last_view() == old(self).log.last_view(),
                self.log.max_size_view() == old(self).log.max_size_view(),
            decreases n - i,
        {
            let ghost before = self.elements@;
            if self.elements[i].get_tnext() == tcurr {
                to_out_act.push(i);
                assert(start[i as int].next_time() == tcurr);
                assert(in_act_choice(before, i as int, 0) == in_act_choice(start, i as int, 0));
                let (picked, Ghost(random)) = self.pick_with_draw(i);
                assert(in_act_choice(before, i as int, random) == in_act_choice(start, i as int, random));
                match picked {
                    Some(x) => to_in_act.push(x),
                    None => {},
                }
                proof {
                    let rs2 = rs.push(random);
                    lemma_receivers_prefix(start, tcurr, rs, rs2, i as nat);
                    rs = rs2;
                    assert(loads(self.elements@) =~= loads(before));
                }
            } else {
                proof {
                    let rs2 = rs.push(0);
                    lemma_receivers_prefix(start, tcurr, rs, rs2, i as nat);
                    rs = rs2;
                }
            }
            i = i + 1;
        }
        proof {
            law_every_acting_element_is_routed(start, tcurr, rs, n as nat);
        }
        (to_out_act, to_in_act)
    }

    /// Counts one more event and gives the new count.
    pub fn count_event(&mut self) -> (n: u32)
        requires
            old(self).iters_view() < u32::MAX,
        ensures
            n == old(self).iters_view() + 1,
            final(self).iters_view() == n,
            final(self).elements_view() == old(self).elements_view(),
            final(self).log_first() == old(self).log_first(),
            final(self).log_last() == old(self).log_last(),
            final(self).log_max_size() == old(self).log_max_size(),
    {
        self.iters = self.iters + 1;
        self.iters
    }

    /// Opens the log with the number of elements.
    pub fn log_start(&mut self)
        ensures
            final(self).log_first() == old(self).log_first().push(
                "There are "@ + decimal(old(self).elements_view().len()) + " elements in the simulation"@,
            ),
            final(self).log_last() == old(self).log_last(),
            final(self).log_max_size() == old(self).log_max_size(),
            final(self).elements_view() == old(self).elements_view(),
            final(self).iters_view() == old(self).iters_view(),
    {
        let count = usize_decimal(self.elements.len());
        let msg = "There are ".to_owned().concat(count.as_str()).concat(" elements in the simulation");
        self.log.push_first(msg);
    }

    /// Records the message of the latest event, which happened in element
    /// `event_id` at the time written as `time`: its number, and the summary
    /// of every element with its next time and average load written as
    /// `texts`.
    pub fn log_event(&mut self, event_id: usize, time: &str, texts: &Vec<(String, String)>)
        requires
            event_id < old(self).elements_view().len(),
            texts@.len() == old(self).elements_view().len(),
        ensures
            (final(self).log_first(), final(self).log_last()) == recorded(
                old(self).log_first(),
                old(self).log_last(),
                old(self).log_max_size(),
                event_header(
                    old(self).iters_view(),
                    old(self).elements_view()[event_id as int].name@,
                    time@,
                ) + summaries(old(self).elements_view(), texts@, old(self).elements_view().len()),
            ),
            final(self).log_max_size() == old(self).log_max_size(),
            final(self).elements_view() == old(self).elements_view(),
            final(self).iters_view() == old(self).iters_view(),
    {
        let msg = event_message(&self.elements, self.iters, event_id, time, texts);
        self.log.record(msg);
    }

    /// Adds the results of the run after the latest messages: every
    /// element's results, with the figures of serving elements written as
    /// `stats`.
    pub fn log_sim_results(&mut self, stats: &Vec<(String, String, String)>)
        requires
            stats@.len() == old(self).elements_view().len(),
        ensures
            final(self).log_first() == old(self).log_first(),
            final(self).log_last() == old(self).log_last().push(
                "\n\n-------------RESULTS-------------\n\n"@ + all_results(
                    old(self).elements_view(),
                    stats@,
                    old(self).elements_view().len(),
                ) + "---------------------------------\n\n            Simulation is done successfully!"@,
            ),
            final(self).log_max_size() == old(self).log_max_size(),
            final(self).elements_view() == old(self).elements_view(),
            final(self).iters_view() == old(self).iters_view(),
    {
        let msg = results_message(&self.elements, stats);
        self.log.push_last(msg);
    }

    /// Takes the first character (a line break) of the oldest latest message away.
    pub fn trim_log_last(&mut self)
        requires
            old(self).log_last().len() > 0,
            old(self).log_last()[0].len() > 0,
        ensures
            final(self).log_first() == old(self).log_first(),
            final(self).log_last() == old(self).log_last().update(0, old(self).log_last()[0].drop_first()),
            final(self).log_max_size() == old(self).log_max_size(),
            final(self).elements_view() == old(self).elements_view(),
            final(self).iters_view() == old(self).iters_view(),
    {
        self.log.trim_front_of_last();
    }
}

} // verus!
