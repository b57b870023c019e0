//! Routing from an element to the elements it owns as receivers.
//!
//! Unlike `Model::pick_in_act_element`, which routes by ids among all the
//! elements of a run, this routing takes the receivers themselves and
//! answers with a position among them; the in-turn counter is the element's
//! `round_robin_idx`.
use vstd::prelude::*;

use crate::consts::NextElementType;
use crate::element::Element;
use crate::routing::{len_as_u32, lemma_rr_counter_closed_form, random_u32, rr_counter_after, rr_turn};

verus! {

/// What this routing reads of each receiver: its queue and busy workers.
pub open spec fn queue_loads(next: Seq<Element>) -> Seq<(u32, u32)> {
    next.map_values(|e: Element| (e.queue, e.state))
}

/// The fewest free places among the first `n`
/// receivers and the first position that has them; (`i32::MAX`, 0) before
/// any receiver has fewer.
pub open spec fn least_loaded(loads: Seq<(u32, u32)>, n: nat) -> (int, usize)
    decreases n,
{
    if n == 0 {
        (i32::MAX as int, 0)
    } else {
        let (best, at) = least_loaded(loads, (n - 1) as nat);
        let f = free_places(loads[n - 1]);
        if f < best {
            (f, (n - 1) as usize)
        } else {
            (best, at)
        }
    }
}

/// The value of `x as i32`: above `i32::MAX` a `u32` wraps to a negative number.
pub open spec fn as_i32(x: u32) -> int {
    if x <= i32::MAX {
        x as int
    } else {
        x - 0x1_0000_0000
    }
}

/// The free places of a receiver, queue minus busy workers, each read as `i32`.
pub open spec fn free_places(load: (u32, u32)) -> int {
    as_i32(load.0) - as_i32(load.1)
}

/// The free places of a receiver can be counted as an `i32` without overflow.
pub open spec fn fits_i32(load: (u32, u32)) -> bool {
    i32::MIN <= free_places(load) <= i32::MAX
}

/// Reads `x` as `i32`, as `as` does.
fn to_i32(x: u32) -> (r: i32)
    ensures
        r == as_i32(x),
{
    let r = x as i32;
    assert(x <= 0x7fff_ffff ==> r == x) by (bit_vector)
        requires
            r == x as i32,
    ;
    assert(x > 0x7fff_ffff ==> r == x - 0x1_0000_0000) by (bit_vector)
        requires
            r == x as i32,
    ;
    r
}

/// The position can be chosen without a panic.
pub open spec fn receiver_defined(rule: NextElementType, rr_idx: usize, loads: Seq<(u32, u32)>) -> bool {
    loads.len() == 0 || match rule {
        NextElementType::Random => loads.len() % 0x1_0000_0000 != 0,
        NextElementType::RoundRobin(_) => rr_idx == loads.len() || rr_idx < usize::MAX,
        NextElementType::Balanced => forall|k: int| 0 <= k < loads.len() ==> fits_i32(#[trigger] loads[k]),
    }
}

/// The position chosen and the in-turn counter afterwards. With no
/// receiver nothing is chosen. At random, `random` modulo the number of
/// receivers read as `u32`; in turn, the counter wraps to 0 at the number of receivers,
/// its value is chosen and it is increased; balanced, the first position
/// with the fewest free places.
pub open spec fn receiver_choice(
    rule: NextElementType,
    rr_idx: usize,
    loads: Seq<(u32, u32)>,
    random: u32,
) -> (Option<usize>, usize) {
    if loads.len() == 0 {
        (None, rr_idx)
    } else {
        match rule {
            NextElementType::Random => (Some((random as nat % (loads.len() % 0x1_0000_0000)) as usize), rr_idx),
            NextElementType::RoundRobin(_) => {
                let at = if rr_idx == loads.len() {
                    0
                } else {
                    rr_idx
                };
                (Some(at), (at + 1) as usize)
            },
            NextElementType::Balanced => (Some(least_loaded(loads, loads.len()).1), rr_idx),
        }
    }
}

/// Chooses the position among `next` that receives what `e` finished, given
/// the draw `random`, and advances `e`'s in-turn counter.
pub fn choose_receiver(e: &mut Element, next: &Vec<Element>, random: u32) -> (r: Option<usize>)
    requires
        receiver_defined(old(e).next_element_type, old(e).round_robin_idx, queue_loads(next@)),
    ensures
        (r, final(e).round_robin_idx) == receiver_choice(
            old(e).next_element_type,
            old(e).round_robin_idx,
            queue_loads(next@),
            random,
        ),
        *final(e) == (Element { round_robin_idx: final(e).round_robin_idx, ..*old(e) }),
{
    let ghost loads = queue_loads(next@);
    let len = next.len();
    if len == 0 {
        return None;
    }
    match e.next_element_type {
        NextElementType::Random => Some((random % len_as_u32(len)) as usize),
        NextElementType::RoundRobin(_) => {
            if e.round_robin_idx == len {
                e.round_robin_idx = 0;
            }
            let at = e.round_robin_idx;
            e.round_robin_idx = e.round_robin_idx + 1;
            Some(at)
        },
        NextElementType::Balanced => {
            let mut min_queue_idx: usize = 0;
            let mut min_queue: i32 = i32::MAX;
            let mut i: usize = 0;
            while i < len
                invariant
                    len == next@.len(),
                    loads == queue_loads(next@),
                    i <= len,
                    forall|k: int| 0 <= k < loads.len() ==> fits_i32(#[trigger] loads[k]),
                    (min_queue as int, min_queue_idx) == least_loaded(loads, i as nat),
                decreases len - i,
            {
                assert(loads[i as int] == (next@[i as int].queue, next@[i as int].state));
                let q = to_i32(next[i].queue);
                let s = to_i32(next[i].state);
                assert(fits_i32(loads[i as int]));
                let free_queue = q - s;
                if free_queue < min_queue {
                    min_queue = free_queue;
                    min_queue_idx = i;
                }
                i = i + 1;
            }
            Some(min_queue_idx)
        },
    }
}

/// `after` is `before` after an item arrives at it, with `completion` the
/// time at which a service that the arrival starts ends.
pub open spec fn arrived(before: Element, after: Element, completion: u32) -> bool {
    &&& after.counters() == before.counters_after_in_act()
    &&& after.tnext@ == if before.spec_in_act_starts() {
        before.tnext@.insert(completion)
    } else {
        before.tnext@
    }
    &&& after.state_sum == before.state_sum
    &&& after.same_setup(before)
}

/// The receivers `after` are `before` with the item handed to position `to`
/// (when there is one) and every other receiver as it was.
pub open spec fn handed_over(before: Seq<Element>, after: Seq<Element>, to: Option<usize>, completion: u32) -> bool {
    &&& after.len() == before.len()
    &&& forall|j: int| 0 <= j < before.len() && to != Some(j as usize) ==> #[trigger] after[j] == before[j]
    &&& to matches Some(k) ==> arrived(before[k as int], after[k as int], completion)
}

/// The item can be handed to the receiver chosen with the draw `random`
/// without a panic: the position lies among the receivers and their arrival
/// stays clear of counter overflow.
pub open spec fn hand_over_defined(e: Element, next: Seq<Element>, random: u32) -> bool {
    &&& receiver_defined(e.next_element_type, e.round_robin_idx, queue_loads(next))
    &&& receiver_choice(e.next_element_type, e.round_robin_idx, queue_loads(next), random).0 matches Some(k)
        ==> k < next.len() && next[k as int].spec_in_act_defined()
}

/// Hands what `e` finished to the receiver chosen with the draw `random`:
/// chooses it, advances `e`'s in-turn counter, and runs the receiver's
/// arrival; a service that it starts ends at `completion`. Gives the
/// position chosen.
pub fn route(e: &mut Element, next: &mut Vec<Element>, completion: u32, random: u32) -> (r: Option<usize>)
    requires
        hand_over_defined(*old(e), old(next)@, random),
    ensures
        (r, final(e).round_robin_idx) == receiver_choice(
            old(e).next_element_type,
            old(e).round_robin_idx,
            queue_loads(old(next)@),
            random,
        ),
        *final(e) == (Element { round_robin_idx: final(e).round_robin_idx, ..*old(e) }),
        handed_over(old(next)@, final(next)@, r, completion),
{
    let r = choose_receiver(e, &*next, random);
    match r {
        Some(k) => {
            let starts = next[k].in_act_starts();
            let c = if starts {
                Some(completion)
            } else {
                None
            };
            next[k].in_act(c);
        },
        None => {},
    }
    r
}

/// Hands what `e` finished to one of `next`, as `route` does; a random rule
/// draws from `rand`'s thread-local generator. Every draw must allow the
/// hand-over, since any may come.
pub fn out_act(e: &mut Element, next: &mut Vec<Element>, completion: u32) -> (r: Option<usize>)
    requires
        forall|random: u32| hand_over_defined(*old(e), old(next)@, random),
    ensures
        exists|random: u32|
            {
                &&& (r, final(e).round_robin_idx) == receiver_choice(
                    old(e).next_element_type,
                    old(e).round_robin_idx,
                    queue_loads(old(next)@),
                    random,
                )
                &&& handed_over(old(next)@, final(next)@, r, completion)
            },
        *final(e) == (Element { round_robin_idx: final(e).round_robin_idx, ..*old(e) }),
{
    let random = match e.next_element_type {
        NextElementType::Random => {
            if next.len() > 0 {
                random_u32()
            } else {
                0
            }
        },
        _ => 0,
    };
    assert(hand_over_defined(*e, next@, random));
    route(e, next, completion, random)
}

/// Balanced routing picks the first receiver with the fewest free places.
pub proof fn law_least_loaded_is_first_minimum(loads: Seq<(u32, u32)>, n: nat)
    requires
        0 < n <= loads.len(),
        n <= usize::MAX,
        forall|k: int| 0 <= k < loads.len() ==> fits_i32(#[trigger] loads[k]),
    ensures
        ({
            let (best, at) = least_loaded(loads, n);
            &&& at < n
            &&& free_places(loads[at as int]) == best
            &&& forall|k: int| 0 <= k < n ==> best <= #[trigger] free_places(loads[k])
            &&& forall|k: int| 0 <= k < at ==> best < #[trigger] free_places(loads[k])
        }),
    decreases n,
{
    if n > 1 {
        law_least_loaded_is_first_minimum(loads, (n - 1) as nat);
    } else {
        assert(fits_i32(loads[0]));
        assert(least_loaded(loads, 0) == (i32::MAX as int, 0usize));
    }
}

/// Balanced routing among receivers held as elements picks the first
/// position whose queue minus busy workers, each read as `i32`, is least,
/// and leaves the in-turn counter as it was.
pub proof fn law_balanced_receiver_is_least_loaded(rr_idx: usize, loads: Seq<(u32, u32)>, random: u32)
    requires
        0 < loads.len() <= usize::MAX,
        receiver_defined(NextElementType::Balanced, rr_idx, loads),
    ensures
        ({
            let (r, idx) = receiver_choice(NextElementType::Balanced, rr_idx, loads, random);
            let places = |l: (u32, u32)| as_i32(l.0) - as_i32(l.1);
            &&& idx == rr_idx
            &&& r matches Some(k) && k < loads.len() && (forall|j: int|
                0 <= j < loads.len() ==> places(loads[k as int]) <= places(#[trigger] loads[j])) && (forall|j: int|
                0 <= j < k ==> places(loads[k as int]) < places(#[trigger] loads[j]))
        }),
{
    law_least_loaded_is_first_minimum(loads, loads.len());
}

/// In turn, `len` successive choices among `len` receivers each follow the
/// rule for one turn, choose positions below `len`, and choose no position
/// twice: every receiver gets exactly one item.
pub proof fn law_round_robin_serves_each_once(
    rule: NextElementType,
    rr_idx: usize,
    loads: Seq<(u32, u32)>,
    random: u32,
)
    requires
        rule is RoundRobin,
        0 < loads.len() <= usize::MAX,
        rr_idx <= loads.len(),
    ensures
        forall|j: nat|
            j < loads.len() ==> #[trigger] receiver_choice(rule, rr_counter_after(loads.len(), rr_idx, j), loads, random)
                == (
                Some((rr_counter_after(loads.len(), rr_idx, j + 1) - 1) as usize),
                rr_counter_after(loads.len(), rr_idx, j + 1),
            ),
        forall|j: nat| j < loads.len() ==> #[trigger] rr_turn(loads.len(), rr_idx, j) - 1 < loads.len(),
        forall|i: nat, j: nat|
            i < j < loads.len() ==> #[trigger] rr_turn(loads.len(), rr_idx, i) != #[trigger] rr_turn(loads.len(), rr_idx, j),
{
    let len = loads.len();
    assert forall|j: nat| j < len implies #[trigger] receiver_choice(rule, rr_counter_after(len, rr_idx, j), loads, random)
        == (Some((rr_counter_after(len, rr_idx, j + 1) - 1) as usize), rr_counter_after(len, rr_idx, j + 1)) by {
        lemma_rr_counter_closed_form(len, rr_idx, j + 1);
        if j > 0 {
            lemma_rr_counter_closed_form(len, rr_idx, j);
        }
    }
    assert forall|j: nat| j < len implies #[trigger] rr_turn(len, rr_idx, j) - 1 < len by {
        lemma_rr_counter_closed_form(len, rr_idx, j + 1);
    }
    assert forall|i: nat, j: nat| i < j < len implies #[trigger] rr_turn(len, rr_idx, i) != #[trigger] rr_turn(len, rr_idx, j) by {
        lemma_rr_counter_closed_form(len, rr_idx, i + 1);
        lemma_rr_counter_closed_form(len, rr_idx, j + 1);
    }
}

/// In turn, every receiver gets an item once before any gets a second: from
/// a counter within range, successive choices run through the positions in
/// order and start again at the first.
pub proof fn law_round_robin_cycles(rule: NextElementType, rr_idx: usize, loads: Seq<(u32, u32)>, random: u32)
    requires
        rule is RoundRobin,
        0 < loads.len(),
        rr_idx <= loads.len(),
        loads.len() <= usize::MAX,
    ensures
        ({
            let (r, next_idx) = receiver_choice(rule, rr_idx, loads, random);
            let at = if rr_idx == loads.len() { 0 } else { rr_idx as int };
            &&& r == Some(at as usize)
            &&& next_idx == at + 1
            &&& next_idx <= loads.len()
        }),
{
    let at = if rr_idx == loads.len() { 0 } else { rr_idx as int };
    assert(receiver_choice(rule, rr_idx, loads, random) == (Some(at as usize), (at + 1) as usize));
}

} // verus!
