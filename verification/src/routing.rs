//! Which next element receives what an element has finished.
use vstd::prelude::*;

use crate::consts::NextElementType;
use crate::element::Element;

verus! {

/// What routing reads of an element: its id, its queue and its busy workers.
pub open spec fn load_of(e: Element) -> (usize, u32, u32) {
    (e.id, e.queue, e.state)
}

/// What routing reads of each element.
pub open spec fn loads(elems: Seq<Element>) -> Seq<(usize, u32, u32)> {
    elems.map_values(|e: Element| load_of(e))
}

/// The first position among the first `n` loads whose id is `id`.
pub open spec fn find_id(loads: Seq<(usize, u32, u32)>, id: usize, n: nat) -> Option<int>
    decreases n,
{
    if n == 0 {
        None
    } else {
        match find_id(loads, id, (n - 1) as nat) {
            Some(j) => Some(j),
            None => if loads[n - 1].0 == id {
                Some(n - 1)
            } else {
                None
            },
        }
    }
}

/// A position that `find_id` gives holds the id asked for.
pub proof fn lemma_find_id(loads: Seq<(usize, u32, u32)>, id: usize, n: nat)
    requires
        n <= loads.len(),
    ensures
        find_id(loads, id, n) matches Some(j) ==> 0 <= j < n && loads[j].0 == id,
    decreases n,
{
    if n > 0 {
        lemma_find_id(loads, id, (n - 1) as nat);
    }
}

/// Once found among the first `m` loads, an id is found at the same position
/// among more of them.
pub proof fn lemma_find_id_stable(loads: Seq<(usize, u32, u32)>, id: usize, m: nat, n: nat)
    requires
        m <= n,
        find_id(loads, id, m) is Some,
    ensures
        find_id(loads, id, n) == find_id(loads, id, m),
    decreases n - m,
{
    if m < n {
        lemma_find_id_stable(loads, id, m, (n - 1) as nat);
    }
}

/// The element with id `id` exists and has no more busy workers than
/// waiting items, so that its free places (queue minus busy workers) can be
/// counted without underflow.
pub open spec fn free_places_defined(loads: Seq<(usize, u32, u32)>, id: usize) -> bool {
    match find_id(loads, id, loads.len()) {
        Some(j) => loads[j].1 >= loads[j].2,
        None => false,
    }
}

/// The free places of the element with id `id`.
pub open spec fn free_places(loads: Seq<(usize, u32, u32)>, id: usize) -> u32 {
    match find_id(loads, id, loads.len()) {
        Some(j) => (loads[j].1 - loads[j].2) as u32,
        None => 0,
    }
}

/// The fewest free places among the first `n` receivers and the first
/// receiver that has them; (`u32::MAX`, 0) before any receiver has fewer.
pub open spec fn balanced_scan(loads: Seq<(usize, u32, u32)>, next: Seq<usize>, n: nat) -> (u32, usize)
    decreases n,
{
    if n == 0 {
        (u32::MAX, 0)
    } else {
        let (best, at) = balanced_scan(loads, next, (n - 1) as nat);
        let f = free_places(loads, next[n - 1]);
        if f < best {
            (f, next[n - 1])
        } else {
            (best, at)
        }
    }
}

/// The choice of a receiver can be made without a panic.
pub open spec fn choice_defined(
    loads: Seq<(usize, u32, u32)>,
    next: Seq<usize>,
    rule: NextElementType,
) -> bool {
    if next.len() <= 1 {
        true
    } else {
        match rule {
            NextElementType::Random => next.len() % 0x1_0000_0000 != 0,
            NextElementType::RoundRobin(idx) => idx == next.len() || idx < usize::MAX,
            NextElementType::Balanced => forall|k: int|
                0 <= k < next.len() ==> free_places_defined(loads, #[trigger] next[k]),
        }
    }
}

/// The receiver chosen, and the routing rule afterwards. A single receiver
/// is always chosen. Otherwise: at random, the position `random` modulo the
/// number of receivers read as `u32`; in turn, the counter wraps to 0 after reaching the
/// number of receivers, is increased, and its new value is chosen; balanced,
/// the id of the first receiver with the fewest free places. With no
/// receiver nothing is chosen.
pub open spec fn choice(
    loads: Seq<(usize, u32, u32)>,
    next: Seq<usize>,
    rule: NextElementType,
    random: u32,
) -> (Option<usize>, NextElementType) {
    if next.len() == 1 {
        (Some(next[0]), rule)
    } else if next.len() == 0 {
        (None, rule)
    } else {
        match rule {
            NextElementType::Random => (Some((random as nat % (next.len() % 0x1_0000_0000)) as usize), rule),
            NextElementType::RoundRobin(idx) => {
                let from = if idx == next.len() {
                    0
                } else {
                    idx
                };
                (Some((from + 1) as usize), NextElementType::RoundRobin((from + 1) as usize))
            },
            NextElementType::Balanced => (Some(balanced_scan(loads, next, next.len()).1), rule),
        }
    }
}

/// In turn, with more than one receiver, the chosen value runs from 1 up to
/// the number of receivers and then starts at 1 again; the counter holds the
/// value chosen last.
pub proof fn law_round_robin_counts_from_one(
    loads: Seq<(usize, u32, u32)>,
    next: Seq<usize>,
    idx: usize,
    random: u32,
)
    requires
        next.len() > 1,
        next.len() <= usize::MAX,
        idx <= next.len(),
    ensures
        ({
            let (r, rule) = choice(loads, next, NextElementType::RoundRobin(idx), random);
            let chosen = if idx == next.len() { 1 } else { idx + 1 };
            &&& r == Some(chosen as usize)
            &&& rule == NextElementType::RoundRobin(chosen as usize)
            &&& 1 <= chosen <= next.len()
        }),
{
}

/// The in-turn counter after `k` turns among `len` receivers, starting from
/// `idx`: each turn wraps the counter to 0 at `len` and then increases it.
pub open spec fn rr_counter_after(len: nat, idx: usize, k: nat) -> usize
    decreases k,
{
    if k == 0 {
        idx
    } else {
        let c = rr_counter_after(len, idx, (k - 1) as nat);
        let from = if c == len {
            0
        } else {
            c
        };
        (from + 1) as usize
    }
}

/// The value that turn `j` (counted from 0) leaves in the counter.
pub open spec fn rr_turn(len: nat, idx: usize, j: nat) -> usize {
    rr_counter_after(len, idx, j + 1)
}

/// After `k` turns (1 to `len`), the counter has moved on `k` places from
/// where the first turn starts, wrapping past `len` to 1.
pub proof fn lemma_rr_counter_closed_form(len: nat, idx: usize, k: nat)
    requires
        0 < len <= usize::MAX,
        idx <= len,
        1 <= k <= len,
    ensures
        ({
            let start = if idx == len { 0 } else { idx as int };
            rr_counter_after(len, idx, k) == if start + k <= len { start + k } else { start + k - len }
        }),
    decreases k,
{
    let start = if idx == len { 0 } else { idx as int };
    let c = rr_counter_after(len, idx, (k - 1) as nat);
    if k > 1 {
        lemma_rr_counter_closed_form(len, idx, (k - 1) as nat);
        assert(c == if start + k - 1 <= len { start + k - 1 } else { start + k - 1 - len });
    } else {
        assert(c == idx);
    }
    let from = if c == len { 0 } else { c as int };
    assert(rr_counter_after(len, idx, k) == from + 1);
}

/// In turn, `len` successive choices among `len` receivers (more than one)
/// each follow the rule for one turn, give values from 1 to `len`, and give
/// no value twice: every value is given once.
pub proof fn law_round_robin_takes_each_once(
    loads: Seq<(usize, u32, u32)>,
    next: Seq<usize>,
    idx: usize,
    random: u32,
)
    requires
        1 < next.len() <= usize::MAX,
        idx <= next.len(),
    ensures
        forall|j: nat|
            j < next.len() ==> #[trigger] choice(
                loads,
                next,
                NextElementType::RoundRobin(rr_counter_after(next.len(), idx, j)),
                random,
            ) == (
                Some(rr_counter_after(next.len(), idx, j + 1)),
                NextElementType::RoundRobin(rr_counter_after(next.len(), idx, j + 1)),
            ),
        forall|j: nat| j < next.len() ==> 1 <= #[trigger] rr_turn(next.len(), idx, j) <= next.len(),
        forall|i: nat, j: nat|
            i < j < next.len() ==> #[trigger] rr_turn(next.len(), idx, i) != #[trigger] rr_turn(next.len(), idx, j),
{
    let len = next.len();
    assert forall|j: nat| j < len implies 1 <= #[trigger] rr_turn(len, idx, j) <= len by {
        lemma_rr_counter_closed_form(len, idx, j + 1);
    }
    assert forall|i: nat, j: nat| i < j < len implies #[trigger] rr_turn(len, idx, i) != #[trigger] rr_turn(len, idx, j) by {
        lemma_rr_counter_closed_form(len, idx, i + 1);
        lemma_rr_counter_closed_form(len, idx, j + 1);
    }
}

/// Balanced routing picks a receiver with the fewest free places: nothing
/// has fewer than what the scan reports, and unless every receiver has
/// `u32::MAX` free places, the id reported is that of the first receiver
/// that has the fewest.
pub proof fn law_balanced_picks_least_loaded(loads: Seq<(usize, u32, u32)>, next: Seq<usize>, n: nat)
    requires
        n <= next.len(),
    ensures
        ({
            let (best, at) = balanced_scan(loads, next, n);
            &&& forall|k: int| 0 <= k < n ==> best <= #[trigger] free_places(loads, next[k])
            &&& best < u32::MAX ==> exists|k: int|
                0 <= k < n && next[k] == at && free_places(loads, next[k]) == best && forall|j: int|
                    0 <= j < k ==> best < #[trigger] free_places(loads, next[j])
        }),
    decreases n,
{
    if n > 0 {
        law_balanced_picks_least_loaded(loads, next, (n - 1) as nat);
        let (b0, a0) = balanced_scan(loads, next, (n - 1) as nat);
        let f = free_places(loads, next[n - 1]);
        if f < b0 {
            assert(forall|j: int| 0 <= j < n - 1 ==> f < #[trigger] free_places(loads, next[j]));
        } else if b0 < u32::MAX {
            let k = choose|k: int|
                0 <= k < n - 1 && next[k] == a0 && free_places(loads, next[k]) == b0 && forall|j: int|
                    0 <= j < k ==> b0 < #[trigger] free_places(loads, next[j]);
            assert(0 <= k < n && next[k] == a0);
        }
    }
}

/// Balanced routing over more than one receiver picks the id of a receiver
/// whose queue minus busy workers is least, and of the first such receiver;
/// only where every receiver has `u32::MAX` places does it give 0.
pub proof fn law_balanced_choice_is_least_loaded(
    loads: Seq<(usize, u32, u32)>,
    next: Seq<usize>,
    random: u32,
)
    requires
        next.len() > 1,
        choice_defined(loads, next, NextElementType::Balanced),
    ensures
        ({
            let r = choice(loads, next, NextElementType::Balanced, random).0;
            let places = |id: usize| {
                let j = find_id(loads, id, loads.len()).unwrap();
                loads[j].1 - loads[j].2
            };
            &&& r is Some
            &&& forall|k: int| 0 <= k < next.len() ==> find_id(loads, #[trigger] next[k], loads.len()) is Some
            &&& (forall|k: int| 0 <= k < next.len() ==> places(#[trigger] next[k]) == u32::MAX) ==> r == Some(0usize)
            &&& (exists|k: int| 0 <= k < next.len() && places(#[trigger] next[k]) < u32::MAX) ==> exists|k: int|
                0 <= k < next.len() && r == Some(next[k]) && (forall|j: int|
                    0 <= j < next.len() ==> places(next[k]) <= places(#[trigger] next[j])) && (forall|j: int|
                    0 <= j < k ==> places(next[k]) < places(#[trigger] next[j]))
        }),
{
    let n = next.len();
    let places = |id: usize| {
        let j = find_id(loads, id, loads.len()).unwrap();
        loads[j].1 - loads[j].2
    };
    assert forall|k: int| 0 <= k < n implies find_id(loads, #[trigger] next[k], loads.len()) is Some
        && free_places(loads, next[k]) == places(next[k]) by {
        assert(free_places_defined(loads, next[k]));
    }
    law_balanced_picks_least_loaded(loads, next, n);
    let (best, at) = balanced_scan(loads, next, n);
    if exists|k: int| 0 <= k < n && places(#[trigger] next[k]) < u32::MAX {
        let k0 = choose|k: int| 0 <= k < n && places(#[trigger] next[k]) < u32::MAX;
        assert(best <= free_places(loads, next[k0]));
        assert(best < u32::MAX);
        let k = choose|k: int|
            0 <= k < n && next[k] == at && free_places(loads, next[k]) == best && forall|j: int|
                0 <= j < k ==> best < #[trigger] free_places(loads, next[j]);
        assert(forall|j: int| 0 <= j < n ==> places(next[k]) <= places(#[trigger] next[j]));
        assert(forall|j: int| 0 <= j < k ==> places(next[k]) < places(#[trigger] next[j]));
    } else {
        lemma_balanced_scan_all_full(loads, next, n);
    }
}

/// Where every receiver has `u32::MAX` free places, the scan keeps its
/// start: (`u32::MAX`, 0).
proof fn lemma_balanced_scan_all_full(loads: Seq<(usize, u32, u32)>, next: Seq<usize>, n: nat)
    requires
        n <= next.len(),
        forall|k: int| 0 <= k < n ==> free_places(loads, #[trigger] next[k]) == u32::MAX,
    ensures
        balanced_scan(loads, next, n) == (u32::MAX, 0usize),
    decreases n,
{
    if n > 0 {
        lemma_balanced_scan_all_full(loads, next, (n - 1) as nat);
    }
}

/// The position of the first element with id `id`.
pub fn find_element(elems: &Vec<Element>, id: usize) -> (r: Option<usize>)
    ensures
        r matches Some(j) ==> j < elems@.len() && find_id(loads(elems@), id, elems@.len()) == Some(j as int),
        r is None ==> find_id(loads(elems@), id, elems@.len()) is None,
{
    let ghost ls = loads(elems@);
    let n = elems.len();
    let mut i: usize = 0;
    while i < n
        invariant
            n == elems@.len(),
            ls == loads(elems@),
            i <= n,
            find_id(ls, id, i as nat) is None,
        decreases n - i,
    {
        if elems[i].id == id {
            assert(ls[i as int] == load_of(elems@[i as int]));
            assert(find_id(ls, id, (i + 1) as nat) == Some(i as int));
            proof {
                lemma_find_id_stable(ls, id, (i + 1) as nat, n as nat);
            }
            return Some(i);
        }
        assert(ls[i as int] == load_of(elems@[i as int]));
        i = i + 1;
    }
    None
}

/// The id of the first receiver with the fewest free places.
pub fn balanced_choice(elems: &Vec<Element>, next: &Vec<usize>) -> (r: usize)
    requires
        forall|k: int| 0 <= k < next@.len() ==> free_places_defined(loads(elems@), #[trigger] next@[k]),
    ensures
        r == balanced_scan(loads(elems@), next@, next@.len()).1,
{
    let ghost ls = loads(elems@);
    let mut min_queue_idx: usize = 0;
    let mut min_queue: u32 = u32::MAX;
    let n = next.len();
    let mut k: usize = 0;
    while k < n
        invariant
            n == next@.len(),
            ls == loads(elems@),
            k <= n,
            forall|k: int| 0 <= k < next@.len() ==> free_places_defined(ls, #[trigger] next@[k]),
            (min_queue, min_queue_idx) == balanced_scan(ls, next@, k as nat),
        decreases n - k,
    {
        let id = next[k];
        assert(free_places_defined(ls, next@[k as int]));
        let j = find_element(elems, id);
        proof {
            lemma_find_id(ls, id, ls.len());
        }
        match j {
            Some(j) => {
                assert(ls[j as int] == load_of(elems@[j as int]));
                let free_queue = elems[j].queue - elems[j].state;
                if free_queue < min_queue {
                    min_queue = free_queue;
                    min_queue_idx = id;
                }
            },
            None => {},
        }
        k = k + 1;
    }
    min_queue_idx
}

/// The length `len` read as `u32`, as `as` does: its lowest 32 bits.
pub fn len_as_u32(len: usize) -> (m: u32)
    ensures
        m == len as nat % 0x1_0000_0000,
{
    let m = len as u32;
    let wide = len as u64;
    assert(m == wide % 0x1_0000_0000) by (bit_vector)
        requires
            m == len as u32,
            wide == len as u64,
    ;
    m
}

/// Calls `rand::random::<u32>()`, a draw from the thread-local generator of
/// `rand`; nothing is claimed of the value.
#[verifier::external_body]
pub(crate) fn random_u32() -> u32 {
    rand::random::<u32>()
}

} // verus!
