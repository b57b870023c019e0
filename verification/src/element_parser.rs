//! Building the elements of a run from their descriptions.
//!
//! A description comes with the key it is filed under; the receivers of an
//! element are given as numbers, and a number names the description whose
//! key is that number in decimal. The delay parameters of a description
//! (floating point) are kept by the caller.
use vstd::prelude::*;

use crate::consts::ElementType;
use crate::element::{initial_time, Element, IdCounter};
use crate::names::{
    distribution_named, element_type_named, lowercase, next_element_type_named, parse_distribution,
    parse_element_type, parse_next_element_type, str_eq,
};
use crate::text::{decimal, usize_decimal};

verus! {

/// The plain settings of an element description.
pub struct ElementData {
    pub dist: String,
    pub name: String,
    pub order: String,
    pub queuesize: u32,
    pub replica: u32,
}

/// An element description.
pub struct ElementInfo {
    pub class: String,
    pub data: ElementData,
    pub inputs: Vec<usize>,
    pub outputs: Vec<usize>,
}

/// Every description is accepted: one with no inputs or no outputs, and one
/// with both.
pub fn element_is_valid(element: &ElementInfo) -> (r: bool)
    ensures
        r,
{
    if element.inputs.len() == 0 || element.outputs.len() == 0 {
        true
    } else {
        element.inputs.len() > 0 && element.outputs.len() > 0
    }
}

/// The first position, among the first `n` descriptions, filed under `key`.
pub open spec fn key_position(entries: Seq<(String, ElementInfo)>, key: Seq<char>, n: nat) -> Option<int>
    decreases n,
{
    if n == 0 {
        None
    } else {
        match key_position(entries, key, (n - 1) as nat) {
            Some(j) => Some(j),
            None => if entries[n - 1].0@ == key {
                Some(n - 1)
            } else {
                None
            },
        }
    }
}

/// The position of the description that the number `o` names.
pub open spec fn named_position(entries: Seq<(String, ElementInfo)>, o: usize) -> Option<int> {
    key_position(entries, decimal(o as nat), entries.len())
}

/// The type, distribution and routing rule of a description can all be read.
pub open spec fn entry_parses(info: ElementInfo) -> bool {
    &&& element_type_named(lowercase(info.class@)) is Some
    &&& distribution_named(lowercase(info.data.dist@)) is Some
    &&& next_element_type_named(lowercase(info.data.order@)) is Some
}

/// The element type of a description.
pub open spec fn entry_type(info: ElementInfo) -> ElementType {
    element_type_named(lowercase(info.class@)).unwrap()
}

/// Every receiver of a description names a description; an element that
/// takes items out of the network has no receivers to name.
pub open spec fn outputs_resolve(entries: Seq<(String, ElementInfo)>, info: ElementInfo) -> bool {
    entry_type(info) != ElementType::Dispose ==> forall|k: int|
        0 <= k < info.outputs@.len() ==> named_position(entries, #[trigger] info.outputs@[k]) is Some
}

/// All descriptions can be built into elements.
pub open spec fn entries_build(entries: Seq<(String, ElementInfo)>) -> bool {
    forall|k: int|
        0 <= k < entries.len() ==> entry_parses(#[trigger] entries[k].1) && outputs_resolve(
            entries,
            entries[k].1,
        )
}

/// The ids of the receivers of a description, where the elements are given
/// ids from `start` on in the order of the descriptions.
pub open spec fn receiver_ids(entries: Seq<(String, ElementInfo)>, start: usize, info: ElementInfo) -> Seq<usize> {
    if entry_type(info) == ElementType::Dispose {
        Seq::empty()
    } else {
        info.outputs@.map_values(|o: usize| (start + named_position(entries, o).unwrap()) as usize)
    }
}

/// `e` is the element built from description `k`, apart from its receivers.
pub open spec fn is_made(e: Element, entries: Seq<(String, ElementInfo)>, start: usize, k: int) -> bool {
    let info = entries[k].1;
    &&& e.id == start + k
    &&& e.name@ == info.data.name@
    &&& e.worker_count == info.data.replica
    &&& e.elem_type == entry_type(info)
    &&& e.distribution == distribution_named(lowercase(info.data.dist@)).unwrap()
    &&& e.next_element_type == next_element_type_named(lowercase(info.data.order@)).unwrap()
    &&& e.max_queue == info.data.queuesize
    &&& e.tnext@ == vstd::multiset::Multiset::<u32>::empty().insert(initial_time(e.elem_type))
    &&& e.k == 0
    &&& e.round_robin_idx == 0
    &&& e.state == 0
    &&& e.queue == 0
    &&& e.quantity == 0
    &&& e.failure == 0
    &&& e.state_sum == 0
}

/// `e` is the element built from description `k`.
pub open spec fn is_built(e: Element, entries: Seq<(String, ElementInfo)>, start: usize, k: int) -> bool {
    &&& is_made(e, entries, start, k)
    &&& e.next_elements@ == receiver_ids(entries, start, entries[k].1)
}

/// The position of the description filed under `key`.
pub fn find_key(entries: &Vec<(String, ElementInfo)>, key: &str) -> (r: Option<usize>)
    ensures
        r matches Some(j) ==> key_position(entries@, key@, entries@.len()) == Some(j as int),
        r is None ==> key_position(entries@, key@, entries@.len()) is None,
{
    let n = entries.len();
    let mut i: usize = 0;
    while i < n
        invariant
            n == entries@.len(),
            i <= n,
            key_position(entries@, key@, i as nat) is None,
        decreases n - i,
    {
        if str_eq(entries[i].0.as_str(), key) {
            assert(key_position(entries@, key@, (i + 1) as nat) == Some(i as int));
            proof {
                lemma_key_position_stable(entries@, key@, (i + 1) as nat, n as nat);
            }
            return Some(i);
        }
        i = i + 1;
    }
    None
}

/// A position that `key_position` gives lies in range.
pub proof fn lemma_key_position(entries: Seq<(String, ElementInfo)>, key: Seq<char>, n: nat)
    requires
        n <= entries.len(),
    ensures
        key_position(entries, key, n) matches Some(j) ==> 0 <= j < n,
    decreases n,
{
    if n > 0 {
        lemma_key_position(entries, key, (n - 1) as nat);
    }
}

/// Once found among the first `m` descriptions, a key is found at the same
/// position among more of them.
pub proof fn lemma_key_position_stable(entries: Seq<(String, ElementInfo)>, key: Seq<char>, m: nat, n: nat)
    requires
        m <= n,
        key_position(entries, key, m) is Some,
    ensures
        key_position(entries, key, n) == key_position(entries, key, m),
    decreases n - m,
{
    if m < n {
        lemma_key_position_stable(entries, key, m, (n - 1) as nat);
    }
}

/// A description whose every output names a description links to the
/// elements built from those: receiver `i` is the id given to the first
/// description filed under output `i` written in decimal, ids being handed
/// out from `start` in the order of the descriptions.
pub proof fn law_outputs_name_descriptions_by_key(
    entries: Seq<(String, ElementInfo)>,
    start: usize,
    info: ElementInfo,
)
    requires
        outputs_resolve(entries, info),
        entry_type(info) != ElementType::Dispose,
        start + entries.len() <= usize::MAX,
    ensures
        receiver_ids(entries, start, info).len() == info.outputs@.len(),
        forall|i: int|
            #![trigger info.outputs@[i]]
            0 <= i < info.outputs@.len() ==> exists|p: int|
                #![trigger entries[p]]
                {
                    &&& 0 <= p < entries.len()
                    &&& entries[p].0@ == decimal(info.outputs@[i] as nat)
                    &&& (forall|q: int| 0 <= q < p ==> entries[q].0@ != decimal(info.outputs@[i] as nat))
                    &&& receiver_ids(entries, start, info)[i] == start + p
                },
{
    assert forall|i: int|
        #![trigger info.outputs@[i]]
        0 <= i < info.outputs@.len() implies exists|p: int|
        #![trigger entries[p]]
        {
            &&& 0 <= p < entries.len()
            &&& entries[p].0@ == decimal(info.outputs@[i] as nat)
            &&& (forall|q: int| 0 <= q < p ==> entries[q].0@ != decimal(info.outputs@[i] as nat))
            &&& receiver_ids(entries, start, info)[i] == start + p
        } by {
        let key = decimal(info.outputs@[i] as nat);
        assert(named_position(entries, info.outputs@[i]) is Some);
        lemma_key_position_first(entries, key, entries.len());
        let p = key_position(entries, key, entries.len()).unwrap();
        assert(receiver_ids(entries, start, info)[i] == start + p);
        assert(entries[p].0@ == key);
    }
}

/// A position that `key_position` gives holds the key, and no earlier one does.
pub proof fn lemma_key_position_first(entries: Seq<(String, ElementInfo)>, key: Seq<char>, n: nat)
    requires
        n <= entries.len(),
    ensures
        key_position(entries, key, n) matches Some(p) ==> {
            &&& 0 <= p < n
            &&& entries[p].0@ == key
            &&& forall|q: int| 0 <= q < p ==> entries[q].0@ != key
        },
        key_position(entries, key, n) is None ==> forall|q: int| 0 <= q < n ==> entries[q].0@ != key,
    decreases n,
{
    if n > 0 {
        lemma_key_position_first(entries, key, (n - 1) as nat);
    }
}

/// Builds one element from a description that can be read.
fn make_element(ids: &mut IdCounter, info: &ElementInfo) -> (e: Element)
    requires
        entry_parses(*info),
    ensures
        e.id == old(ids).next_id(),
        final(ids).next_id() == crate::element::id_after(old(ids).next_id()),
        e.name@ == info.data.name@,
        e.worker_count == info.data.replica,
        e.elem_type == entry_type(*info),
        e.distribution == distribution_named(lowercase(info.data.dist@)).unwrap(),
        e.next_element_type == next_element_type_named(lowercase(info.data.order@)).unwrap(),
        e.max_queue == info.data.queuesize,
        e.tnext@ == vstd::multiset::Multiset::<u32>::empty().insert(initial_time(e.elem_type)),
        e.k == 0,
        e.round_robin_idx == 0,
        e.state == 0,
        e.queue == 0,
        e.quantity == 0,
        e.failure == 0,
        e.state_sum == 0,
        e.next_elements@.len() == 0,
{
    let elem_type = parse_element_type(info.class.as_str()).unwrap();
    let distribution = parse_distribution(info.data.dist.as_str()).unwrap();
    let next_type = parse_next_element_type(info.data.order.as_str()).unwrap();
    let mut e = Element::new(ids, info.data.replica, elem_type);
    e.distribution = distribution;
    e.next_element_type = next_type;
    e.max_queue = info.data.queuesize;
    e.name = info.data.name.clone();
    e
}

/// The ids of the elements that the numbers `outputs` name.
fn resolve_outputs(
    model: &Vec<(String, ElementInfo)>,
    elements: &Vec<Element>,
    outputs: &Vec<usize>,
    Ghost(start): Ghost<usize>,
) -> (r: Vec<usize>)
    requires
        elements@.len() == model@.len(),
        start + model@.len() <= usize::MAX,
        forall|j: int| 0 <= j < elements@.len() ==> #[trigger] elements@[j].id == start + j,
        forall|k: int| 0 <= k < outputs@.len() ==> named_position(model@, #[trigger] outputs@[k]) is Some,
    ensures
        r@ == outputs@.map_values(|o: usize| (start + named_position(model@, o).unwrap()) as usize),
{
    let mut next: Vec<usize> = Vec::new();
    let n = outputs.len();
    let mut i: usize = 0;
    while i < n
        invariant
            n == outputs@.len(),
            i <= n,
            elements@.len() == model@.len(),
            start + model@.len() <= usize::MAX,
            forall|j: int| 0 <= j < elements@.len() ==> #[trigger] elements@[j].id == start + j,
            forall|k: int| 0 <= k < outputs@.len() ==> named_position(model@, #[trigger] outputs@[k]) is Some,
            next@ =~= outputs@.take(i as int).map_values(
                |o: usize| (start + named_position(model@, o).unwrap()) as usize,
            ),
        decreases n - i,
    {
        let o = outputs[i];
        assert(named_position(model@, outputs@[i as int]) is Some);
        let key = usize_decimal(o);
        let p = find_key(model, key.as_str()).unwrap();
        proof {
            lemma_key_position(model@, decimal(o as nat), model@.len());
        }
        next.push(elements[p].id);
        assert(outputs@.take(i + 1) =~= outputs@.take(i as int).push(o));
        i = i + 1;
    }
    assert(outputs@.take(n as int) =~= outputs@);
    next
}

/// Links each element, but one that takes items out of the network, to the
/// elements that the numbers among its description's outputs name.
fn chain_elements(model: &Vec<(String, ElementInfo)>, elements: &mut Vec<Element>, Ghost(start): Ghost<usize>)
    requires
        start + model@.len() <= usize::MAX,
        entries_build(model@),
        old(elements)@.len() == model@.len(),
        forall|j: int| 0 <= j < model@.len() ==> #[trigger] is_made(old(elements)@[j], model@, start, j),
        forall|j: int| 0 <= j < model@.len() ==> (#[trigger] old(elements)@[j]).next_elements@.len() == 0,
    ensures
        final(elements)@.len() == model@.len(),
        forall|j: int| 0 <= j < model@.len() ==> #[trigger] is_built(final(elements)@[j], model@, start, j),
{
    let n = model.len();
    let mut k: usize = 0;
    while k < n
        invariant
            n == model@.len(),
            k <= n,
            start + n <= usize::MAX,
            entries_build(model@),
            elements@.len() == n,
            forall|j: int| 0 <= j < n ==> #[trigger] is_made(elements@[j], model@, start, j),
            forall|j: int| 0 <= j < k ==> #[trigger] is_built(elements@[j], model@, start, j),
            forall|j: int| k <= j < n ==> (#[trigger] elements@[j]).next_elements@.len() == 0,
        decreases n - k,
    {
        assert(is_made(elements@[k as int], model@, start, k as int));
        if elements[k].elem_type == ElementType::Dispose {
            assert(receiver_ids(model@, start, model@[k as int].1) =~= Seq::<usize>::empty());
            assert(elements@[k as int].next_elements@ =~= Seq::<usize>::empty());
            k = k + 1;
            continue;
        }
        assert(outputs_resolve(model@, model@[k as int].1));
        assert forall|j: int| 0 <= j < elements@.len() implies #[trigger] elements@[j].id == start + j by {
            assert(is_made(elements@[j], model@, start, j));
        }
        let next = resolve_outputs(model, &*elements, &model[k].1.outputs, Ghost(start));
        let ghost before = elements@;
        elements[k].next_elements = next;
        assert forall|j: int| 0 <= j < n implies #[trigger] is_made(elements@[j], model@, start, j) by {
            assert(is_made(before[j], model@, start, j));
        }
        assert forall|j: int| 0 <= j <= k implies #[trigger] is_built(elements@[j], model@, start, j) by {
            assert(is_made(before[j], model@, start, j));
        }
        k = k + 1;
    }
}

/// Builds the elements of a run from the descriptions, in their order, with
/// ids handed out by `ids`, and links each element (but one that takes items
/// out of the network) to its receivers. The elements come out in ascending
/// order of id.
pub fn create_elements(ids: &mut IdCounter, model: &Vec<(String, ElementInfo)>) -> (r: Vec<Element>)
    requires
        old(ids).next_id() + model@.len() <= usize::MAX,
        entries_build(model@),
    ensures
        r@.len() == model@.len(),
        forall|k: int| 0 <= k < r@.len() ==> is_built(#[trigger] r@[k], model@, old(ids).next_id(), k),
        forall|i: int, j: int| 0 <= i < j < r@.len() ==> r@[i].id < r@[j].id,
        final(ids).next_id() == old(ids).next_id() + model@.len(),
{
    let ghost start = ids.next_id();
    let n = model.len();
    let mut elements: Vec<Element> = Vec::new();
    let mut k: usize = 0;
    while k < n
        invariant
            n == model@.len(),
            k <= n,
            start + n <= usize::MAX,
            ids.next_id() == start + k,
            entries_build(model@),
            elements@.len() == k,
            forall|j: int| 0 <= j < k ==> #[trigger] is_made(elements@[j], model@, start, j),
            forall|j: int| 0 <= j < k ==> (#[trigger] elements@[j]).next_elements@.len() == 0,
        decreases n - k,
    {
        if !element_is_valid(&model[k].1) {
            k = k + 1;
            continue;
        }
        assert(entry_parses(model@[k as int].1));
        let e = make_element(ids, &model[k].1);
        elements.push(e);
        k = k + 1;
    }
    chain_elements(model, &mut elements, Ghost(start));
    assert forall|i: int, j: int| 0 <= i < j < elements@.len() implies elements@[i].id < elements@[j].id by {
        assert(is_built(elements@[i], model@, start, i));
        assert(is_built(elements@[j], model@, start, j));
    }
    elements
}

/// Builds the elements of a run as `create_elements` does where every
/// description can be built; gives `None`, and hands out no id, where one
/// cannot.
pub fn checked_create_elements(ids: &mut IdCounter, model: &Vec<(String, ElementInfo)>) -> (r: Option<Vec<Element>>)
    requires
        old(ids).next_id() + model@.len() <= usize::MAX,
    ensures
        r is Some <==> entries_build(model@),
        r is None ==> final(ids).next_id() == old(ids).next_id(),
        r matches Some(v) ==> {
            &&& v@.len() == model@.len()
            &&& forall|k: int| 0 <= k < v@.len() ==> is_built(#[trigger] v@[k], model@, old(ids).next_id(), k)
            &&& forall|i: int, j: int| 0 <= i < j < v@.len() ==> v@[i].id < v@[j].id
            &&& final(ids).next_id() == old(ids).next_id() + model@.len()
        },
{
    let n = model.len();
    let mut k: usize = 0;
    while k < n
        invariant
            n == model@.len(),
            k <= n,
            forall|j: int|
                0 <= j < k ==> entry_parses(#[trigger] model@[j].1) && outputs_resolve(model@, model@[j].1),
        decreases n - k,
    {
        let info = &model[k].1;
        let et = parse_element_type(info.class.as_str());
        let dist = parse_distribution(info.data.dist.as_str());
        let net = parse_next_element_type(info.data.order.as_str());
        if et.is_none() || dist.is_none() || net.is_none() {
            assert(!entry_parses(model@[k as int].1));
            return None;
        }
        if et.unwrap() != ElementType::Dispose {
            let m = info.outputs.len();
            let mut i: usize = 0;
            while i < m
                invariant
                    n == model@.len(),
                    k < n,
                    *info == model@[k as int].1,
                    entry_type(model@[k as int].1) != ElementType::Dispose,
                    m == info.outputs@.len(),
                    i <= m,
                    forall|q: int| 0 <= q < i ==> named_position(model@, #[trigger] info.outputs@[q]) is Some,
                decreases m - i,
            {
                let key = usize_decimal(info.outputs[i]);
                if find_key(model, key.as_str()).is_none() {
                    assert(!outputs_resolve(model@, model@[k as int].1));
                    return None;
                }
                i = i + 1;
            }
        }
        k = k + 1;
    }
    Some(create_elements(ids, model))
}

} // verus!
