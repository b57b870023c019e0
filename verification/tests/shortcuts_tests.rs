use queue_sim::consts::{ElementType, NextElementType};
use queue_sim::element::{Element, IdCounter};
use queue_sim::schedule::NEVER;
use queue_sim::shortcuts::{choose_receiver, out_act, route};

fn receivers(ids: &mut IdCounter) -> Vec<Element> {
    let mut a = Element::new(ids, 1, ElementType::Process);
    let mut b = Element::new(ids, 1, ElementType::Process);
    let c = Element::new(ids, 1, ElementType::Process);
    a.queue = 4;
    a.state = 1;
    b.state = 1;
    vec![a, b, c]
}

#[test]
fn in_turn_from_zero() {
    let mut ids = IdCounter::new();
    let next = receivers(&mut ids);
    let mut e = Element::new(&mut ids, 1, ElementType::Process);
    e.next_element_type = NextElementType::RoundRobin(0);
    assert_eq!(choose_receiver(&mut e, &next, 0), Some(0));
    assert_eq!(choose_receiver(&mut e, &next, 0), Some(1));
    assert_eq!(choose_receiver(&mut e, &next, 0), Some(2));
    assert_eq!(e.round_robin_idx, 3);
    assert_eq!(choose_receiver(&mut e, &next, 0), Some(0));
}

#[test]
fn balanced_takes_fewest_free_places_even_negative() {
    let mut ids = IdCounter::new();
    let next = receivers(&mut ids);
    let mut e = Element::new(&mut ids, 1, ElementType::Process);
    e.next_element_type = NextElementType::Balanced;
    assert_eq!(choose_receiver(&mut e, &next, 0), Some(1));
}

#[test]
fn random_uses_the_draw() {
    let mut ids = IdCounter::new();
    let mut next = receivers(&mut ids);
    let mut e = Element::new(&mut ids, 1, ElementType::Process);
    assert_eq!(choose_receiver(&mut e, &next, 5), Some(2));
    let before: u32 = next.iter().map(|r| r.state + r.queue + r.quantity + r.failure).sum();
    for _ in 0..10 {
        assert!(out_act(&mut e, &mut next, 77).unwrap() < 3);
    }
    let after: u32 = next.iter().map(|r| r.state + r.queue + r.quantity + r.failure).sum();
    assert_eq!(after, before + 10);
    assert_eq!(out_act(&mut e, &mut Vec::new(), 77), None);
}

#[test]
fn balanced_reads_counters_as_i32() {
    let mut ids = IdCounter::new();
    let a = Element::new(&mut ids, 1, ElementType::Process);
    let mut b = Element::new(&mut ids, 1, ElementType::Process);
    b.queue = u32::MAX;
    let next = vec![a, b];
    let mut e = Element::new(&mut ids, 1, ElementType::Process);
    e.next_element_type = NextElementType::Balanced;
    assert_eq!(choose_receiver(&mut e, &next, 0), Some(1));
}

#[test]
fn in_turn_serves_each_once_from_any_counter() {
    let mut ids = IdCounter::new();
    let next = receivers(&mut ids);
    for start in 0..=3usize {
        let mut e = Element::new(&mut ids, 1, ElementType::Process);
        e.next_element_type = NextElementType::RoundRobin(0);
        e.round_robin_idx = start;
        let mut seen: Vec<usize> = (0..3).map(|_| choose_receiver(&mut e, &next, 0).unwrap()).collect();
        assert!(e.round_robin_idx >= 1 && e.round_robin_idx <= 3);
        seen.sort();
        assert_eq!(seen, vec![0, 1, 2]);
    }
}

#[test]
fn in_turn_hands_the_item_over() {
    let mut ids = IdCounter::new();
    let mut e = Element::new(&mut ids, 1, ElementType::Create);
    e.next_element_type = NextElementType::RoundRobin(0);
    e.round_robin_idx = 2;
    let mut next = vec![
        Element::new(&mut ids, 1, ElementType::Process),
        Element::new(&mut ids, 1, ElementType::Process),
    ];
    assert_eq!(out_act(&mut e, &mut next, 40), Some(0));
    assert_eq!(e.round_robin_idx, 1);
    assert_eq!(next[0].state, 1);
    assert_eq!(next[1].state, 0);
    assert_eq!(next[0].tnext.len(), 2);
    assert_eq!(next[0].get_tnext(), NEVER);
    assert_eq!(next[1].tnext.len(), 1);
}

#[test]
fn in_turn_delivers_once_to_each() {
    let mut ids = IdCounter::new();
    let mut e = Element::new(&mut ids, 1, ElementType::Create);
    e.next_element_type = NextElementType::RoundRobin(0);
    e.round_robin_idx = 1;
    let mut next = vec![
        Element::new(&mut ids, 1, ElementType::Dispose),
        Element::new(&mut ids, 1, ElementType::Dispose),
        Element::new(&mut ids, 1, ElementType::Dispose),
    ];
    for _ in 0..3 {
        out_act(&mut e, &mut next, 0);
        assert!(e.round_robin_idx >= 1 && e.round_robin_idx <= 3);
    }
    assert!(next.iter().all(|r| r.quantity == 1));
}

#[test]
fn balanced_hands_to_the_least_loaded_only() {
    let mut ids = IdCounter::new();
    let mut next = receivers(&mut ids);
    let mut e = Element::new(&mut ids, 1, ElementType::Process);
    e.next_element_type = NextElementType::Balanced;
    let r = route(&mut e, &mut next, 9, 0);
    assert_eq!(r, Some(1));
    assert_eq!((next[0].state, next[0].queue, next[0].failure), (1, 4, 0));
    assert_eq!((next[1].state, next[1].queue, next[1].failure), (1, 0, 1));
    assert_eq!((next[2].state, next[2].queue, next[2].failure), (0, 0, 0));
    assert_eq!(e.round_robin_idx, 0);
}
