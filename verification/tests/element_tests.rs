use queue_sim::consts::{DistributionType, ElementType, NextElementType};
use queue_sim::element::{Element, IdCounter};
use queue_sim::schedule::{FIRST_ARRIVAL, NEVER};
use queue_sim::{create, dispose, process};

#[test]
fn ids_are_handed_out_in_order() {
    let mut ids = IdCounter::new();
    assert_eq!(ids.get_next_id(), 0);
    assert_eq!(ids.get_next_id(), 1);
    assert_eq!(ids.get_next_id(), 2);
}

#[test]
fn new_elements_are_named_and_scheduled_by_type() {
    let mut ids = IdCounter::new();
    let c = Element::new(&mut ids, 1, ElementType::Create);
    let p = Element::new(&mut ids, 3, ElementType::Process);
    let d = Element::new(&mut ids, 1, ElementType::Dispose);
    assert_eq!(c.name, "Create0");
    assert_eq!(p.name, "Process1");
    assert_eq!(d.name, "Dispose2");
    assert_eq!(c.get_tnext(), FIRST_ARRIVAL);
    assert_eq!(p.get_tnext(), NEVER);
    assert_eq!(d.get_tnext(), NEVER);
    assert_eq!(p.worker_count, 3);
    assert_eq!(p.distribution, DistributionType::Exponential);
    assert_eq!(p.next_element_type, NextElementType::Random);
    assert!(p.next_elements.is_empty());
    assert_eq!((p.state, p.queue, p.quantity, p.failure), (0, 0, 0, 0));
}

#[test]
fn names_carry_many_digits() {
    let mut ids = IdCounter::new();
    for _ in 0..12 {
        ids.get_next_id();
    }
    let e = Element::new(&mut ids, 1, ElementType::Process);
    assert_eq!(e.id, 12);
    assert_eq!(e.name, "Process12");
}

#[test]
fn process_serves_then_turns_away() {
    let mut ids = IdCounter::new();
    let mut e = Element::new(&mut ids, 1, ElementType::Process);
    assert!(e.in_act_defined());
    assert!(e.in_act_starts());
    e.in_act(Some(100));
    assert_eq!((e.state, e.queue, e.failure), (1, 0, 0));
    assert_eq!(e.get_tnext(), NEVER);
    assert!(!e.in_act_starts());
    e.in_act(None);
    assert_eq!((e.state, e.queue, e.failure), (1, 0, 1));
    assert!(!e.out_act_starts());
    let idle = e.out_act(None);
    assert!(idle);
    assert_eq!((e.state, e.queue, e.quantity, e.failure), (0, 0, 1, 1));
    // the greatest pending time (never) was taken away; the completion stays
    assert_eq!(e.get_tnext(), 100);
}

#[test]
fn process_with_waiting_items_takes_the_next() {
    let mut ids = IdCounter::new();
    let mut e = Element::new(&mut ids, 1, ElementType::Process);
    e.state = 1;
    e.queue = 2;
    e.in_act(None);
    assert_eq!(e.queue, 3);
    assert!(e.out_act_starts());
    let idle = process::out_act(&mut e, Some(50));
    assert!(!idle);
    assert_eq!((e.state, e.queue, e.quantity), (1, 2, 1));
}

#[test]
fn arrivals_are_counted_once() {
    let mut ids = IdCounter::new();
    let mut e = Element::new(&mut ids, 2, ElementType::Process);
    for k in 0..5u32 {
        let c = if e.in_act_starts() { Some(10 + k) } else { None };
        e.in_act(c);
    }
    assert_eq!(e.state + e.queue + e.quantity + e.failure, 5);
    e.out_act(None);
    assert_eq!(e.state + e.queue + e.quantity + e.failure, 5);
    assert_eq!(e.quantity, 1);
    assert!(e.state <= e.worker_count);
    assert_eq!(e.queue, 0);
}

#[test]
fn creating_element_keeps_its_time_with_a_late_arrival() {
    let mut ids = IdCounter::new();
    let mut e = Element::new(&mut ids, 1, ElementType::Create);
    create::in_act();
    let idle = e.out_act(Some(FIRST_ARRIVAL + 10));
    assert!(!idle);
    assert_eq!(e.quantity, 1);
    assert_eq!(e.get_tnext(), FIRST_ARRIVAL);
    assert_eq!(e.tnext.len(), 1);
}

#[test]
fn creating_element_with_an_earlier_arrival() {
    let mut ids = IdCounter::new();
    let mut e = Element::new(&mut ids, 1, ElementType::Create);
    create::out_act(&mut e, 5);
    assert_eq!(e.get_tnext(), 5);
    assert_eq!(e.tnext.len(), 1);
}

#[test]
fn dispose_counts_arrivals() {
    let mut ids = IdCounter::new();
    let mut e = Element::new(&mut ids, 1, ElementType::Dispose);
    assert!(!e.in_act_starts());
    e.in_act(None);
    dispose::in_act(&mut e);
    assert_eq!(e.quantity, 2);
    assert_eq!(e.get_tnext(), NEVER);
}

#[test]
fn statistics_sum_busy_workers() {
    let mut ids = IdCounter::new();
    let mut e = Element::new(&mut ids, 4, ElementType::Process);
    e.state = 3;
    e.do_statistics(5);
    assert_eq!(e.state_sum, 15);
    let mut c = Element::new(&mut ids, 4, ElementType::Create);
    c.state = 3;
    c.do_statistics(5);
    assert_eq!(c.state_sum, 0);
}

#[test]
fn overflow_checks() {
    let mut ids = IdCounter::new();
    let mut e = Element::new(&mut ids, 0, ElementType::Process);
    e.failure = u32::MAX;
    assert!(!e.in_act_defined());
    assert!(!e.out_act_defined());
    e.state = 1;
    assert!(e.out_act_defined());
}

#[test]
fn summaries_are_laid_out() {
    let mut ids = IdCounter::new();
    let mut d = Element::new(&mut ids, 1, ElementType::Dispose);
    d.quantity = 42;
    assert_eq!(dispose::get_summary(&d), "\n\n        ##### Dispose0 #####\n\n        quantity = 42");
    let mut p = Element::new(&mut ids, 1, ElementType::Process);
    p.state = 1;
    p.quantity = 7;
    p.failure = 3;
    let s = p.get_summary("1.5000".to_string(), "0.2500".to_string());
    assert_eq!(
        s,
        "\n\n        ##### Process1 #####\n\n        state = 1 | quantity = 7 | queue = 0 | tnext = 1.5000 | average_load = 0.2500\n\n        failure = 3"
    );
    let c = Element::new(&mut ids, 1, ElementType::Create);
    let s = create::get_summary(&c, "maxval".to_string(), "0.0000".to_string());
    assert_eq!(
        s,
        "\n\n        ##### Create2 #####\n\n        quantity = 0 | queue = 0 | tnext = maxval | average_load = 0.0000\n\n        failure = 0"
    );
}

#[test]
fn peeking_an_id_hands_nothing_out() {
    let mut ids = IdCounter::new();
    assert_eq!(ids.peek_next_id(), 0);
    assert_eq!(ids.peek_next_id(), 0);
    assert_eq!(ids.get_next_id(), 0);
    assert_eq!(ids.peek_next_id(), 1);
}

#[test]
fn summaries_write_large_counts() {
    let mut ids = IdCounter::new();
    let mut d = Element::new(&mut ids, 1, ElementType::Dispose);
    d.quantity = u32::MAX;
    assert_eq!(dispose::get_summary(&d), "\n\n        ##### Dispose0 #####\n\n        quantity = 4294967295");
    d.quantity = 10;
    assert_eq!(dispose::get_summary(&d), "\n\n        ##### Dispose0 #####\n\n        quantity = 10");
}
