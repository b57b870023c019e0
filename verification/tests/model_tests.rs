use queue_sim::consts::{ElementType, NextElementType};
use queue_sim::element::{Element, IdCounter};
use queue_sim::log::EventLog;
use queue_sim::model::Model;
use queue_sim::schedule::{FIRST_ARRIVAL, NEVER};

fn three_elements() -> Vec<Element> {
    let mut ids = IdCounter::new();
    let mut c = Element::new(&mut ids, 1, ElementType::Create);
    let p = Element::new(&mut ids, 1, ElementType::Process);
    let d = Element::new(&mut ids, 1, ElementType::Dispose);
    c.set_next_element_type(NextElementType::Random, vec![1]);
    vec![c, p, d]
}

#[test]
fn next_event_is_the_earliest() {
    let mut m = Model::new(three_elements(), 3);
    assert_eq!(m.next_event(), (FIRST_ARRIVAL, 0));
    m.element_mut(2).put_tnext(100);
    m.element_mut(1).put_tnext(100);
    // element 2 still acts at never (its greatest time); element 1 too
    assert_eq!(m.next_event(), (FIRST_ARRIVAL, 0));
    m.element_mut(0).pop_tnext();
    assert_eq!(m.next_event(), (NEVER, 0));
}

#[test]
fn earliest_tie_names_the_first() {
    let mut ids = IdCounter::new();
    let a = Element::new(&mut ids, 1, ElementType::Create);
    let b = Element::new(&mut ids, 1, ElementType::Create);
    let m = Model::new(vec![a, b], 1);
    assert_eq!(m.next_event(), (FIRST_ARRIVAL, 0));
}

#[test]
fn plan_routes_single_receiver() {
    let mut m = Model::new(three_elements(), 3);
    let (outs, ins) = m.plan_actions(FIRST_ARRIVAL);
    assert_eq!(outs, vec![0]);
    assert_eq!(ins, vec![1]);
    let (outs, ins) = m.plan_actions(NEVER);
    assert_eq!(outs, vec![1, 2]);
    assert!(ins.is_empty());
}

#[test]
fn round_robin_counts_from_one() {
    let mut ids = IdCounter::new();
    let mut c = Element::new(&mut ids, 1, ElementType::Create);
    c.set_next_element_type(NextElementType::RoundRobin(0), vec![1, 2]);
    let p1 = Element::new(&mut ids, 1, ElementType::Process);
    let p2 = Element::new(&mut ids, 1, ElementType::Process);
    let mut m = Model::new(vec![c, p1, p2], 2);
    assert_eq!(m.choose_in_act_element(0, 0), Some(1));
    assert_eq!(m.choose_in_act_element(0, 0), Some(2));
    assert_eq!(m.choose_in_act_element(0, 0), Some(1));
    assert_eq!(m.elements()[0].next_element_type, NextElementType::RoundRobin(1));
}

#[test]
fn random_rule_takes_the_draw_modulo() {
    let mut ids = IdCounter::new();
    let mut c = Element::new(&mut ids, 1, ElementType::Create);
    c.set_next_element_type(NextElementType::Random, vec![1, 2, 3]);
    let mut m = Model::new(vec![c], 2);
    assert_eq!(m.choose_in_act_element(0, 7), Some(1));
    assert_eq!(m.choose_in_act_element(0, 9), Some(0));
    for _ in 0..20 {
        let r = m.pick_in_act_element(0).unwrap();
        assert!(r < 3);
    }
}

#[test]
fn balanced_rule_picks_fewest_free_places() {
    let mut ids = IdCounter::new();
    let mut c = Element::new(&mut ids, 1, ElementType::Create);
    c.set_next_element_type(NextElementType::Balanced, vec![1, 2]);
    let mut p1 = Element::new(&mut ids, 1, ElementType::Process);
    let mut p2 = Element::new(&mut ids, 1, ElementType::Process);
    p1.queue = 5;
    p1.state = 1;
    p2.queue = 3;
    p2.state = 1;
    let mut m = Model::new(vec![c, p1, p2], 2);
    assert_eq!(m.choose_in_act_element(0, 0), Some(2));
    assert_eq!(m.pick_in_act_element(0), Some(2));
}

#[test]
fn no_receiver_no_choice() {
    let mut ids = IdCounter::new();
    let c = Element::new(&mut ids, 1, ElementType::Create);
    let mut m = Model::new(vec![c], 2);
    assert_eq!(m.choose_in_act_element(0, 5), None);
}

#[test]
fn events_are_counted() {
    let mut m = Model::new(three_elements(), 3);
    assert_eq!(m.iters(), 0);
    assert_eq!(m.count_event(), 1);
    assert_eq!(m.count_event(), 2);
}

#[test]
fn log_opens_with_element_count() {
    let mut m = Model::new(three_elements(), 3);
    m.log_start();
    assert_eq!(m.log().first(), &vec!["There are 3 elements in the simulation".to_string()]);
}

fn texts_for(m: &Model) -> Vec<(String, String)> {
    m.elements().iter().map(|_| ("maxval".to_string(), "0.0000".to_string())).collect()
}

#[test]
fn log_keeps_first_and_latest() {
    let mut l = EventLog::new(2);
    for k in 0..7 {
        l.record(format!("e{}", k));
    }
    assert_eq!(l.first(), &vec!["e0".to_string(), "e1".to_string(), "e2".to_string()]);
    let last: Vec<String> = l.last().iter().cloned().collect();
    assert_eq!(last, vec!["e5".to_string(), "e6".to_string()]);
}

#[test]
fn log_event_writes_the_model_message() {
    let mut m = Model::new(three_elements(), 2);
    m.count_event();
    let texts = texts_for(&m);
    m.log_event(2, "1.0000", &texts);
    let expected = queue_sim::report::event_message(m.elements(), 1, 2, "1.0000", &texts);
    assert_eq!(m.log().first(), &vec![expected]);
    assert!(m.log().first()[0].starts_with("\n\n            >>>     Event #1 in Dispose2     <<<"));
}

#[test]
fn log_with_announcement_keeps_fewer_first() {
    let mut m = Model::new(three_elements(), 2);
    m.log_start();
    for _ in 0..4 {
        m.count_event();
        let texts = texts_for(&m);
        m.log_event(0, "0.0000", &texts);
    }
    assert_eq!(m.log().first().len(), 3);
    assert!(m.log().first()[2].contains("Event #2 in Create0"));
    let last: Vec<String> = m.log().last().iter().cloned().collect();
    assert_eq!(last.len(), 2);
    assert!(last[0].contains("Event #3 in"));
    assert!(last[1].contains("Event #4 in"));
}

#[test]
fn results_close_the_log() {
    let stats = vec![
        (String::new(), String::new(), String::new()),
        ("0.0000".to_string(), "0.0000".to_string(), "0.0000".to_string()),
        (String::new(), String::new(), String::new()),
    ];
    let mut m = Model::new(three_elements(), 1);
    m.log_sim_results(&stats);
    let expected = queue_sim::report::results_message(m.elements(), &stats);
    let last: Vec<String> = m.log().last().iter().cloned().collect();
    assert_eq!(last, vec![expected.clone()]);
    assert!(last[0].starts_with("\n\n-------------RESULTS-------------\n\n"));
    m.trim_log_last();
    let last: Vec<String> = m.log().last().iter().cloned().collect();
    assert_eq!(last, vec![expected[1..].to_string()]);

    let mut m = Model::new(three_elements(), 1);
    for _ in 0..3 {
        m.count_event();
        let texts = texts_for(&m);
        m.log_event(0, "0.0000", &texts);
    }
    m.log_sim_results(&stats);
    let last: Vec<String> = m.log().last().iter().cloned().collect();
    assert_eq!(last.len(), 2);
    assert!(last[0].starts_with("\n\n            >>>     Event #3"));
    assert_eq!(last[1], expected);
    m.trim_log_last();
    let last: Vec<String> = m.log().last().iter().cloned().collect();
    assert!(last[0].starts_with("\n            >>>     Event #3"));
    assert_eq!(last[1], expected);
}

#[test]
fn event_log_alone() {
    let mut l = EventLog::new(1);
    l.record("a".to_string());
    l.record("b".to_string());
    l.record("c".to_string());
    l.record("d".to_string());
    assert_eq!(l.first(), &vec!["a".to_string(), "b".to_string()]);
    let last: Vec<String> = l.last().iter().cloned().collect();
    assert_eq!(last, vec!["d".to_string()]);
    assert_eq!(l.max_size(), 1);
}

#[test]
fn event_log_without_room_grows_latest() {
    let mut l = EventLog::new(0);
    l.record("a".to_string());
    l.record("b".to_string());
    l.record("c".to_string());
    assert_eq!(l.first(), &vec!["a".to_string()]);
    let last: Vec<String> = l.last().iter().cloned().collect();
    assert_eq!(last, vec!["b".to_string(), "c".to_string()]);
}

#[test]
fn balanced_needs_room_and_known_ids() {
    let mut ids = IdCounter::new();
    let mut c = Element::new(&mut ids, 1, ElementType::Create);
    c.set_next_element_type(NextElementType::Balanced, vec![1, 2]);
    let mut p1 = Element::new(&mut ids, 1, ElementType::Process);
    let p2 = Element::new(&mut ids, 1, ElementType::Process);
    p1.state = 1;
    let m = Model::new(vec![c, p1, p2], 2);
    assert!(!m.in_act_choice_is_defined(0));
    assert!(!m.plan_is_defined(FIRST_ARRIVAL));
    assert!(m.plan_is_defined(NEVER));

    let mut ids = IdCounter::new();
    let mut c = Element::new(&mut ids, 1, ElementType::Create);
    c.set_next_element_type(NextElementType::Balanced, vec![1, 7]);
    let p1 = Element::new(&mut ids, 1, ElementType::Process);
    let m = Model::new(vec![c, p1], 2);
    assert!(!m.in_act_choice_is_defined(0));

    let mut ids = IdCounter::new();
    let mut c = Element::new(&mut ids, 1, ElementType::Create);
    c.set_next_element_type(NextElementType::Balanced, vec![1]);
    let mut p1 = Element::new(&mut ids, 1, ElementType::Process);
    p1.state = 1;
    let m = Model::new(vec![c, p1], 2);
    assert!(m.in_act_choice_is_defined(0));
}

#[test]
fn plan_changes_only_the_fired_counters() {
    let mut ids = IdCounter::new();
    let mut c = Element::new(&mut ids, 1, ElementType::Create);
    c.set_next_element_type(NextElementType::RoundRobin(2), vec![1, 2]);
    let mut p = Element::new(&mut ids, 1, ElementType::Process);
    p.set_next_element_type(NextElementType::RoundRobin(0), vec![1, 2]);
    let d = Element::new(&mut ids, 1, ElementType::Dispose);
    let mut m = Model::new(vec![c, p, d], 2);
    let (outs, ins) = m.plan_actions(FIRST_ARRIVAL);
    assert_eq!(outs, vec![0]);
    assert_eq!(ins, vec![1]);
    assert_eq!(m.elements()[0].next_element_type, NextElementType::RoundRobin(1));
    assert_eq!(m.elements()[1].next_element_type, NextElementType::RoundRobin(0));
}

#[test]
fn event_message_lists_every_element() {
    let els = three_elements();
    let texts = vec![
        ("0.0000".to_string(), "1.0000".to_string()),
        ("maxval".to_string(), "0.0000".to_string()),
        ("maxval".to_string(), "0.0000".to_string()),
    ];
    let msg = queue_sim::report::event_message(&els, 4, 1, "0.0000", &texts);
    let expected = String::from("\n\n            >>>     Event #4 in Process1     <<<\n\n            >>>     time: 0.0000     <<<\n\n")
        + "\n\n        ##### Create0 #####\n\n        quantity = 0 | queue = 0 | tnext = 0.0000 | average_load = 1.0000\n\n        failure = 0"
        + "\n\n        ##### Process1 #####\n\n        state = 0 | quantity = 0 | queue = 0 | tnext = maxval | average_load = 0.0000\n\n        failure = 0"
        + "\n\n        ##### Dispose2 #####\n\n        quantity = 0";
    assert_eq!(msg, expected);
}

#[test]
fn results_message_shows_serving_figures() {
    let mut els = three_elements();
    els[1].quantity = 9;
    let stats = vec![
        (String::new(), String::new(), String::new()),
        ("0.5000".to_string(), "0.1000".to_string(), "0.0000".to_string()),
        (String::new(), String::new(), String::new()),
    ];
    let msg = queue_sim::report::results_message(&els, &stats);
    let expected = String::from("\n\n-------------RESULTS-------------\n\n")
        + "##### Create0 #####\n\n                quantity = 0\n\n"
        + "##### Process1 #####\n\n                quantity = 9\n"
        + "\n\n                    Mean length of queue = 0.5000\n\n                    Failure probability = 0.1000\n\n                    Total time stalling = 0.0000\n\n"
        + "##### Dispose2 #####\n\n                quantity = 0\n\n"
        + "---------------------------------\n\n            Simulation is done successfully!";
    assert_eq!(msg, expected);
}

#[test]
fn round_robin_takes_each_once_from_any_counter() {
    for start in 0..=3usize {
        let mut ids = IdCounter::new();
        let mut c = Element::new(&mut ids, 1, ElementType::Create);
        c.set_next_element_type(NextElementType::RoundRobin(start), vec![1, 2, 3]);
        let mut m = Model::new(vec![c], 2);
        let mut seen: Vec<usize> = (0..3).map(|_| m.pick_in_act_element(0).unwrap()).collect();
        seen.sort();
        assert_eq!(seen, vec![1, 2, 3]);
    }
}
