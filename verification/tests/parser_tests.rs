use queue_sim::consts::{DistributionType, ElementType, NextElementType};
use queue_sim::element::IdCounter;
use queue_sim::element_parser::{
    checked_create_elements, create_elements, element_is_valid, find_key, ElementData, ElementInfo,
};
use queue_sim::schedule::{FIRST_ARRIVAL, NEVER};

fn info(class: &str, name: &str, dist: &str, order: &str, replica: u32, outputs: Vec<usize>) -> ElementInfo {
    ElementInfo {
        class: class.to_string(),
        data: ElementData {
            dist: dist.to_string(),
            name: name.to_string(),
            order: order.to_string(),
            queuesize: 4,
            replica,
        },
        inputs: vec![],
        outputs,
    }
}

fn network() -> Vec<(String, ElementInfo)> {
    vec![
        ("10".to_string(), info("Create", "source", "Exponential", "Random", 1, vec![11])),
        ("11".to_string(), info("Process", "desk", "Erlang", "Round Robin", 2, vec![12, 12])),
        ("12".to_string(), info("Dispose", "exit", "Constant", "balanced", 1, vec![10])),
    ]
}

#[test]
fn every_description_is_valid() {
    let a = info("Create", "a", "Normal", "Random", 1, vec![]);
    let b = info("Create", "b", "Normal", "Random", 1, vec![1]);
    let mut c = info("Create", "c", "Normal", "Random", 1, vec![1]);
    c.inputs = vec![2];
    assert!(element_is_valid(&a));
    assert!(element_is_valid(&b));
    assert!(element_is_valid(&c));
}

#[test]
fn keys_are_found() {
    let n = network();
    assert_eq!(find_key(&n, "11"), Some(1));
    assert_eq!(find_key(&n, "13"), None);
}

#[test]
fn elements_are_built_and_linked() {
    let mut ids = IdCounter::new();
    ids.get_next_id();
    ids.get_next_id();
    let els = create_elements(&mut ids, &network());
    assert_eq!(els.len(), 3);
    assert_eq!(els.iter().map(|e| e.id).collect::<Vec<_>>(), vec![2, 3, 4]);
    assert_eq!(els[0].name, "source");
    assert_eq!(els[0].elem_type, ElementType::Create);
    assert_eq!(els[0].next_elements, vec![3]);
    assert_eq!(els[0].get_tnext(), FIRST_ARRIVAL);
    assert_eq!(els[1].elem_type, ElementType::Process);
    assert_eq!(els[1].distribution, DistributionType::Erlang);
    assert_eq!(els[1].next_element_type, NextElementType::RoundRobin(0));
    assert_eq!(els[1].worker_count, 2);
    assert_eq!(els[1].max_queue, 4);
    assert_eq!(els[1].next_elements, vec![4, 4]);
    assert_eq!(els[1].get_tnext(), NEVER);
    assert_eq!(els[2].elem_type, ElementType::Dispose);
    assert_eq!(els[2].next_element_type, NextElementType::Balanced);
    assert!(els[2].next_elements.is_empty());
    assert_eq!(ids.get_next_id(), 5);
}

#[test]
fn unreadable_descriptions_are_refused() {
    let mut ids = IdCounter::new();
    let mut n = network();
    n[1].1.class = "queue".to_string();
    assert!(checked_create_elements(&mut ids, &n).is_none());
    assert_eq!(ids.get_next_id(), 0);

    let mut n = network();
    n[0].1.outputs = vec![99];
    assert!(checked_create_elements(&mut ids, &n).is_none());

    let mut n = network();
    n[2].1.outputs = vec![99];
    let els = checked_create_elements(&mut ids, &n).unwrap();
    assert_eq!(els[0].id, 1);
    assert_eq!(els[0].next_elements, vec![2]);
}
