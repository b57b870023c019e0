use queue_sim::consts::{DistributionType, ElementType, NextElementType};
use queue_sim::names::{
    distribution_from_lowercase, element_type_from_lowercase, next_element_type_from_lowercase,
    parse_distribution, parse_element_type, parse_next_element_type, str_eq,
};

#[test]
fn parse_distribution_any_case() {
    assert_eq!(parse_distribution("Exponential"), Some(DistributionType::Exponential));
    assert_eq!(parse_distribution("NORMAL"), Some(DistributionType::Normal));
    assert_eq!(parse_distribution("uniform"), Some(DistributionType::Uniform));
    assert_eq!(parse_distribution("ErLaNg"), Some(DistributionType::Erlang));
    assert_eq!(parse_distribution("Constant"), Some(DistributionType::Constant));
}

#[test]
fn parse_distribution_unknown() {
    assert_eq!(parse_distribution("gamma"), None);
    assert_eq!(parse_distribution(""), None);
    assert_eq!(parse_distribution("exponential "), None);
}

#[test]
fn parse_element_type_any_case() {
    assert_eq!(parse_element_type("Create"), Some(ElementType::Create));
    assert_eq!(parse_element_type("PROCESS"), Some(ElementType::Process));
    assert_eq!(parse_element_type("dispose"), Some(ElementType::Dispose));
    assert_eq!(parse_element_type("sink"), None);
}

#[test]
fn parse_next_element_type_any_case() {
    assert_eq!(parse_next_element_type("Balanced"), Some(NextElementType::Balanced));
    assert_eq!(parse_next_element_type("Round Robin"), Some(NextElementType::RoundRobin(0)));
    assert_eq!(parse_next_element_type("RANDOM"), Some(NextElementType::Random));
    assert_eq!(parse_next_element_type("roundrobin"), None);
}

#[test]
fn lowercase_lookup_is_exact() {
    assert_eq!(distribution_from_lowercase("erlang"), Some(DistributionType::Erlang));
    assert_eq!(distribution_from_lowercase("Erlang"), None);
    assert_eq!(element_type_from_lowercase("process"), Some(ElementType::Process));
    assert_eq!(element_type_from_lowercase("Process"), None);
    assert_eq!(next_element_type_from_lowercase("round robin"), Some(NextElementType::RoundRobin(0)));
    assert_eq!(next_element_type_from_lowercase("Round Robin"), None);
}

#[test]
fn str_eq_compares_characters() {
    assert!(str_eq("abc", "abc"));
    assert!(!str_eq("abc", "abd"));
    assert!(!str_eq("abc", "ab"));
    assert!(str_eq("", ""));
    assert!(str_eq("ünï", "ünï"));
}

#[test]
fn debug_names_read_back() {
    for d in [
        DistributionType::Exponential,
        DistributionType::Normal,
        DistributionType::Uniform,
        DistributionType::Erlang,
        DistributionType::Constant,
    ] {
        assert_eq!(parse_distribution(&format!("{:?}", d)), Some(d));
    }
    for t in [ElementType::Create, ElementType::Process, ElementType::Dispose] {
        assert_eq!(parse_element_type(&format!("{:?}", t)), Some(t));
    }
    assert_eq!(parse_next_element_type("Balanced"), Some(NextElementType::Balanced));
    assert_eq!(parse_next_element_type("Round Robin"), Some(NextElementType::RoundRobin(0)));
    assert_eq!(parse_next_element_type("Random"), Some(NextElementType::Random));
}

#[test]
fn ascii_case_is_ignored() {
    for s in ["exponential", "Normal", "uniForm", "x", "", "Round Robin", "creator"] {
        let up = s.to_ascii_uppercase();
        assert_eq!(parse_distribution(&up), parse_distribution(s));
        assert_eq!(parse_element_type(&up), parse_element_type(s));
        assert_eq!(parse_next_element_type(&up), parse_next_element_type(s));
    }
    assert_eq!(parse_element_type("creator"), None);
}
