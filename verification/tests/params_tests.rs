use wsm::params::build_params;

#[test]
fn build_params_keeps_the_order() {
    assert_eq!(build_params(&vec!["b", "a", "b"]), vec!["b".to_string(), "a".to_string(), "b".to_string()]);
    assert_eq!(build_params(&vec!["only"]), vec!["only".to_string()]);
}
