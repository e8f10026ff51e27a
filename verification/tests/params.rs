use noslop::ids::Span;
use noslop::params::{unused_trailing_params, without_receiver};

fn ps(names: &[&str]) -> Vec<(String, Span)> {
    names.iter().enumerate().map(|(i, n)| (n.to_string(), Span::new(i as u32 + 1, i as u32 + 1))).collect()
}

fn names(v: &[(String, Span)]) -> Vec<&str> {
    v.iter().map(|(n, _)| n.as_str()).collect()
}

#[test]
fn only_trailing_unused_parameters_are_candidates() {
    let used = vec!["b".to_string()];
    let out = unused_trailing_params(&ps(&["a", "b", "c", "_d", "e"]), &used);
    assert_eq!(names(&out), vec!["c", "e"]);
    assert_eq!(out[0].1, Span::new(3, 3));
    // a barrier keeps what precedes it
    let out = unused_trailing_params(&ps(&["a", "", "c"]), &Vec::new());
    assert_eq!(names(&out), vec!["c"]);
    // all used: nothing to report
    assert!(unused_trailing_params(&ps(&["a"]), &vec!["a".to_string()]).is_empty());
    // nothing used: every named, non-underscore parameter
    assert_eq!(names(&unused_trailing_params(&ps(&["x", "_y", "z"]), &Vec::new())), vec!["x", "z"]);
}

#[test]
fn python_receivers_are_dropped() {
    assert_eq!(names(&without_receiver(ps(&["self", "a"]))), vec!["a"]);
    assert_eq!(names(&without_receiver(ps(&["cls"]))), Vec::<&str>::new());
    assert_eq!(names(&without_receiver(ps(&["a", "self"]))), vec!["a", "self"]);
}
