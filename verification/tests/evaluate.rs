use prompt_print::evaluate::{
    arrange, evaluate_in_order, modules_present, ordered_segments, segments_of, Completed,
};
use prompt_print::compose::substitute;
use prompt_print::resolve::{ModuleRequest, Plan};
use prompt_print::segment::{Module, Segment};
use std::time::Duration;

fn module(name: &str, texts: &[&str]) -> Module {
    let mut module = Module::new(name, "", Duration::from_millis(1));
    module.set_segments(texts.iter().map(|t| Segment::new(t.to_string(), None)).collect());
    module
}

fn done(position: usize, name: &str, texts: &[&str]) -> Completed {
    Completed { position, module: Some(module(name, texts)) }
}

fn names(modules: &[Module]) -> Vec<String> {
    modules.iter().map(|m| m.name.clone()).collect()
}

fn texts(segments: &[Segment]) -> Vec<String> {
    segments.iter().map(|s| s.value.clone()).collect()
}

#[test]
fn results_come_out_in_the_order_of_the_requests() {
    let orders: [[usize; 3]; 6] =
        [[0, 1, 2], [0, 2, 1], [1, 0, 2], [1, 2, 0], [2, 0, 1], [2, 1, 0]];
    for order in orders {
        let completed: Vec<Completed> = order
            .iter()
            .map(|&p| done(p, ["first", "second", "third"][p], &[["a", "b", "c"][p]]))
            .collect();
        let modules = evaluate_in_order(3, completed).unwrap();
        assert_eq!(names(&modules), vec!["first", "second", "third"]);
        assert_eq!(texts(&segments_of(modules)), vec!["a", "b", "c"]);
    }
}

#[test]
fn a_request_without_a_module_leaves_no_gap() {
    let completed = vec![
        done(2, "third", &["c1", "c2"]),
        Completed { position: 1, module: None },
        done(0, "first", &[]),
    ];
    let modules = evaluate_in_order(3, completed).unwrap();
    assert_eq!(names(&modules), vec!["first", "third"]);
    assert_eq!(texts(&segments_of(modules)), vec!["c1", "c2"]);
}

#[test]
fn arranging_keeps_the_gaps() {
    let completed = vec![Completed { position: 1, module: None }, done(0, "first", &["a"])];
    let arranged = arrange(2, completed).unwrap();
    assert_eq!(arranged.len(), 2);
    assert_eq!(arranged[0].as_ref().map(|m| m.name.clone()), Some("first".to_string()));
    assert!(arranged[1].is_none());
    assert_eq!(names(&modules_present(arranged)), vec!["first"]);
}

#[test]
fn nothing_requested_gives_nothing() {
    assert!(evaluate_in_order(0, vec![]).unwrap().is_empty());
    assert!(segments_of(vec![]).is_empty());
}

#[test]
fn a_missing_result_is_refused() {
    assert!(evaluate_in_order(2, vec![done(0, "first", &[])]).is_none());
    assert!(evaluate_in_order(1, vec![]).is_none());
}

#[test]
fn a_repeated_position_is_refused() {
    assert!(evaluate_in_order(2, vec![done(0, "a", &[]), done(0, "b", &[])]).is_none());
    assert!(evaluate_in_order(2, vec![done(1, "a", &[]), done(1, "b", &[])]).is_none());
}

#[test]
fn a_position_out_of_range_is_refused() {
    assert!(evaluate_in_order(2, vec![done(0, "a", &[]), done(2, "b", &[])]).is_none());
    assert!(evaluate_in_order(1, vec![done(usize::MAX, "a", &[])]).is_none());
    assert!(evaluate_in_order(0, vec![done(0, "a", &[])]).is_none());
}

#[test]
fn segments_come_out_in_the_order_of_the_requests() {
    let completed = vec![
        done(1, "second", &["b1", "b2"]),
        done(3, "fourth", &["d"]),
        Completed { position: 2, module: None },
        done(0, "first", &["a"]),
    ];
    let segments = ordered_segments(4, completed).unwrap();
    assert_eq!(texts(&segments), vec!["a", "b1", "b2", "d"]);
    assert!(ordered_segments(2, vec![done(0, "a", &[]), done(0, "b", &[])]).is_none());
}

#[test]
fn a_variable_gets_the_segments_in_the_order_of_its_plan() {
    let plan = Plan {
        requests: vec![
            ModuleRequest::Builtin("directory".to_string()),
            ModuleRequest::Custom("x".to_string()),
            ModuleRequest::Builtin("character".to_string()),
        ],
        reports: vec![],
    };
    let in_turn =
        vec![done(0, "directory", &["~"]), done(1, "x", &["x1", "x2"]), done(2, "character", &[">"])];
    let out_of_turn =
        vec![done(2, "character", &[">"]), done(0, "directory", &["~"]), done(1, "x", &["x1", "x2"])];
    assert_eq!(texts(&substitute(&plan, in_turn).unwrap()), vec!["~", "x1", "x2", ">"]);
    assert_eq!(texts(&substitute(&plan, out_of_turn).unwrap()), vec!["~", "x1", "x2", ">"]);
    assert!(substitute(&plan, vec![done(0, "directory", &["~"])]).is_none());
    let nothing = Plan { requests: vec![], reports: vec![] };
    assert!(substitute(&nothing, vec![]).unwrap().is_empty());
}
