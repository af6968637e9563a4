use ebs_node_tainter::model::{Node, Pod, Taint, Volume, Error, taint_key};
use ebs_node_tainter::pass::{plan_pass, plan_pass_from_fetches};
use ebs_node_tainter::reconcile::{
    node_has_taint, reconcile_action, taint_decision, taints_with_marker, taints_without_marker,
    MarkerState, NodeAction,
};

fn taint(key: &str) -> Taint {
    Taint {
        key: String::from(key),
        effect: String::from("NoExecute"),
        value: None,
        time_added: Some(String::from("2021-01-01T00:00:00Z")),
    }
}

fn marker() -> Taint {
    Taint {
        key: String::from(taint_key()),
        effect: String::from("NoSchedule"),
        value: Some(String::from("true")),
        time_added: None,
    }
}

fn node(instance_type: Option<&str>, limit_override: Option<&str>, taints: Vec<Taint>) -> Node {
    Node {
        name: String::from("node-1"),
        instance_type: instance_type.map(String::from),
        limit_override: limit_override.map(String::from),
        taints,
    }
}

fn pods_on(name: &str, ebs: usize) -> Vec<Pod> {
    let mut volumes = Vec::new();
    for _ in 0..ebs {
        volumes.push(Volume { has_persistent_claim: true });
    }
    vec![Pod { node_name: Some(String::from(name)), volumes }]
}

fn apply(node: &mut Node, action: NodeAction) {
    match action {
        NodeAction::AddMarker(ts) | NodeAction::RemoveMarker(ts) => node.taints = ts,
        NodeAction::RemainMarked | NodeAction::Nothing => {},
    }
}

#[test]
fn decision_marks_at_limit() {
    assert_eq!(taint_decision(22, 22), MarkerState::Marked);
    assert_eq!(taint_decision(23, 22), MarkerState::Marked);
    assert_eq!(taint_decision(21, 22), MarkerState::Unmarked);
    assert_eq!(taint_decision(0, 0), MarkerState::Marked);
}

#[test]
fn node_has_taint_looks_for_controller_key() {
    assert!(!node_has_taint(&node(None, None, vec![taint("unrelated")])));
    assert!(node_has_taint(&node(None, None, vec![taint("unrelated"), marker()])));
}

#[test]
fn scenario_a_below_limit_stays_unmarked() {
    let n = node(Some("m5.xlarge"), None, Vec::new());
    let plan = plan_pass(&vec![n], &pods_on("node-1", 21));
    assert_eq!(plan.len(), 1);
    assert_eq!(plan[0].limit, 22);
    assert_eq!(plan[0].volume_count, 21);
    assert!(matches!(&plan[0].action, NodeAction::Nothing));
}

#[test]
fn scenario_b_at_limit_gets_marked() {
    let n = node(Some("m5.xlarge"), None, vec![taint("pre-existing")]);
    let plan = plan_pass(&vec![n], &pods_on("node-1", 22));
    assert_eq!(plan[0].limit, 22);
    assert_eq!(plan[0].volume_count, 22);
    match &plan[0].action {
        NodeAction::AddMarker(ts) => {
            assert_eq!(ts.len(), 2);
            assert_eq!(ts[0].key, "pre-existing");
            assert_eq!(ts[1].key, taint_key());
            assert_eq!(ts[1].effect, "NoSchedule");
            assert_eq!(ts[1].value.as_deref(), Some("true"));
            assert!(ts[1].time_added.is_none());
        },
        other => panic!("expected AddMarker, got {}", kind_of(other)),
    }
}

fn kind_of(a: &NodeAction) -> &'static str {
    match a {
        NodeAction::AddMarker(_) => "AddMarker",
        NodeAction::RemoveMarker(_) => "RemoveMarker",
        NodeAction::RemainMarked => "RemainMarked",
        NodeAction::Nothing => "Nothing",
    }
}

#[test]
fn scenario_c_override_forces_marking() {
    let n = node(Some("m5.24xlarge"), Some("5"), Vec::new());
    let plan = plan_pass(&vec![n], &pods_on("node-1", 6));
    assert_eq!(plan[0].limit, 5);
    assert!(matches!(&plan[0].action, NodeAction::AddMarker(_)));
}

#[test]
fn scenario_d_unmarking_removes_only_controller_taint() {
    let n = node(Some("m5.xlarge"), None, vec![taint("keep-me"), marker(), taint("me-too")]);
    let plan = plan_pass(&vec![n], &Vec::new());
    assert_eq!(plan[0].volume_count, 0);
    match &plan[0].action {
        NodeAction::RemoveMarker(ts) => {
            assert_eq!(ts.len(), 2);
            assert_eq!(ts[0].key, "keep-me");
            assert_eq!(ts[0].effect, "NoExecute");
            assert_eq!(ts[0].time_added.as_deref(), Some("2021-01-01T00:00:00Z"));
            assert_eq!(ts[1].key, "me-too");
        },
        other => panic!("expected RemoveMarker, got {}", kind_of(other)),
    }
}

#[test]
fn scenario_e_fetch_failure_aborts_pass() {
    let nodes: Result<Vec<Node>, Error> = Ok(vec![node(Some("m5.xlarge"), None, Vec::new())]);
    let pods: Result<Vec<Pod>, Error> = Err(Error::KubeFailure);
    assert!(matches!(plan_pass_from_fetches(nodes, pods), Err(Error::KubeFailure)));

    let nodes: Result<Vec<Node>, Error> = Err(Error::KubeFailure);
    let pods: Result<Vec<Pod>, Error> = Ok(Vec::new());
    assert!(matches!(plan_pass_from_fetches(nodes, pods), Err(Error::KubeFailure)));

    let plan = plan_pass_from_fetches(Ok(Vec::new()), Ok(Vec::new())).unwrap();
    assert!(plan.is_empty());
}

#[test]
fn reconcile_is_idempotent_after_marking() {
    let mut n = node(Some("m5.xlarge"), None, vec![taint("unrelated")]);
    let first = reconcile_action(&n, 30);
    assert!(matches!(&first, NodeAction::AddMarker(_)));
    apply(&mut n, first);
    let second = reconcile_action(&n, 30);
    assert!(matches!(&second, NodeAction::RemainMarked));
    apply(&mut n, second);
    assert_eq!(n.taints.len(), 2);
}

#[test]
fn reconcile_is_idempotent_after_unmarking() {
    let mut n = node(Some("m5.xlarge"), None, vec![marker(), taint("unrelated")]);
    let first = reconcile_action(&n, 0);
    assert!(matches!(&first, NodeAction::RemoveMarker(_)));
    apply(&mut n, first);
    let second = reconcile_action(&n, 0);
    assert!(matches!(&second, NodeAction::Nothing));
    assert_eq!(n.taints.len(), 1);
    assert_eq!(n.taints[0].key, "unrelated");
}

#[test]
fn marker_helpers_preserve_foreign_taints() {
    let n = node(None, None, vec![taint("a"), taint("b")]);
    let marked = taints_with_marker(&n);
    assert_eq!(marked.len(), 3);
    assert_eq!(marked[0].key, "a");
    assert_eq!(marked[1].key, "b");
    assert_eq!(marked[2].key, taint_key());

    let n2 = node(None, None, vec![marker(), taint("a"), marker()]);
    let unmarked = taints_without_marker(&n2);
    assert_eq!(unmarked.len(), 1);
    assert_eq!(unmarked[0].key, "a");
}

#[test]
fn zero_limit_marks_any_node() {
    let n = node(Some("m5.xlarge"), Some("0"), Vec::new());
    let plan = plan_pass(&vec![n], &Vec::new());
    assert_eq!(plan[0].limit, 0);
    assert!(matches!(&plan[0].action, NodeAction::AddMarker(_)));
}
