use ebs_node_tainter::model::{Pod, Volume};
use ebs_node_tainter::census::{census_get, ebs_volume_count, get_node_volume_counts};

fn pod(node: Option<&str>, ebs: usize, other: usize) -> Pod {
    let mut volumes = Vec::new();
    for _ in 0..ebs {
        volumes.push(Volume { has_persistent_claim: true });
    }
    for _ in 0..other {
        volumes.push(Volume { has_persistent_claim: false });
    }
    Pod { node_name: node.map(String::from), volumes }
}

fn lookup(census: &Vec<(String, u8)>, name: &str) -> u8 {
    census_get(census, name)
}

#[test]
fn census_counts_only_network_backed_volumes() {
    let pods = vec![pod(Some("a"), 2, 5)];
    let census = get_node_volume_counts(&pods);
    assert_eq!(lookup(&census, "a"), 2);
}

#[test]
fn census_excludes_unassigned_pods() {
    let pods = vec![pod(None, 4, 0), pod(Some("a"), 1, 0)];
    let census = get_node_volume_counts(&pods);
    assert_eq!(lookup(&census, "a"), 1);
    assert_eq!(census.len(), 1);
}

#[test]
fn census_zero_count_is_absent() {
    let pods = vec![pod(Some("a"), 0, 3), pod(Some("b"), 2, 0)];
    let census = get_node_volume_counts(&pods);
    assert_eq!(census.len(), 1);
    assert_eq!(census[0].0, "b");
    assert_eq!(lookup(&census, "a"), 0);
    assert_eq!(lookup(&census, "missing"), 0);
}

#[test]
fn census_accumulates_across_pods() {
    let pods = vec![
        pod(Some("a"), 3, 1),
        pod(Some("b"), 2, 0),
        pod(Some("a"), 4, 0),
        pod(None, 9, 0),
    ];
    let census = get_node_volume_counts(&pods);
    assert_eq!(lookup(&census, "a"), 7);
    assert_eq!(lookup(&census, "b"), 2);
    assert_eq!(census.len(), 2);
}

#[test]
fn pod_volume_count_clamps_at_255() {
    let p = pod(Some("a"), 300, 0);
    assert_eq!(ebs_volume_count(&p), 255);
}

#[test]
fn census_accumulation_saturates_at_255() {
    let pods = vec![pod(Some("a"), 200, 0), pod(Some("a"), 200, 0)];
    let census = get_node_volume_counts(&pods);
    assert_eq!(lookup(&census, "a"), 255);
}

#[test]
fn empty_pod_list_gives_empty_census() {
    let census = get_node_volume_counts(&Vec::new());
    assert!(census.is_empty());
}
