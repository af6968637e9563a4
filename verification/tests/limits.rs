use ebs_node_tainter::model::Node;
use ebs_node_tainter::limits::{
    get_ebs_limit_for_node, get_ebs_limit_from_annotation, get_ebs_limit_from_instance_type,
};
use ebs_node_tainter::strutil::{instance_size_suffix, parse_u8, str_eq};

fn node_with(instance_type: Option<&str>, limit_override: Option<&str>) -> Node {
    Node {
        name: String::from("node-1"),
        instance_type: instance_type.map(String::from),
        limit_override: limit_override.map(String::from),
        taints: Vec::new(),
    }
}

#[test]
fn limit_for_every_table_suffix() {
    let table = [
        ("nano", 2u8),
        ("micro", 2),
        ("small", 3),
        ("medium", 2),
        ("large", 3),
        ("xlarge", 4),
        ("2xlarge", 4),
        ("4xlarge", 8),
        ("8xlarge", 8),
        ("9xlarge", 8),
        ("10xlarge", 8),
        ("12xlarge", 8),
        ("16xlarge", 15),
        ("18xlarge", 15),
        ("24xlarge", 15),
    ];
    for (suffix, eni) in table {
        let label = format!("m5.{}", suffix);
        let node = node_with(Some(&label), None);
        assert_eq!(get_ebs_limit_for_node(&node), 26 - eni, "suffix {}", suffix);
    }
}

#[test]
fn limit_for_unmapped_suffix_is_eleven() {
    assert_eq!(get_ebs_limit_for_node(&node_with(Some("m5.metal"), None)), 11);
    assert_eq!(get_ebs_limit_for_node(&node_with(Some("weird"), None)), 11);
    assert_eq!(get_ebs_limit_for_node(&node_with(Some(""), None)), 11);
}

#[test]
fn limit_for_absent_label_is_eleven() {
    assert_eq!(get_ebs_limit_for_node(&node_with(None, None)), 11);
}

#[test]
fn limit_uses_suffix_after_last_dot() {
    assert_eq!(get_ebs_limit_for_node(&node_with(Some("a.b.xlarge"), None)), 22);
    assert_eq!(get_ebs_limit_for_node(&node_with(Some("xlarge"), None)), 22);
    assert_eq!(get_ebs_limit_for_node(&node_with(Some("m5.xlarge."), None)), 11);
}

#[test]
fn override_annotation_is_authoritative() {
    let node = node_with(Some("m5.24xlarge"), Some("5"));
    assert_eq!(get_ebs_limit_for_node(&node), 5);
    let node = node_with(None, Some("0"));
    assert_eq!(get_ebs_limit_for_node(&node), 0);
    let node = node_with(Some("m5.xlarge"), Some("+7"));
    assert_eq!(get_ebs_limit_for_node(&node), 7);
}

#[test]
fn unparseable_override_falls_back_to_label() {
    assert_eq!(get_ebs_limit_for_node(&node_with(Some("m5.xlarge"), Some("lots"))), 22);
    assert_eq!(get_ebs_limit_for_node(&node_with(Some("m5.xlarge"), Some("256"))), 22);
    assert_eq!(get_ebs_limit_for_node(&node_with(Some("m5.xlarge"), Some("-1"))), 22);
    assert_eq!(get_ebs_limit_for_node(&node_with(Some("m5.xlarge"), Some(""))), 22);
}

#[test]
fn annotation_parsing_matches_u8_parse() {
    let cases = [
        "", "+", "5", "+7", "007", "255", "256", "-1", " 5", "5 ", "12a", "999999999999", "0",
    ];
    for s in cases {
        let node = node_with(None, Some(s));
        assert_eq!(
            get_ebs_limit_from_annotation(&node),
            s.parse::<u8>().ok(),
            "annotation {:?}",
            s
        );
    }
}

#[test]
fn parse_u8_edges() {
    assert_eq!(parse_u8("0"), Some(0));
    assert_eq!(parse_u8("255"), Some(255));
    assert_eq!(parse_u8("256"), None);
    assert_eq!(parse_u8("+255"), Some(255));
    assert_eq!(parse_u8("00000000000000000255"), Some(255));
    assert_eq!(parse_u8("+"), None);
    assert_eq!(parse_u8("++1"), None);
}

#[test]
fn suffix_extraction() {
    assert_eq!(instance_size_suffix("m5.xlarge"), "xlarge");
    assert_eq!(instance_size_suffix("c5n.18xlarge"), "18xlarge");
    assert_eq!(instance_size_suffix("metal"), "metal");
    assert_eq!(instance_size_suffix(""), "");
    assert_eq!(instance_size_suffix("trailing."), "");
}

#[test]
fn str_eq_behaves_like_eq() {
    assert!(str_eq("abc", "abc"));
    assert!(!str_eq("abc", "abd"));
    assert!(!str_eq("abc", "ab"));
    assert!(str_eq("", ""));
}

#[test]
fn instance_type_limit_ignores_annotation() {
    let node = node_with(Some("m5.4xlarge"), Some("3"));
    assert_eq!(get_ebs_limit_from_instance_type(&node), 18);
}
