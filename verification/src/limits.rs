use vstd::prelude::*;
use crate::model::Node;
use crate::strutil::{str_eq, parse_u8, parse_u8_spec, instance_size_suffix, suffix_after_last_dot};

verus! {

/// How many network interfaces an instance of a given size class offers.
/// Suffixes outside the table get no entry and fall back to the default.
pub open spec fn spec_eni_table(s: Seq<char>) -> Option<u8> {
    if s == "nano"@ {
        Some(2u8)
    } else if s == "micro"@ {
        Some(2u8)
    } else if s == "small"@ {
        Some(3u8)
    } else if s == "medium"@ {
        Some(2u8)
    } else if s == "large"@ {
        Some(3u8)
    } else if s == "xlarge"@ {
        Some(4u8)
    } else if s == "2xlarge"@ {
        Some(4u8)
    } else if s == "4xlarge"@ {
        Some(8u8)
    } else if s == "8xlarge"@ {
        Some(8u8)
    } else if s == "9xlarge"@ {
        Some(8u8)
    } else if s == "10xlarge"@ {
        Some(8u8)
    } else if s == "12xlarge"@ {
        Some(8u8)
    } else if s == "16xlarge"@ {
        Some(15u8)
    } else if s == "18xlarge"@ {
        Some(15u8)
    } else if s == "24xlarge"@ {
        Some(15u8)
    } else {
        None
    }
}

/// The worst case for sizes not in the table, metal classes among them.
pub open spec fn spec_default_eni_limit() -> u8 {
    15u8
}

pub open spec fn spec_eni_count(s: Seq<char>) -> u8 {
    match spec_eni_table(s) {
        Some(v) => v,
        None => spec_default_eni_limit(),
    }
}

/// Interface count for one instance-size suffix.
pub fn eni_count_for_size(size: &str) -> (c: u8)
    ensures
        c == spec_eni_count(size@),
{
    if str_eq(size, "nano") {
        2
    } else if str_eq(size, "micro") {
        2
    } else if str_eq(size, "small") {
        3
    } else if str_eq(size, "medium") {
        2
    } else if str_eq(size, "large") {
        3
    } else if str_eq(size, "xlarge") {
        4
    } else if str_eq(size, "2xlarge") {
        4
    } else if str_eq(size, "4xlarge") {
        8
    } else if str_eq(size, "8xlarge") {
        8
    } else if str_eq(size, "9xlarge") {
        8
    } else if str_eq(size, "10xlarge") {
        8
    } else if str_eq(size, "12xlarge") {
        8
    } else if str_eq(size, "16xlarge") {
        15
    } else if str_eq(size, "18xlarge") {
        15
    } else if str_eq(size, "24xlarge") {
        15
    } else {
        15
    }
}

pub open spec fn spec_instance_type_chars(node: Node) -> Seq<char> {
    match node.instance_type {
        Some(s) => s@,
        None => Seq::empty(),
    }
}

/// Limit derived from an instance-size suffix: a platform cap of 28
/// attachments, less one boot volume and one local-storage slot, less the
/// size class's interface count.
pub open spec fn spec_limit_for_suffix(s: Seq<char>) -> u8 {
    (28 - 2 - spec_eni_count(s) as int) as u8
}

pub open spec fn spec_limit_from_instance_type(node: Node) -> u8 {
    spec_limit_for_suffix(suffix_after_last_dot(spec_instance_type_chars(node)))
}

/// Every table entry and the default stay at or below 15, so the computed
/// limit never underflows.
pub proof fn lemma_eni_count_bounded(s: Seq<char>)
    ensures
        spec_eni_count(s) <= 15,
{
}

/// Fallback limit from the node's instance-class label, used when no
/// override annotation applies.
pub fn get_ebs_limit_from_instance_type(node: &Node) -> (r: u8)
    ensures
        r == spec_limit_from_instance_type(*node),
{
    let instance_type: &str = match &node.instance_type {
        Some(s) => s.as_str(),
        None => "",
    };
    proof {
        reveal_strlit("");
        assert(instance_type@ =~= spec_instance_type_chars(*node));
    }
    let size = instance_size_suffix(instance_type);
    let eni_limit = eni_count_for_size(size);
    proof {
        lemma_eni_count_bounded(size@);
    }
    28 - 2 - eni_limit
}

pub open spec fn spec_limit_from_annotation(node: Node) -> Option<u8> {
    match node.limit_override {
        Some(s) => parse_u8_spec(s@),
        None => None,
    }
}

/// The operator's override: the annotation value, if it parses.
pub fn get_ebs_limit_from_annotation(node: &Node) -> (r: Option<u8>)
    ensures
        r == spec_limit_from_annotation(*node),
{
    match &node.limit_override {
        Some(s) => parse_u8(s.as_str()),
        None => None,
    }
}

/// Attachment limit of a node: the parseable override annotation verbatim,
/// else the limit derived from the instance-class label.
pub open spec fn spec_node_limit(node: Node) -> u8 {
    match spec_limit_from_annotation(node) {
        Some(v) => v,
        None => spec_limit_from_instance_type(node),
    }
}

pub fn get_ebs_limit_for_node(node: &Node) -> (r: u8)
    ensures
        r == spec_node_limit(*node),
{
    match get_ebs_limit_from_annotation(node) {
        Some(v) => v,
        None => get_ebs_limit_from_instance_type(node),
    }
}

/// For every suffix in the table the resolved limit is 26 less the table's
/// interface count; for any suffix outside the table it is 26 - 15 = 11.
pub proof fn lemma_limit_for_suffix(s: Seq<char>)
    ensures
        spec_eni_table(s) matches Some(v) ==> spec_limit_for_suffix(s) == 26 - v,
        spec_eni_table(s) is None ==> spec_limit_for_suffix(s) == 11,
{
}

/// A parseable override annotation is authoritative: the resolved limit is
/// the parsed value, whatever the instance-class label says.
pub proof fn lemma_override_is_authoritative(node: Node, v: u8)
    requires
        spec_limit_from_annotation(node) == Some(v),
    ensures
        spec_node_limit(node) == v,
{
}

} // verus!
