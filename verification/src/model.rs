use vstd::prelude::*;

verus! {

/// A scheduling-exclusion marker (taint) on a node: a key, an effect,
/// an optional value and an optional timestamp.
#[derive(Debug, Clone)]
pub struct Taint {
    pub key: String,
    pub effect: String,
    pub value: Option<String>,
    pub time_added: Option<String>,
}

/// A compute node, reduced to the fields the controller reads: its name,
/// its instance-class label, its limit-override annotation, and its taints.
#[derive(Debug, Clone)]
pub struct Node {
    pub name: String,
    pub instance_type: Option<String>,
    pub limit_override: Option<String>,
    pub taints: Vec<Taint>,
}

/// One volume attachment of a workload: either backed by a persistent
/// network-attached volume claim or some other (local/ephemeral) kind.
#[derive(Debug, Clone, Copy, PartialEq, Eq, Structural)]
pub struct Volume {
    pub has_persistent_claim: bool,
}

/// A workload (pod), reduced to the fields the census reads: the node it is
/// bound to, if any, and its volume attachments.
#[derive(Debug, Clone)]
pub struct Pod {
    pub node_name: Option<String>,
    pub volumes: Vec<Volume>,
}

/// Why a pass failed: the resource store rejected a list or patch call, or
/// the partial update could not be encoded for the wire.
#[derive(Debug, Clone, Copy, PartialEq, Eq, Structural)]
pub enum Error {
    KubeFailure,
    SerializationError,
}

/// Key of the taint this controller owns.
pub fn taint_key() -> (s: &'static str)
    ensures
        s@ == spec_taint_key(),
{
    "xometry.com/ebs-limit-reached"
}

pub open spec fn spec_taint_key() -> Seq<char> {
    "xometry.com/ebs-limit-reached"@
}

} // verus!
