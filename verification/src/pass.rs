use vstd::prelude::*;
use crate::model::{Node, Pod, Error};
use crate::census::{get_node_volume_counts, census_get, spec_census_count};
use crate::limits::{get_ebs_limit_for_node, spec_node_limit};
use crate::reconcile::{reconcile_action, spec_action_matches, NodeAction};

verus! {

/// The plan for one node: the action to apply, with the inputs that led to
/// it, for the log record.
pub struct NodePlan {
    pub name: String,
    pub volume_count: u8,
    pub limit: u8,
    pub action: NodeAction,
}

pub open spec fn spec_plan_matches(nodes: Seq<Node>, pods: Seq<Pod>, plan: Seq<NodePlan>) -> bool {
    &&& plan.len() == nodes.len()
    &&& forall|i: int|
        0 <= i < nodes.len() ==> {
            let p = #[trigger] plan[i];
            &&& p.name@ == nodes[i].name@
            &&& p.volume_count as int == spec_census_count(pods, nodes[i].name@)
            &&& p.limit == spec_node_limit(nodes[i])
            &&& spec_action_matches(nodes[i], p.volume_count, p.action)
        }
}

/// Plan one reconciliation pass: build the census from the pod list, then
/// for every node resolve its limit, read its census count (absence is
/// zero), and decide the action.
#[verifier::loop_isolation(false)]
pub fn plan_pass(nodes: &Vec<Node>, pods: &Vec<Pod>) -> (plan: Vec<NodePlan>)
    ensures
        spec_plan_matches(nodes@, pods@, plan@),
{
    let census = get_node_volume_counts(pods);
    let n = nodes.len();
    let mut plan: Vec<NodePlan> = Vec::new();
    let mut i: usize = 0;
    while i < n
        invariant
            i <= n,
            plan@.len() == i,
            forall|k: int|
                0 <= k < i ==> {
                    let p = #[trigger] plan@[k];
                    &&& p.name@ == nodes@[k].name@
                    &&& p.volume_count as int == spec_census_count(pods@, nodes@[k].name@)
                    &&& p.limit == spec_node_limit(nodes@[k])
                    &&& spec_action_matches(nodes@[k], p.volume_count, p.action)
                },
        decreases n - i,
    {
        let node = &nodes[i];
        let volume_count = census_get(&census, node.name.as_str());
        let limit = get_ebs_limit_for_node(node);
        let action = reconcile_action(node, volume_count);
        plan.push(NodePlan { name: node.name.clone(), volume_count, limit, action });
        i += 1;
    }
    plan
}

/// One pass from the outcome of the two concurrent fetches: if either list
/// could not be fetched, the pass aborts with that error and no node is
/// planned for a patch; otherwise every node gets its plan.
pub fn plan_pass_from_fetches(nodes: Result<Vec<Node>, Error>, pods: Result<Vec<Pod>, Error>) -> (r:
    Result<Vec<NodePlan>, Error>)
    ensures
        (nodes is Err || pods is Err) <==> r is Err,
        nodes matches Err(e) ==> r == Result::<Vec<NodePlan>, Error>::Err(e),
        nodes is Ok ==> (pods matches Err(e) ==> r == Result::<Vec<NodePlan>, Error>::Err(e)),
        nodes matches Ok(ns) ==> (pods matches Ok(ps) ==> (r matches Ok(plan)
            && spec_plan_matches(ns@, ps@, plan@))),
{
    match (nodes, pods) {
        (Ok(ns), Ok(ps)) => Ok(plan_pass(&ns, &ps)),
        (Err(e), _) => Err(e),
        (_, Err(e)) => Err(e),
    }
}

} // verus!
