use vstd::prelude::*;
use vstd::string::StringExecFns;
use crate::model::{Node, Taint, spec_taint_key, taint_key};
use crate::limits::{spec_node_limit, get_ebs_limit_for_node};
use crate::strutil::str_eq;

verus! {

/// A taint owned by this controller: one whose key is the controller's key.
pub open spec fn spec_is_controller_taint(t: Taint) -> bool {
    t.key@ == spec_taint_key()
}

/// The exact marker this controller adds: its key, a no-schedule effect, the
/// value "true", and no timestamp.
pub open spec fn spec_is_marker(t: Taint) -> bool {
    &&& t.key@ == spec_taint_key()
    &&& t.effect@ == "NoSchedule"@
    &&& t.value matches Some(v) && v@ == "true"@
    &&& t.time_added is None
}

pub open spec fn spec_node_has_taint(node: Node) -> bool {
    exists|j: int| 0 <= j < node.taints@.len() && spec_is_controller_taint(#[trigger] node.taints@[j])
}

/// Whether the node currently carries the controller's taint.
#[verifier::loop_isolation(false)]
pub fn node_has_taint(node: &Node) -> (r: bool)
    ensures
        r == spec_node_has_taint(*node),
{
    let n = node.taints.len();
    let mut i: usize = 0;
    while i < n
        invariant
            i <= n,
            forall|j: int| 0 <= j < i ==> !spec_is_controller_taint(#[trigger] node.taints@[j]),
        decreases n - i,
    {
        if str_eq(node.taints[i].key.as_str(), taint_key()) {
            return true;
        }
        i += 1;
    }
    false
}

fn clone_opt_string(s: &Option<String>) -> (r: Option<String>)
    ensures
        r == *s,
{
    match s {
        Some(x) => Some(x.clone()),
        None => None,
    }
}

fn clone_taint(t: &Taint) -> (r: Taint)
    ensures
        r == *t,
{
    Taint {
        key: t.key.clone(),
        effect: t.effect.clone(),
        value: clone_opt_string(&t.value),
        time_added: clone_opt_string(&t.time_added),
    }
}

/// The node's taint list with the controller's marker appended: every
/// existing taint is preserved unchanged, in place, and the marker comes
/// last.
pub open spec fn spec_is_marked_taints(orig: Seq<Taint>, ts: Seq<Taint>) -> bool {
    &&& ts.len() == orig.len() + 1
    &&& forall|j: int| 0 <= j < orig.len() ==> ts[j] == orig[j]
    &&& spec_is_marker(ts.last())
}

#[verifier::loop_isolation(false)]
pub fn taints_with_marker(node: &Node) -> (r: Vec<Taint>)
    ensures
        spec_is_marked_taints(node.taints@, r@),
{
    let n = node.taints.len();
    let mut r: Vec<Taint> = Vec::new();
    let mut i: usize = 0;
    while i < n
        invariant
            i <= n,
            r@.len() == i,
            forall|j: int| 0 <= j < i ==> r@[j] == node.taints@[j],
        decreases n - i,
    {
        r.push(clone_taint(&node.taints[i]));
        i += 1;
    }
    r.push(Taint {
        key: String::from_str(taint_key()),
        effect: String::from_str("NoSchedule"),
        value: Some(String::from_str("true")),
        time_added: None,
    });
    r
}

/// The node's taint list with every controller taint removed and every other
/// taint kept, in order.
pub open spec fn spec_remove_marker(ts: Seq<Taint>) -> Seq<Taint>
    decreases ts.len(),
{
    if ts.len() == 0 {
        ts
    } else {
        let rest = spec_remove_marker(ts.drop_last());
        if spec_is_controller_taint(ts.last()) {
            rest
        } else {
            rest.push(ts.last())
        }
    }
}

#[verifier::loop_isolation(false)]
pub fn taints_without_marker(node: &Node) -> (r: Vec<Taint>)
    ensures
        r@ == spec_remove_marker(node.taints@),
{
    let n = node.taints.len();
    let mut r: Vec<Taint> = Vec::new();
    let mut i: usize = 0;
    while i < n
        invariant
            i <= n,
            r@ == spec_remove_marker(node.taints@.take(i as int)),
        decreases n - i,
    {
        proof {
            assert(node.taints@.take(i + 1).drop_last() =~= node.taints@.take(i as int));
            assert(node.taints@.take(i + 1).last() == node.taints@[i as int]);
        }
        if !str_eq(node.taints[i].key.as_str(), taint_key()) {
            r.push(clone_taint(&node.taints[i]));
        }
        i += 1;
    }
    proof {
        assert(node.taints@.take(n as int) =~= node.taints@);
    }
    r
}

/// The reconciler removes only taints that carry the controller's key, and
/// keeps every foreign taint.
pub proof fn lemma_remove_marker_preserves_foreign(ts: Seq<Taint>)
    ensures
        forall|j: int|
            0 <= j < ts.len() && !spec_is_controller_taint(ts[j]) ==> spec_remove_marker(
                ts,
            ).contains(ts[j]),
        forall|j: int|
            0 <= j < spec_remove_marker(ts).len() ==> ts.contains(
                #[trigger] spec_remove_marker(ts)[j],
            ) && !spec_is_controller_taint(spec_remove_marker(ts)[j]),
    decreases ts.len(),
{
    if ts.len() > 0 {
        let prefix = ts.drop_last();
        lemma_remove_marker_preserves_foreign(prefix);
        let r = spec_remove_marker(ts);
        let rp = spec_remove_marker(prefix);
        assert forall|j: int|
            0 <= j < ts.len() && !spec_is_controller_taint(ts[j]) implies r.contains(ts[j]) by {
            if j < ts.len() - 1 {
                assert(prefix[j] == ts[j]);
                assert(rp.contains(ts[j]));
                let w = choose|w: int| 0 <= w < rp.len() && rp[w] == ts[j];
                assert(r[w] == ts[j]);
            } else {
                assert(ts[j] == ts.last());
                assert(r.last() == ts.last());
            }
        }
        assert forall|j: int| 0 <= j < r.len() implies ts.contains(#[trigger] r[j])
            && !spec_is_controller_taint(r[j]) by {
            if j < rp.len() {
                assert(r[j] == rp[j]);
                let w = choose|w: int| 0 <= w < prefix.len() && prefix[w] == rp[j];
                assert(ts[w] == rp[j]);
            } else {
                assert(r[j] == ts.last());
                assert(ts[ts.len() - 1] == ts.last());
            }
        }
    }
}

/// The two target states of the taint decision.
#[derive(PartialEq, Eq, Structural, Debug, Clone, Copy)]
pub enum MarkerState {
    Marked,
    Unmarked,
}

/// Target marker state: marked exactly when the census count has reached
/// the attachment limit.
pub open spec fn spec_target_state(volume_count: u8, limit: u8) -> MarkerState {
    if volume_count >= limit {
        MarkerState::Marked
    } else {
        MarkerState::Unmarked
    }
}

pub fn taint_decision(volume_count: u8, limit: u8) -> (s: MarkerState)
    ensures
        s == spec_target_state(volume_count, limit),
{
    if volume_count >= limit {
        MarkerState::Marked
    } else {
        MarkerState::Unmarked
    }
}

/// What the reconciler will do to one node: patch a new taint list in, or
/// leave the node alone (logging that a marked node remains marked).
pub enum NodeAction {
    AddMarker(Vec<Taint>),
    RemoveMarker(Vec<Taint>),
    RemainMarked,
    Nothing,
}

/// The action the reconciler takes for a node with the given census count:
/// add the marker when the limit is reached and the node is unmarked, remove
/// only the controller's taints when pressure subsided, and otherwise touch
/// nothing.
pub open spec fn spec_action_matches(node: Node, volume_count: u8, a: NodeAction) -> bool {
    let should = spec_target_state(volume_count, spec_node_limit(node)) == MarkerState::Marked;
    let tainted = spec_node_has_taint(node);
    if should && !tainted {
        a matches NodeAction::AddMarker(ts) && spec_is_marked_taints(node.taints@, ts@)
    } else if should && tainted {
        a == NodeAction::RemainMarked
    } else if !should && tainted {
        a matches NodeAction::RemoveMarker(ts) && ts@ == spec_remove_marker(node.taints@)
    } else {
        a == NodeAction::Nothing
    }
}

pub fn reconcile_action(node: &Node, volume_count: u8) -> (a: NodeAction)
    ensures
        spec_action_matches(*node, volume_count, a),
{
    let limit = get_ebs_limit_for_node(node);
    let is_tainted = node_has_taint(node);
    let target = taint_decision(volume_count, limit);
    match target {
        MarkerState::Marked => {
            if !is_tainted {
                NodeAction::AddMarker(taints_with_marker(node))
            } else {
                NodeAction::RemainMarked
            }
        },
        MarkerState::Unmarked => {
            if is_tainted {
                NodeAction::RemoveMarker(taints_without_marker(node))
            } else {
                NodeAction::Nothing
            }
        },
    }
}

/// The node as the cluster store sees it after an action: a patched taint
/// list for the two mutating actions, the node unchanged for the others.
pub open spec fn spec_apply_action(node: Node, a: NodeAction) -> Node {
    match a {
        NodeAction::AddMarker(ts) => Node {
            name: node.name,
            instance_type: node.instance_type,
            limit_override: node.limit_override,
            taints: ts,
        },
        NodeAction::RemoveMarker(ts) => Node {
            name: node.name,
            instance_type: node.instance_type,
            limit_override: node.limit_override,
            taints: ts,
        },
        NodeAction::RemainMarked => node,
        NodeAction::Nothing => node,
    }
}

/// The attachment limit reads only the node's metadata, never its taints.
pub proof fn lemma_limit_ignores_taints(n1: Node, n2: Node)
    requires
        n1.instance_type == n2.instance_type,
        n1.limit_override == n2.limit_override,
    ensures
        spec_node_limit(n1) == spec_node_limit(n2),
{
}

/// The taint decision is idempotent: once an action's taint list is applied
/// to the node, the same census count and limit plan no second mutation.
pub proof fn lemma_reconcile_idempotent(node: Node, volume_count: u8, a: NodeAction, a2: NodeAction)
    requires
        spec_action_matches(node, volume_count, a),
        spec_action_matches(spec_apply_action(node, a), volume_count, a2),
    ensures
        a2 == NodeAction::RemainMarked || a2 == NodeAction::Nothing,
        spec_target_state(volume_count, spec_node_limit(spec_apply_action(node, a)))
            == spec_target_state(volume_count, spec_node_limit(node)),
{
    let node2 = spec_apply_action(node, a);
    lemma_limit_ignores_taints(node, node2);
    let should = spec_target_state(volume_count, spec_node_limit(node)) == MarkerState::Marked;
    let tainted = spec_node_has_taint(node);
    if should && !tainted {
        match a {
            NodeAction::AddMarker(ts) => {
                assert(spec_is_marker(ts@.last()));
                assert(node2.taints@[ts@.len() - 1] == ts@.last());
                assert(spec_node_has_taint(node2));
            },
            _ => {
                assert(false);
            },
        }
    } else if !should && tainted {
        match a {
            NodeAction::RemoveMarker(ts) => {
                assert(ts@ == spec_remove_marker(node.taints@));
                lemma_remove_marker_preserves_foreign(node.taints@);
                assert(!spec_node_has_taint(node2)) by {
                    if spec_node_has_taint(node2) {
                        let j = choose|j: int|
                            0 <= j < node2.taints@.len() && spec_is_controller_taint(
                                #[trigger] node2.taints@[j],
                            );
                        assert(!spec_is_controller_taint(spec_remove_marker(node.taints@)[j]));
                    }
                }
            },
            _ => {
                assert(false);
            },
        }
    }
}

} // verus!
