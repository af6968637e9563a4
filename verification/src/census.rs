use vstd::prelude::*;
use crate::model::{Pod, Volume};
use crate::strutil::str_eq;

verus! {

/// A volume counts toward the census exactly when it is backed by a
/// persistent network-attached volume claim.
pub open spec fn spec_volume_is_ebs(v: Volume) -> bool {
    v.has_persistent_claim
}

pub fn volume_is_ebs(volume: &Volume) -> (r: bool)
    ensures
        r == spec_volume_is_ebs(*volume),
{
    volume.has_persistent_claim
}

/// Number of network-backed volumes in a list of attachments.
pub open spec fn spec_ebs_count(vs: Seq<Volume>) -> int
    decreases vs.len(),
{
    if vs.len() == 0 {
        0
    } else {
        spec_ebs_count(vs.drop_last()) + if spec_volume_is_ebs(vs.last()) {
            1int
        } else {
            0int
        }
    }
}

pub proof fn lemma_ebs_count_bounds(vs: Seq<Volume>)
    ensures
        0 <= spec_ebs_count(vs) <= vs.len(),
    decreases vs.len(),
{
    if vs.len() > 0 {
        lemma_ebs_count_bounds(vs.drop_last());
    }
}

/// A pod's contribution to the census: its network-backed volume count,
/// clamped to the representable ceiling of 255.
pub open spec fn spec_pod_volume_count(pod: Pod) -> u8 {
    if spec_ebs_count(pod.volumes@) > 255 {
        255u8
    } else {
        spec_ebs_count(pod.volumes@) as u8
    }
}

pub fn ebs_volume_count(pod: &Pod) -> (r: u8)
    ensures
        r == spec_pod_volume_count(*pod),
{
    let n = pod.volumes.len();
    let mut c: u8 = 0;
    let mut i: usize = 0;
    while i < n
        invariant
            n == pod.volumes@.len(),
            i <= n,
            c as int == if spec_ebs_count(pod.volumes@.take(i as int)) > 255 {
                255int
            } else {
                spec_ebs_count(pod.volumes@.take(i as int))
            },
        decreases n - i,
    {
        proof {
            assert(pod.volumes@.take(i + 1).drop_last() =~= pod.volumes@.take(i as int));
            assert(pod.volumes@.take(i + 1).last() == pod.volumes@[i as int]);
            lemma_ebs_count_bounds(pod.volumes@.take(i as int));
        }
        if volume_is_ebs(&pod.volumes[i]) {
            if c < 255 {
                c = c + 1;
            }
        }
        i += 1;
    }
    proof {
        assert(pod.volumes@.take(n as int) =~= pod.volumes@);
    }
    c
}

pub open spec fn spec_pod_node_name(pod: Pod) -> Option<Seq<char>> {
    match pod.node_name {
        Some(s) => Some(s@),
        None => None,
    }
}

/// The node a pod is bound to, if any.
pub fn pod_node_name(pod: &Pod) -> (r: Option<&String>)
    ensures
        match r {
            Some(s) => spec_pod_node_name(*pod) == Some(s@),
            None => spec_pod_node_name(*pod) is None,
        },
{
    match &pod.node_name {
        Some(s) => Some(s),
        None => None,
    }
}

/// Addition that clamps at the census ceiling of 255.
pub open spec fn sat_add_255(a: int, b: int) -> int {
    if a + b > 255 {
        255
    } else {
        a + b
    }
}

/// Census count one node name receives from a list of pods: the clamped
/// contributions of the pods bound to that name, accumulated with
/// saturation. Pods bound to no node contribute to no name.
pub open spec fn spec_census_count(pods: Seq<Pod>, name: Seq<char>) -> int
    decreases pods.len(),
{
    if pods.len() == 0 {
        0
    } else {
        let rest = spec_census_count(pods.drop_last(), name);
        if spec_pod_node_name(pods.last()) == Some(name) {
            sat_add_255(rest, spec_pod_volume_count(pods.last()) as int)
        } else {
            rest
        }
    }
}

pub proof fn lemma_census_count_bounds(pods: Seq<Pod>, name: Seq<char>)
    ensures
        0 <= spec_census_count(pods, name) <= 255,
    decreases pods.len(),
{
    if pods.len() > 0 {
        lemma_census_count_bounds(pods.drop_last(), name);
    }
}

/// A pod bound to no node changes no census count.
pub proof fn lemma_census_ignores_unassigned(pods: Seq<Pod>, pod: Pod, name: Seq<char>)
    requires
        pod.node_name is None,
    ensures
        spec_census_count(pods.push(pod), name) == spec_census_count(pods, name),
{
    assert(pods.push(pod).drop_last() =~= pods);
}

/// A volume that is not network-backed changes no pod's contribution.
pub proof fn lemma_census_ignores_non_network(vs: Seq<Volume>, v: Volume)
    requires
        !spec_volume_is_ebs(v),
    ensures
        spec_ebs_count(vs.push(v)) == spec_ebs_count(vs),
{
    assert(vs.push(v).drop_last() =~= vs);
}

/// No two census entries carry the same node name.
pub open spec fn census_keys_unique(census: Seq<(String, u8)>) -> bool {
    forall|i: int, k: int|
        0 <= i < k < census.len() ==> (#[trigger] census[i].0@) != (#[trigger] census[k].0@)
}

pub open spec fn census_has(census: Seq<(String, u8)>, name: Seq<char>) -> bool {
    exists|j: int| 0 <= j < census.len() && (#[trigger] census[j].0@) == name
}

/// The count recorded for a name, zero when the name is absent.
pub open spec fn census_lookup(census: Seq<(String, u8)>, name: Seq<char>) -> int
    decreases census.len(),
{
    if census.len() == 0 {
        0
    } else if census.last().0@ == name {
        census.last().1 as int
    } else {
        census_lookup(census.drop_last(), name)
    }
}

pub proof fn lemma_lookup_absent(census: Seq<(String, u8)>, name: Seq<char>)
    requires
        !census_has(census, name),
    ensures
        census_lookup(census, name) == 0,
    decreases census.len(),
{
    if census.len() > 0 {
        assert(census.last().0@ != name);
        assert(forall|j: int|
            0 <= j < census.drop_last().len() ==> (#[trigger] census.drop_last()[j].0@)
                == census[j].0@);
        lemma_lookup_absent(census.drop_last(), name);
    }
}

pub proof fn lemma_lookup_update(census: Seq<(String, u8)>, j: int, p: (String, u8), name: Seq<char>)
    requires
        census_keys_unique(census),
        0 <= j < census.len(),
        p.0@ == census[j].0@,
    ensures
        census_lookup(census.update(j, p), name) == if name == census[j].0@ {
            p.1 as int
        } else {
            census_lookup(census, name)
        },
    decreases census.len(),
{
    let cu = census.update(j, p);
    let len = census.len() as int;
    if j == len - 1 {
        assert(cu.last() == p);
        if name != p.0@ {
            assert(cu.drop_last() =~= census.drop_last());
        }
    } else {
        assert(cu.last() == census.last());
        assert(cu.drop_last() =~= census.drop_last().update(j, p));
        assert(census_keys_unique(census.drop_last())) by {
            assert(forall|a: int|
                0 <= a < census.drop_last().len() ==> (#[trigger] census.drop_last()[a].0@)
                    == census[a].0@);
        }
        assert(census.drop_last()[j] == census[j]);
        lemma_lookup_update(census.drop_last(), j, p, name);
        if census.last().0@ == name {
            assert(census[j].0@ != census[len - 1].0@);
        }
    }
}

/// Record one pod's contribution for a node name: saturating-add it to the
/// name's entry, or open a new entry when the name is absent.
#[verifier::loop_isolation(false)]
pub fn census_add(census: &mut Vec<(String, u8)>, name: &String, count: u8)
    requires
        count > 0,
        census_keys_unique(old(census)@),
        forall|j: int| 0 <= j < old(census)@.len() ==> (#[trigger] old(census)@[j].1) > 0,
    ensures
        census_keys_unique(final(census)@),
        forall|j: int| 0 <= j < final(census)@.len() ==> (#[trigger] final(census)@[j].1) > 0,
        census_lookup(final(census)@, name@) == sat_add_255(
            census_lookup(old(census)@, name@),
            count as int,
        ),
        forall|n: Seq<char>|
            n != name@ ==> #[trigger] census_lookup(final(census)@, n) == census_lookup(
                old(census)@,
                n,
            ),
        forall|n: Seq<char>|
            #[trigger] census_has(final(census)@, n) <==> (census_has(old(census)@, n) || n
                == name@),
{
    let ghost orig = census@;
    let len = census.len();
    let mut j: usize = 0;
    while j < len
        invariant
            j <= len,
            census@ == orig,
            forall|i: int| 0 <= i < j ==> (#[trigger] census@[i].0@) != name@,
        decreases len - j,
    {
        if str_eq(census[j].0.as_str(), name.as_str()) {
            let prev = census[j].1;
            let new_count: u8 = if prev > 255 - count {
                255
            } else {
                prev + count
            };
            census.set(j, (name.clone(), new_count));
            proof {
                assert(census@ == orig.update(j as int, (*name, new_count)));
                assert(census_keys_unique(census@)) by {
                    assert(forall|i: int|
                        0 <= i < census@.len() ==> (#[trigger] census@[i].0@) == orig[i].0@);
                }
                assert forall|n: Seq<char>| #[trigger] census_lookup(census@, n) == (if n
                    == name@ {
                    new_count as int
                } else {
                    census_lookup(orig, n)
                }) by {
                    lemma_lookup_update(orig, j as int, (*name, new_count), n);
                }
                assert(census_lookup(orig, name@) == orig[j as int].1 as int) by {
                    lemma_lookup_update(orig, j as int, orig[j as int], name@);
                    assert(orig.update(j as int, orig[j as int]) =~= orig);
                }
                assert(new_count as int == sat_add_255(orig[j as int].1 as int, count as int));
                assert forall|n: Seq<char>| #[trigger] census_has(census@, n) <==> (census_has(
                    orig,
                    n,
                ) || n == name@) by {
                    assert(forall|i: int|
                        0 <= i < census@.len() ==> (#[trigger] census@[i].0@) == orig[i].0@);
                    if census_has(orig, n) {
                        let w = choose|w: int| 0 <= w < orig.len() && (#[trigger] orig[w].0@) == n;
                        assert(census@[w].0@ == n);
                    }
                    if n == name@ {
                        assert(census@[j as int].0@ == n);
                    }
                    if census_has(census@, n) {
                        let w = choose|w: int|
                            0 <= w < census@.len() && (#[trigger] census@[w].0@) == n;
                        assert(orig[w].0@ == n);
                    }
                }
            }
            return ;
        }
        j += 1;
    }
    census.push((name.clone(), count));
    proof {
        assert(census@ == orig.push((*name, count)));
        assert(!census_has(orig, name@));
        lemma_lookup_absent(orig, name@);
        assert(census@.last() == (*name, count));
        assert(census@.drop_last() =~= orig);
        assert forall|n: Seq<char>| #[trigger] census_lookup(census@, n) == (if n == name@ {
            count as int
        } else {
            census_lookup(orig, n)
        }) by {
            if n != name@ {
                assert(census@.last().0@ != n);
            }
        }
        assert(census_keys_unique(census@)) by {
            assert(forall|i: int| 0 <= i < orig.len() ==> (#[trigger] census@[i].0@) == orig[i].0@);
            assert(census@[orig.len() as int].0@ == name@);
        }
        assert forall|n: Seq<char>| #[trigger] census_has(census@, n) <==> (census_has(orig, n)
            || n == name@) by {
            if census_has(orig, n) {
                let w = choose|w: int| 0 <= w < orig.len() && (#[trigger] orig[w].0@) == n;
                assert(census@[w].0@ == n);
            }
            if n == name@ {
                assert(census@[orig.len() as int].0@ == n);
            }
            if census_has(census@, n) {
                let w = choose|w: int| 0 <= w < census@.len() && (#[trigger] census@[w].0@) == n;
                if w < orig.len() {
                    assert(orig[w].0@ == n);
                } else {
                    assert(n == name@);
                }
            }
        }
    }
}

/// Build the volume census: every node name that receives a positive count
/// from the pod list appears with that count; all other names are absent.
#[verifier::loop_isolation(false)]
pub fn get_node_volume_counts(pods: &Vec<Pod>) -> (census: Vec<(String, u8)>)
    ensures
        census_keys_unique(census@),
        forall|name: Seq<char>| #[trigger] census_lookup(census@, name) == spec_census_count(
            pods@,
            name,
        ),
        forall|name: Seq<char>| #[trigger] census_has(census@, name) <==> spec_census_count(
            pods@,
            name,
        ) > 0,
{
    let mut census: Vec<(String, u8)> = Vec::new();
    let n = pods.len();
    let mut i: usize = 0;
    while i < n
        invariant
            i <= n,
            census_keys_unique(census@),
            forall|j: int| 0 <= j < census@.len() ==> (#[trigger] census@[j].1) > 0,
            forall|name: Seq<char>| #[trigger] census_lookup(census@, name) == spec_census_count(
                pods@.take(i as int),
                name,
            ),
            forall|name: Seq<char>| #[trigger] census_has(census@, name) <==> spec_census_count(
                pods@.take(i as int),
                name,
            ) > 0,
        decreases n - i,
    {
        let ghost pre = census@;
        let ghost taken = pods@.take(i as int);
        let ghost taken1 = pods@.take(i + 1);
        proof {
            assert(taken1.drop_last() =~= taken);
            assert(taken1.last() == pods@[i as int]);
        }
        let pod = &pods[i];
        let count = ebs_volume_count(pod);
        match pod_node_name(pod) {
            None => {
                proof {
                    assert(forall|name: Seq<char>| #[trigger] spec_census_count(taken1, name)
                        == spec_census_count(taken, name));
                }
            },
            Some(node_name) => {
                if count > 0 {
                    census_add(&mut census, node_name, count);
                    proof {
                        assert forall|name: Seq<char>| #[trigger] census_lookup(census@, name)
                            == spec_census_count(taken1, name) by {
                            lemma_census_count_bounds(taken, name);
                            if name == node_name@ {
                                assert(spec_census_count(taken1, name) == sat_add_255(
                                    spec_census_count(taken, name),
                                    count as int,
                                ));
                            } else {
                                assert(spec_census_count(taken1, name) == spec_census_count(
                                    taken,
                                    name,
                                ));
                            }
                        }
                        assert forall|name: Seq<char>| #[trigger] census_has(census@, name)
                            <==> spec_census_count(taken1, name) > 0 by {
                            lemma_census_count_bounds(taken, name);
                            if name == node_name@ {
                                assert(spec_census_count(taken1, name) == sat_add_255(
                                    spec_census_count(taken, name),
                                    count as int,
                                ));
                            }
                        }
                    }
                } else {
                    proof {
                        assert forall|name: Seq<char>| #[trigger] spec_census_count(taken1, name)
                            == spec_census_count(taken, name) by {
                            lemma_census_count_bounds(taken, name);
                        }
                    }
                }
            },
        }
        i += 1;
    }
    proof {
        assert(pods@.take(n as int) =~= pods@);
    }
    census
}

/// Read a node's census count, treating absence as zero.
#[verifier::loop_isolation(false)]
pub fn census_get(census: &Vec<(String, u8)>, name: &str) -> (r: u8)
    ensures
        r as int == census_lookup(census@, name@),
{
    let len = census.len();
    proof {
        assert(census@.take(len as int) =~= census@);
    }
    let mut j: usize = len;
    while j > 0
        invariant
            j <= len,
            census_lookup(census@, name@) == census_lookup(census@.take(j as int), name@),
        decreases j,
    {
        let ghost head = census@.take(j as int);
        proof {
            assert(head.last() == census@[j - 1]);
            assert(head.drop_last() =~= census@.take(j - 1));
        }
        if str_eq(census[j - 1].0.as_str(), name) {
            return census[j - 1].1;
        }
        j -= 1;
    }
    proof {
        assert(census@.take(0) =~= Seq::<(String, u8)>::empty());
    }
    0
}

} // verus!
