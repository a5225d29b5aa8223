//! The proxies that have reported to the admin service of late.

use vstd::prelude::*;

verus! {

/// For how many seconds a proxy counts as alive after it has reported.
pub const NODE_TTL_SECONDS: i64 = 60 * 2;

/// One proxy: its address and port as `ip:port`, and when it stops counting
/// as alive, in seconds since the epoch.
pub struct Node {
    pub key: String,
    pub expire_at: i64,
}

/// The key of a proxy: `ip:port`.
pub open spec fn node_key_of(ip: Seq<char>, port: Seq<char>) -> Seq<char> {
    ip + ":"@ + port
}

/// The time at which a proxy that reports at `now` stops counting as alive;
/// no later than the last second that can be told.
pub open spec fn expiry_of(now: i64) -> i64 {
    if now > i64::MAX - NODE_TTL_SECONDS {
        i64::MAX
    } else {
        (now + NODE_TTL_SECONDS) as i64
    }
}

/// Builds the key of a proxy.
pub fn node_key(ip: &str, port: &str) -> (key: String)
    ensures
        key@ == node_key_of(ip@, port@),
{
    let mut key = ip.to_owned();
    key.append(":");
    key.append(port);
    key
}

/// Whether a list holds a node with the given key.
pub open spec fn has_node(nodes: Seq<Node>, key: Seq<char>) -> bool {
    exists|i: int| 0 <= i < nodes.len() && (#[trigger] nodes[i]).key@ == key
}

/// Whether no two nodes of a list share their key.
pub open spec fn distinct_keys(nodes: Seq<Node>) -> bool {
    forall|i: int, j: int|
        0 <= i < j < nodes.len() ==> (#[trigger] nodes[i]).key@ != (#[trigger] nodes[j]).key@
}

/// The nodes of a list that are still alive at `now`, in their order.
pub open spec fn alive(nodes: Seq<Node>, now: i64) -> Seq<Node>
    decreases nodes.len(),
{
    if nodes.len() == 0 {
        Seq::empty()
    } else if now < nodes.last().expire_at {
        alive(nodes.drop_last(), now).push(nodes.last())
    } else {
        alive(nodes.drop_last(), now)
    }
}

/// The proxies that count as alive, each under its key once.
pub struct NodeRegistry {
    nodes: Vec<Node>,
}

impl View for NodeRegistry {
    type V = Seq<Node>;

    closed spec fn view(&self) -> Seq<Node> {
        self.nodes@
    }
}

impl NodeRegistry {
    /// Whether no key occurs twice.
    pub open spec fn wf(&self) -> bool {
        distinct_keys(self@)
    }

    /// A registry without nodes.
    pub fn new() -> (r: NodeRegistry)
        ensures
            r@.len() == 0,
            r.wf(),
    {
        NodeRegistry { nodes: Vec::new() }
    }

    /// How many nodes are registered.
    pub fn len(&self) -> (n: usize)
        ensures
            n == self@.len(),
    {
        self.nodes.len()
    }

    /// When the node with the given key stops counting as alive, if it is
    /// registered.
    pub fn expire_at(&self, key: &str) -> (r: Option<i64>)
        ensures
            r is Some <==> has_node(self@, key@),
            r matches Some(t) ==> exists|i: int|
                0 <= i < self@.len() && (#[trigger] self@[i]).key@ == key@ && self@[i].expire_at
                    == t,
    {
        let wanted = key.to_owned();
        let mut i: usize = 0;
        while i < self.nodes.len()
            invariant
                i <= self.nodes@.len(),
                wanted@ == key@,
                forall|j: int| 0 <= j < i ==> (#[trigger] self.nodes@[j]).key@ != key@,
            decreases self.nodes@.len() - i,
        {
            if self.nodes[i].key == wanted {
                assert(self@[i as int].key@ == key@);
                return Some(self.nodes[i].expire_at);
            }
            i = i + 1;
        }
        None
    }

    /// Takes in the report of a proxy at `now`: the proxy counts as alive for
    /// the next two minutes. A proxy that is known keeps its place; one that
    /// is new comes last. No other node changes.
    pub fn register(&mut self, key: String, now: i64)
        requires
            old(self).wf(),
        ensures
            final(self).wf(),
            has_node(old(self)@, key@) ==> final(self)@.len() == old(self)@.len(),
            !has_node(old(self)@, key@) ==> final(self)@.len() == old(self)@.len() + 1,
            forall|i: int|
                0 <= i < old(self)@.len() ==> (#[trigger] final(self)@[i]).key@ == old(self)@[i].key@
                    && final(self)@[i].expire_at == if old(self)@[i].key@ == key@ {
                    expiry_of(now)
                } else {
                    old(self)@[i].expire_at
                },
            !has_node(old(self)@, key@) ==> final(self)@.last().key@ == key@,
            !has_node(old(self)@, key@) ==> final(self)@.last().expire_at == expiry_of(now),
    {
        let expire_at = if now > i64::MAX - NODE_TTL_SECONDS {
            i64::MAX
        } else {
            now + NODE_TTL_SECONDS
        };
        let mut i: usize = 0;
        while i < self.nodes.len()
            invariant
                i <= self.nodes@.len(),
                self.nodes@ == old(self)@,
                distinct_keys(old(self)@),
                expire_at == expiry_of(now),
                forall|j: int| 0 <= j < i ==> (#[trigger] self.nodes@[j]).key@ != key@,
            decreases self.nodes@.len() - i,
        {
            if self.nodes[i].key == key {
                let ghost before = self.nodes@;
                self.nodes[i] = Node { key, expire_at };
                proof {
                    assert forall|a: int, b: int| 0 <= a < b < self.nodes@.len() implies (
                    #[trigger] self.nodes@[a]).key@ != (#[trigger] self.nodes@[b]).key@ by {
                        assert(before[a].key@ != before[b].key@);
                    }
                    assert forall|j: int| 0 <= j < before.len() implies (#[trigger] self@[j]).key@
                        == before[j].key@ && self@[j].expire_at == if before[j].key@ == key@ {
                        expiry_of(now)
                    } else {
                        before[j].expire_at
                    } by {
                        if j < i {
                            assert(before[j].key@ != before[i as int].key@);
                        } else if j > i {
                            assert(before[i as int].key@ != before[j].key@);
                        }
                    }
                    assert(has_node(before, key@)) by {
                        assert(before[i as int].key@ == key@);
                    }
                }
                return ;
            }
            i = i + 1;
        }
        self.nodes.push(Node { key, expire_at });
    }

    /// Drops the nodes that are no longer alive at `now`, and keeps the
    /// others in their order.
    pub fn retain_alive(&mut self, now: i64)
        requires
            old(self).wf(),
        ensures
            final(self)@ == alive(old(self)@, now),
            final(self).wf(),
    {
        let mut kept: Vec<Node> = Vec::new();
        let mut nodes: Vec<Node> = Vec::new();
        std::mem::swap(&mut nodes, &mut self.nodes);
        let ghost all = nodes@;
        let mut reversed: Vec<Node> = Vec::new();
        // nodes leave the list from its end, so the survivors are collected
        // in reverse and turned round afterwards
        while nodes.len() > 0
            invariant
                nodes@.len() <= all.len(),
                nodes@ == all.take(nodes@.len() as int),
                alive(all, now) == alive(nodes@, now) + reversed@.reverse(),
            decreases nodes@.len(),
        {
            let ghost before = nodes@;
            let ghost collected = reversed@;
            let node = nodes.pop().unwrap();
            assert(nodes@ =~= before.drop_last());
            assert(nodes@ =~= all.take(nodes@.len() as int));
            if now < node.expire_at {
                reversed.push(node);
                assert(reversed@.reverse() =~= seq![node] + collected.reverse());
                assert(alive(before, now) + collected.reverse() =~= alive(nodes@, now)
                    + reversed@.reverse());
            }
        }
        assert(alive(all, now) =~= reversed@.reverse());
        while reversed.len() > 0
            invariant
                kept@ + reversed@.reverse() == alive(all, now),
            decreases reversed@.len(),
        {
            let ghost before = reversed@;
            let ghost done = kept@;
            let node = reversed.pop().unwrap();
            kept.push(node);
            assert(before.reverse() =~= seq![node] + reversed@.reverse());
            assert(done + before.reverse() =~= kept@ + reversed@.reverse());
        }
        assert(kept@ =~= alive(all, now));
        proof {
            lemma_alive_is_subsequence(all, now);
        }
        self.nodes = kept;
    }
}

/// The nodes that are alive are nodes of the list, in the order of the list;
/// so where no two nodes of the list share their key, no two of them do.
pub proof fn lemma_alive_is_subsequence(nodes: Seq<Node>, now: i64)
    ensures
        alive(nodes, now).len() <= nodes.len(),
        forall|i: int|
            0 <= i < alive(nodes, now).len() ==> has_node(
                nodes,
                (#[trigger] alive(nodes, now)[i]).key@,
            ),
        distinct_keys(nodes) ==> distinct_keys(alive(nodes, now)),
    decreases nodes.len(),
{
    if nodes.len() > 0 {
        let init = nodes.drop_last();
        lemma_alive_is_subsequence(init, now);
        assert forall|i: int| 0 <= i < alive(nodes, now).len() implies has_node(
            nodes,
            (#[trigger] alive(nodes, now)[i]).key@,
        ) by {
            if i < alive(init, now).len() {
                assert(alive(nodes, now)[i] == alive(init, now)[i]);
                assert(has_node(init, alive(init, now)[i].key@));
                let k = choose|k: int|
                    0 <= k < init.len() && (#[trigger] init[k]).key@ == alive(init, now)[i].key@;
                assert(nodes[k] == init[k]);
            } else {
                assert(alive(nodes, now)[i] == nodes[nodes.len() - 1]);
            }
        }
        if distinct_keys(nodes) {
            assert(distinct_keys(init)) by {
                assert forall|i: int, j: int| 0 <= i < j < init.len() implies (#[trigger] init[i]).key@
                    != (#[trigger] init[j]).key@ by {
                    assert(nodes[i].key@ != nodes[j].key@);
                }
            }
            let a = alive(nodes, now);
            assert forall|i: int, j: int| 0 <= i < j < a.len() implies (#[trigger] a[i]).key@ != (
            #[trigger] a[j]).key@ by {
                if j < alive(init, now).len() {
                    assert(a[i] == alive(init, now)[i] && a[j] == alive(init, now)[j]);
                } else {
                    assert(a[i] == alive(init, now)[i]);
                    assert(has_node(init, alive(init, now)[i].key@));
                    let k = choose|k: int|
                        0 <= k < init.len() && (#[trigger] init[k]).key@ == alive(
                            init,
                            now,
                        )[i].key@;
                    assert(nodes[k].key@ != nodes[nodes.len() - 1].key@);
                }
            }
        }
    }
}

} // verus!
