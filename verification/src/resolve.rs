//! Hash-based cross-node reference resolution: a depth-first, document-order
//! search of a subtree for the first node carrying a given hash. The search
//! starts at the root's children; the root itself is excluded. Absence of a
//! match is a normal outcome, not an error.

use vstd::prelude::*;

use crate::node::{node_view, node_views, Node, NodeV};

verus! {

/// Depth-first, document-order search of the subtrees rooted at `ns` for the
/// first node whose hash is `h`: each node is visited before its descendants,
/// siblings in order.
pub open spec fn resolve_list(ns: Seq<NodeV>, h: u64) -> Option<NodeV>
    decreases ns,
{
    if ns.len() == 0 {
        None
    } else if ns[0].hash == h {
        Some(ns[0])
    } else {
        match resolve_list(ns[0].children, h) {
            Some(m) => Some(m),
            None => resolve_list(ns.subrange(1, ns.len() as int), h),
        }
    }
}

/// The first node of `n`'s subtree (excluding `n` itself) whose hash is `h`.
pub open spec fn spec_resolve(n: NodeV, h: u64) -> Option<NodeV> {
    resolve_list(n.children, h)
}

/// A found node carries the hash that was looked up.
pub proof fn lemma_resolve_list_hash(ns: Seq<NodeV>, h: u64)
    ensures
        resolve_list(ns, h) matches Some(m) ==> m.hash == h,
    decreases ns,
{
    if ns.len() > 0 {
        lemma_resolve_list_hash(ns[0].children, h);
        lemma_resolve_list_hash(ns.subrange(1, ns.len() as int), h);
    }
}

/// Searches the subtrees rooted at the nodes of `ns`, in document order.
fn resolve_in_list<'a>(ns: &'a Vec<Node>, h: u64) -> (r: Option<&'a Node>)
    ensures
        match r {
            Some(m) => resolve_list(node_views(ns@), h) == Some(m@),
            None => resolve_list(node_views(ns@), h) is None,
        },
    decreases ns@,
{
    let n = ns.len();
    let mut i: usize = 0;
    proof {
        crate::node::lemma_node_views(ns@);
        assert(node_views(ns@).subrange(0, n as int) =~= node_views(ns@));
    }
    while i < n
        invariant
            i <= n,
            n == ns@.len(),
            node_views(ns@).len() == n,
            forall|j: int| 0 <= j < n ==> node_views(ns@)[j] == node_view(#[trigger] ns@[j]),
            resolve_list(node_views(ns@), h) == resolve_list(
                node_views(ns@).subrange(i as int, n as int),
                h,
            ),
        decreases n - i,
    {
        let ghost tail: Seq<NodeV> = node_views(ns@).subrange(i as int, n as int);
        proof {
            assert(tail[0] == node_views(ns@)[i as int]);
        }
        if ns[i].hash == h {
            return Some(&ns[i]);
        }
        match resolve_in_list(&ns[i].children, h) {
            Some(m) => {
                return Some(m);
            },
            None => {
                proof {
                    assert(tail.subrange(1, tail.len() as int) =~= node_views(ns@).subrange(
                        i + 1,
                        n as int,
                    ));
                }
            },
        }
        i = i + 1;
    }
    proof {
        assert(node_views(ns@).subrange(n as int, n as int) =~= Seq::<NodeV>::empty());
    }
    None
}

impl Node {
    /// The first node of this node's subtree (itself excluded) whose hash is
    /// `hash`, found by a depth-first, document-order walk of the children.
    pub fn child_by_hash<'a>(&'a self, hash: u64) -> (r: Option<&'a Node>)
        ensures
            match r {
                Some(m) => spec_resolve(self@, hash) == Some(m@) && m@.hash == hash,
                None => spec_resolve(self@, hash) is None,
            },
    {
        proof {
            lemma_resolve_list_hash(self@.children, hash);
        }
        resolve_in_list(&self.children, hash)
    }
}

} // verus!
