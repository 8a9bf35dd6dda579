//! The decoded tree: named properties, typed nodes owning their children, and
//! the file as an ordered sequence of root nodes. Cross references between
//! nodes use per-node 64-bit hashes only; a child keeps its parent's hash as
//! plain data, never a structural back pointer.

use vstd::prelude::*;

use crate::bytes::bytes_eq;
use crate::format::{ValueTag, TAG_MODEL};
use crate::value::{PropertyValue, ValueV};

verus! {

/// Mathematical model of one named property.
pub ghost struct PropertyV {
    pub name: Seq<u8>,
    pub tag: ValueTag,
    pub values: Seq<ValueV>,
}

/// Mathematical model of one node.
pub ghost struct NodeV {
    pub tag: u32,
    pub size: u32,
    pub hash: u64,
    pub parent: Option<u64>,
    pub props: Seq<PropertyV>,
    pub children: Seq<NodeV>,
}

/// Mathematical model of a decoded file.
pub ghost struct CastFileV {
    pub version: u32,
    pub flags: u32,
    pub roots: Seq<NodeV>,
}

/// One named property: a name, a single value type tag, and an ordered,
/// homogeneously typed run of values (order is positional data).
#[derive(Debug, PartialEq)]
pub struct Property {
    pub name: Vec<u8>,
    pub tag: ValueTag,
    pub values: Vec<PropertyValue>,
}

impl View for Property {
    type V = PropertyV;

    open spec fn view(&self) -> PropertyV {
        PropertyV { name: self.name@, tag: self.tag, values: self.values@.map_values(|v: PropertyValue| v@) }
    }
}

/// One decoded node: a four-character type tag read as a little-endian word,
/// the advisory encoded size, the node's hash, the parent node's hash (absent
/// on roots), the properties with duplicate names already dropped (first
/// occurrence wins), and the owned children in document order.
#[derive(Debug, PartialEq)]
pub struct Node {
    pub tag: u32,
    pub size: u32,
    pub hash: u64,
    pub parent: Option<u64>,
    pub props: Vec<Property>,
    pub children: Vec<Node>,
}

/// The model of a node.
pub open spec fn node_view(n: Node) -> NodeV
    decreases n, 0nat,
{
    NodeV {
        tag: n.tag,
        size: n.size,
        hash: n.hash,
        parent: n.parent,
        props: n.props@.map_values(|p: Property| p@),
        children: node_views(n.children@),
    }
}

/// The models of a list of nodes.
pub open spec fn node_views(ns: Seq<Node>) -> Seq<NodeV>
    decreases ns, 1nat,
{
    if ns.len() == 0 {
        Seq::empty()
    } else {
        seq![node_view(ns[0])] + node_views(ns.subrange(1, ns.len() as int))
    }
}

impl View for Node {
    type V = NodeV;

    open spec fn view(&self) -> NodeV {
        node_view(*self)
    }
}

/// `node_views` is the pointwise model of the list.
pub proof fn lemma_node_views(ns: Seq<Node>)
    ensures
        node_views(ns).len() == ns.len(),
        forall|i: int| 0 <= i < ns.len() ==> node_views(ns)[i] == node_view(#[trigger] ns[i]),
    decreases ns,
{
    if ns.len() > 0 {
        lemma_node_views(ns.subrange(1, ns.len() as int));
        assert forall|i: int| 0 <= i < ns.len() implies node_views(ns)[i] == node_view(
            #[trigger] ns[i],
        ) by {
            if i > 0 {
                assert(ns.subrange(1, ns.len() as int)[i - 1] == ns[i]);
                assert(node_views(ns)[i] == node_views(ns.subrange(1, ns.len() as int))[i - 1]);
            }
        }
    }
}

/// A decoded file: root nodes in document order.
#[derive(Debug, PartialEq)]
pub struct CastFile {
    pub version: u32,
    pub flags: u32,
    pub roots: Vec<Node>,
}

impl View for CastFile {
    type V = CastFileV;

    open spec fn view(&self) -> CastFileV {
        CastFileV { version: self.version, flags: self.flags, roots: node_views(self.roots@) }
    }
}

/// The models of a list of properties.
pub open spec fn prop_views(ps: Seq<Property>) -> Seq<PropertyV> {
    ps.map_values(|p: Property| p@)
}

/// Whether some property in the list carries this name.
pub open spec fn has_prop(ps: Seq<PropertyV>, name: Seq<u8>) -> bool {
    exists|i: int| 0 <= i < ps.len() && ps[i].name == name
}

/// The first property carrying this name, if any.
pub open spec fn first_prop(ps: Seq<PropertyV>, name: Seq<u8>) -> Option<PropertyV>
    decreases ps.len(),
{
    if ps.len() == 0 {
        None
    } else if ps[0].name == name {
        Some(ps[0])
    } else {
        first_prop(ps.subrange(1, ps.len() as int), name)
    }
}

/// Appends a decoded property unless its name is already present: the
/// first-occurrence-wins duplicate policy of node decoding.
pub open spec fn add_prop(ps: Seq<PropertyV>, p: PropertyV) -> Seq<PropertyV> {
    if has_prop(ps, p.name) {
        ps
    } else {
        ps.push(p)
    }
}

/// Pairwise distinct property names.
pub open spec fn distinct_names(ps: Seq<PropertyV>) -> bool {
    forall|i: int, j: int| 0 <= i < j < ps.len() ==> ps[i].name != ps[j].name
}

/// The first-occurrence-wins policy keeps names pairwise distinct.
pub proof fn lemma_add_prop_distinct(ps: Seq<PropertyV>, p: PropertyV)
    requires
        distinct_names(ps),
    ensures
        distinct_names(add_prop(ps, p)),
{
    if !has_prop(ps, p.name) {
        assert forall|i: int, j: int|
            0 <= i < j < ps.push(p).len() implies ps.push(p)[i].name != ps.push(p)[j].name by {
            if j < ps.len() {
                assert(ps.push(p)[i] == ps[i]);
                assert(ps.push(p)[j] == ps[j]);
            } else {
                assert(ps.push(p)[j] == p);
                assert(ps.push(p)[i] == ps[i]);
            }
        }
    }
}

/// Every node of a tree carries pairwise distinct property names.
pub open spec fn wf_props(n: NodeV) -> bool
    decreases n, 0nat,
{
    distinct_names(n.props) && wf_props_list(n.children)
}

/// Every node of every tree in the list carries pairwise distinct property
/// names.
pub open spec fn wf_props_list(ns: Seq<NodeV>) -> bool
    decreases ns, 1nat,
{
    forall|i: int| 0 <= i < ns.len() ==> wf_props(#[trigger] ns[i])
}

/// A match at `i` with no earlier match is what `first_prop` returns.
pub proof fn lemma_first_prop_at(ps: Seq<PropertyV>, name: Seq<u8>, i: int)
    requires
        0 <= i < ps.len(),
        ps[i].name == name,
        forall|j: int| 0 <= j < i ==> ps[j].name != name,
    ensures
        first_prop(ps, name) == Some(ps[i]),
    decreases ps.len(),
{
    if i > 0 {
        lemma_first_prop_at(ps.subrange(1, ps.len() as int), name, i - 1);
    }
}

/// With no match anywhere, `first_prop` returns nothing.
pub proof fn lemma_first_prop_none(ps: Seq<PropertyV>, name: Seq<u8>)
    requires
        forall|j: int| 0 <= j < ps.len() ==> ps[j].name != name,
    ensures
        first_prop(ps, name) is None,
    decreases ps.len(),
{
    if ps.len() > 0 {
        lemma_first_prop_none(ps.subrange(1, ps.len() as int), name);
    }
}

/// `first_prop` finds a property exactly when one with that name is present.
pub proof fn lemma_first_prop_some(ps: Seq<PropertyV>, name: Seq<u8>)
    ensures
        (first_prop(ps, name) is Some) <==> has_prop(ps, name),
        first_prop(ps, name) matches Some(p) ==> p.name == name,
    decreases ps.len(),
{
    if ps.len() > 0 {
        lemma_first_prop_some(ps.subrange(1, ps.len() as int), name);
        if ps[0].name != name && has_prop(ps, name) {
            let i = choose|i: int| 0 <= i < ps.len() && ps[i].name == name;
            assert(ps.subrange(1, ps.len() as int)[i - 1].name == name);
        }
    }
}

/// Once a name is present, adding later properties never changes what a
/// lookup of that name returns: the first occurrence's values are retained.
pub proof fn lemma_add_prop_keeps_first(ps: Seq<PropertyV>, p: PropertyV, name: Seq<u8>)
    requires
        has_prop(ps, name),
    ensures
        first_prop(add_prop(ps, p), name) == first_prop(ps, name),
    decreases ps.len(),
{
    if !has_prop(ps, p.name) {
        lemma_first_prop_push(ps, p, name);
    }
}

/// Looking up a name other than the appended property's sees the old list;
/// appending under a fresh name makes that property the lookup result.
pub proof fn lemma_first_prop_push(ps: Seq<PropertyV>, p: PropertyV, name: Seq<u8>)
    ensures
        has_prop(ps, name) ==> first_prop(ps.push(p), name) == first_prop(ps, name),
        !has_prop(ps, name) && p.name == name ==> first_prop(ps.push(p), name) == Some(p),
        !has_prop(ps, name) && p.name != name ==> first_prop(ps.push(p), name) is None,
    decreases ps.len(),
{
    if ps.len() == 0 {
        assert(ps.push(p)[0] == p);
        assert(ps.push(p).len() == 1);
        if p.name != name {
            lemma_first_prop_none(ps.push(p), name);
        }
    } else {
        lemma_first_prop_push(ps.subrange(1, ps.len() as int), p, name);
        assert(ps.push(p).subrange(1, ps.push(p).len() as int) =~= ps.subrange(
            1,
            ps.len() as int,
        ).push(p));
        if has_prop(ps, name) && ps[0].name != name {
            let i = choose|i: int| 0 <= i < ps.len() && ps[i].name == name;
            assert(ps.subrange(1, ps.len() as int)[i - 1].name == name);
        }
    }
}

impl Node {
    /// The first property named `name`, or nothing: properties keep document
    /// order and duplicate names were dropped at decode time.
    pub fn property<'a>(&'a self, name: &[u8]) -> (r: Option<&'a Property>)
        ensures
            match r {
                Some(pr) => first_prop(self@.props, name@) == Some(pr@) && pr@.name == name@,
                None => first_prop(self@.props, name@) is None,
            },
            (r is Some) <==> has_prop(self@.props, name@),
    {
        proof {
            lemma_first_prop_some(prop_views(self.props@), name@);
        }
        let n = self.props.len();
        let mut i: usize = 0;
        while i < n
            invariant
                i <= n,
                n == self.props@.len(),
                forall|j: int| 0 <= j < i ==> prop_views(self.props@)[j].name != name@,
            decreases n - i,
        {
            if bytes_eq(self.props[i].name.as_slice(), name) {
                proof {
                    lemma_first_prop_at(prop_views(self.props@), name@, i as int);
                }
                return Some(&self.props[i]);
            }
            i = i + 1;
        }
        proof {
            lemma_first_prop_none(prop_views(self.props@), name@);
        }
        None
    }
}

/// The direct children of tag `t` among the first `k` of `ns`, in document
/// order.
pub open spec fn tagged_prefix(ns: Seq<NodeV>, t: u32, k: int) -> Seq<NodeV>
    decreases k,
{
    if k <= 0 {
        Seq::empty()
    } else {
        tagged_prefix(ns, t, k - 1) + if ns[k - 1].tag == t {
            seq![ns[k - 1]]
        } else {
            Seq::empty()
        }
    }
}

/// The direct children of `n` with tag `t`, in document order.
pub open spec fn children_of_type(n: NodeV, t: u32) -> Seq<NodeV> {
    tagged_prefix(n.children, t, n.children.len() as int)
}

/// The first element of tag `t`, if any.
pub open spec fn first_tagged(ns: Seq<NodeV>, t: u32) -> Option<NodeV>
    decreases ns.len(),
{
    if ns.len() == 0 {
        None
    } else if ns[0].tag == t {
        Some(ns[0])
    } else {
        first_tagged(ns.subrange(1, ns.len() as int), t)
    }
}

/// Whether some element carries tag `t`.
pub open spec fn has_tagged(ns: Seq<NodeV>, t: u32) -> bool {
    exists|i: int| 0 <= i < ns.len() && ns[i].tag == t
}

/// A tag match at `i` with no earlier match is what `first_tagged` returns.
pub proof fn lemma_first_tagged_at(ns: Seq<NodeV>, t: u32, i: int)
    requires
        0 <= i < ns.len(),
        ns[i].tag == t,
        forall|j: int| 0 <= j < i ==> ns[j].tag != t,
    ensures
        first_tagged(ns, t) == Some(ns[i]),
    decreases ns.len(),
{
    if i > 0 {
        lemma_first_tagged_at(ns.subrange(1, ns.len() as int), t, i - 1);
    }
}

/// With no tag match anywhere, `first_tagged` returns nothing.
pub proof fn lemma_first_tagged_none(ns: Seq<NodeV>, t: u32)
    requires
        forall|j: int| 0 <= j < ns.len() ==> ns[j].tag != t,
    ensures
        first_tagged(ns, t) is None,
    decreases ns.len(),
{
    if ns.len() > 0 {
        lemma_first_tagged_none(ns.subrange(1, ns.len() as int), t);
    }
}

impl Node {
    /// The direct children carrying tag `t`, in document order. Direct
    /// children only; this is not a subtree search.
    pub fn children_of_type<'a>(&'a self, t: u32) -> (r: Vec<&'a Node>)
        ensures
            node_ref_views(r@) == children_of_type(self@, t),
    {
        let n = self.children.len();
        let mut out: Vec<&Node> = Vec::new();
        let mut i: usize = 0;
        proof {
            lemma_node_views(self.children@);
            assert(node_ref_views(out@) =~= tagged_prefix(self@.children, t, 0));
        }
        while i < n
            invariant
                i <= n,
                n == self.children@.len(),
                self@.children == node_views(self.children@),
                self@.children.len() == n,
                forall|j: int|
                    0 <= j < n ==> self@.children[j] == node_view(#[trigger] self.children@[j]),
                node_ref_views(out@) =~= tagged_prefix(self@.children, t, i as int),
            decreases n - i,
        {
            let ghost prev: Seq<NodeV> = node_ref_views(out@);
            if self.children[i].tag == t {
                out.push(&self.children[i]);
                proof {
                    assert(node_ref_views(out@) =~= prev.push(self@.children[i as int]));
                }
            }
            i = i + 1;
        }
        out
    }

    /// The first direct child carrying tag `t`, if any.
    pub fn first_child_of_type<'a>(&'a self, t: u32) -> (r: Option<&'a Node>)
        ensures
            match r {
                Some(c) => first_tagged(self@.children, t) == Some(c@),
                None => first_tagged(self@.children, t) is None,
            },
    {
        let n = self.children.len();
        let mut i: usize = 0;
        proof {
            lemma_node_views(self.children@);
        }
        while i < n
            invariant
                i <= n,
                n == self.children@.len(),
                self@.children == node_views(self.children@),
                self@.children.len() == n,
                forall|j: int|
                    0 <= j < n ==> self@.children[j] == node_view(#[trigger] self.children@[j]),
                forall|j: int| 0 <= j < i ==> self@.children[j].tag != t,
            decreases n - i,
        {
            if self.children[i].tag == t {
                proof {
                    lemma_first_tagged_at(self@.children, t, i as int);
                }
                return Some(&self.children[i]);
            }
            i = i + 1;
        }
        proof {
            lemma_first_tagged_none(self@.children, t);
        }
        None
    }
}

/// The models of a list of borrowed nodes.
pub open spec fn node_ref_views(ns: Seq<&Node>) -> Seq<NodeV> {
    ns.map_values(|c: &Node| node_view(*c))
}

/// Whether some root node has a direct `modl`-tagged child.
pub open spec fn spec_file_has_model(f: CastFileV) -> bool {
    exists|i: int| 0 <= i < f.roots.len() && has_tagged(#[trigger] f.roots[i].children, TAG_MODEL)
}

/// The model node a projection consumes: the first `modl`-tagged direct child
/// of the first root, if any.
pub open spec fn spec_first_model_node(f: CastFileV) -> Option<NodeV> {
    if f.roots.len() == 0 {
        None
    } else {
        first_tagged(f.roots[0].children, TAG_MODEL)
    }
}

impl CastFile {
    /// Whether any root node carries a direct model child: the cheap pre-check
    /// used to filter candidate files, one pass over roots and their children.
    pub fn has_model(&self) -> (r: bool)
        ensures
            r == spec_file_has_model(self@),
    {
        let n = self.roots.len();
        let mut i: usize = 0;
        proof {
            lemma_node_views(self.roots@);
        }
        while i < n
            invariant
                i <= n,
                n == self.roots@.len(),
                self@.roots == node_views(self.roots@),
                self@.roots.len() == n,
                forall|j: int| 0 <= j < n ==> self@.roots[j] == node_view(#[trigger] self.roots@[j]),
                forall|j: int| 0 <= j < i ==> !has_tagged(self@.roots[j].children, TAG_MODEL),
            decreases n - i,
        {
            match self.roots[i].first_child_of_type(TAG_MODEL) {
                Some(_) => {
                    proof {
                        lemma_first_tagged_some(self@.roots[i as int].children, TAG_MODEL);
                    }
                    return true;
                },
                None => {
                    proof {
                        lemma_first_tagged_some(self@.roots[i as int].children, TAG_MODEL);
                    }
                },
            }
            i = i + 1;
        }
        false
    }

    /// The first `modl`-tagged direct child of the first root, if any.
    pub fn first_model_node<'a>(&'a self) -> (r: Option<&'a Node>)
        ensures
            match r {
                Some(m) => spec_first_model_node(self@) == Some(m@),
                None => spec_first_model_node(self@) is None,
            },
    {
        proof {
            lemma_node_views(self.roots@);
        }
        if self.roots.len() == 0 {
            return None;
        }
        self.roots[0].first_child_of_type(TAG_MODEL)
    }
}

/// `first_tagged` finds a node exactly when the tag occurs.
pub proof fn lemma_first_tagged_some(ns: Seq<NodeV>, t: u32)
    ensures
        (first_tagged(ns, t) is Some) <==> has_tagged(ns, t),
        first_tagged(ns, t) matches Some(c) ==> c.tag == t,
    decreases ns.len(),
{
    if ns.len() > 0 {
        lemma_first_tagged_some(ns.subrange(1, ns.len() as int), t);
        if ns[0].tag != t && has_tagged(ns, t) {
            let i = choose|i: int| 0 <= i < ns.len() && ns[i].tag == t;
            assert(ns.subrange(1, ns.len() as int)[i - 1].tag == t);
        }
    }
}

} // verus!
