//! Recursive-descent decoding of a whole file: header and magic validation,
//! then the root nodes; each node decodes its properties and then its
//! children, handing its own hash down as the children's parent reference.
//! A file either decodes as one unit or fails with a single error; nothing
//! partial is ever returned.

use vstd::prelude::*;

use crate::bytes::{le16, le32, le64, read_bytes, read_u16, read_u32, read_u64};
use crate::format::{spec_tag_of, tag_of, FormatError, CAST_MAGIC};
use crate::node::{
    add_prop, node_views, prop_views, CastFile, CastFileV, Node, NodeV, Property, PropertyV,
};
use crate::value::{decode_values, parse_values, ValueV};

verus! {

/// One property read at `p`: two tag bytes (the second is zero padding for
/// one-character tags), a 16-bit name length, a 32-bit value count, the name
/// as that many raw bytes (no terminator), then the values.
pub open spec fn parse_property(b: Seq<u8>, p: int) -> Result<(PropertyV, int), FormatError>
    recommends
        0 <= p <= b.len(),
{
    if p + 2 > b.len() {
        Err(FormatError::Truncated)
    } else {
        match spec_tag_of(b[p], b[p + 1]) {
            None => Err(FormatError::UnknownPropertyType),
            Some(t) => if p + 8 > b.len() {
                Err(FormatError::Truncated)
            } else {
                let name_len = le16(b, p + 2) as int;
                let count = le32(b, p + 4) as nat;
                if p + 8 + name_len > b.len() {
                    Err(FormatError::Truncated)
                } else {
                    match parse_values(t, b, p + 8 + name_len, count) {
                        Ok((vs, p2)) => Ok(
                            (
                                PropertyV {
                                    name: b.subrange(p + 8, p + 8 + name_len),
                                    tag: t,
                                    values: vs,
                                },
                                p2,
                            ),
                        ),
                        Err(e) => Err(e),
                    }
                }
            },
        }
    }
}

/// `n` properties read at `p`, folded into `acc` with the
/// first-occurrence-wins duplicate policy.
pub open spec fn parse_props(b: Seq<u8>, p: int, n: nat, acc: Seq<PropertyV>) -> Result<
    (Seq<PropertyV>, int),
    FormatError,
>
    decreases n,
{
    if n == 0 {
        Ok((acc, p))
    } else {
        match parse_property(b, p) {
            Ok((pr, p2)) => parse_props(b, p2, (n - 1) as nat, add_prop(acc, pr)),
            Err(e) => Err(e),
        }
    }
}

/// One node read at `p`: a 24-byte header (type tag, advisory size, hash,
/// property count, child count), the properties, then the children, each
/// carrying this node's hash as its parent reference. The advisory size is
/// never used to bound or skip reads.
pub open spec fn parse_node(b: Seq<u8>, p: int, parent: Option<u64>) -> Result<
    (NodeV, int),
    FormatError,
>
    decreases b.len() - p, 0nat, 0nat,
{
    if 0 <= p && p + 24 <= b.len() {
        let hash = le64(b, p + 8);
        match parse_props(b, p + 24, le32(b, p + 16) as nat, Seq::empty()) {
            Ok((props, p2)) => if p + 24 <= p2 <= b.len() {
                match parse_children(b, p2, le32(b, p + 20) as nat, Some(hash), Seq::empty()) {
                    Ok((children, p3)) => Ok(
                        (
                            NodeV {
                                tag: le32(b, p),
                                size: le32(b, p + 4),
                                hash,
                                parent,
                                props,
                                children,
                            },
                            p3,
                        ),
                    ),
                    Err(e) => Err(e),
                }
            } else {
                // Properties always end at or after the header's end and inside
                // the buffer, so this arm is never taken; it keeps the
                // recursion measure of the child parse visibly decreasing.
                Err(FormatError::Truncated)
            },
            Err(e) => Err(e),
        }
    } else {
        Err(FormatError::Truncated)
    }
}

/// `n` sibling nodes read at `p`, appended to `acc` in document order, each
/// given `parent` as its parent reference.
pub open spec fn parse_children(
    b: Seq<u8>,
    p: int,
    n: nat,
    parent: Option<u64>,
    acc: Seq<NodeV>,
) -> Result<(Seq<NodeV>, int), FormatError>
    decreases b.len() - p, 1nat, n,
{
    if n == 0 {
        Ok((acc, p))
    } else {
        match parse_node(b, p, parent) {
            Ok((child, p2)) => if p <= p2 <= b.len() {
                parse_children(b, p2, (n - 1) as nat, parent, acc.push(child))
            } else {
                // A node always ends after its start and inside the buffer, so
                // this arm is never taken; it keeps the recursion measure
                // visibly decreasing.
                Err(FormatError::Truncated)
            },
            Err(e) => Err(e),
        }
    }
}

/// A whole file: magic (must equal `CAST_MAGIC`), version (accepted and
/// carried, never validated), root count, reserved flags, then that many root
/// nodes. Trailing bytes after the last root are ignored.
pub open spec fn parse_file(b: Seq<u8>) -> Result<CastFileV, FormatError> {
    if b.len() < 4 {
        Err(FormatError::Truncated)
    } else if le32(b, 0) != CAST_MAGIC {
        Err(FormatError::BadMagic)
    } else if b.len() < 16 {
        Err(FormatError::Truncated)
    } else {
        match parse_children(b, 16, le32(b, 8) as nat, None, Seq::empty()) {
            Ok((roots, _)) => Ok(
                CastFileV { version: le32(b, 4), flags: le32(b, 12), roots },
            ),
            Err(e) => Err(e),
        }
    }
}

/// A property decode can only fail by running out of bytes or on an unknown
/// type tag, never with a magic failure.
pub proof fn lemma_parse_property_not_bad_magic(b: Seq<u8>, p: int)
    ensures
        parse_property(b, p) matches Err(e) ==> e != FormatError::BadMagic,
{
    if p + 2 <= b.len() {
        match spec_tag_of(b[p], b[p + 1]) {
            Some(t) => {
                if p + 8 <= b.len() && p + 8 + le16(b, p + 2) <= b.len() {
                    crate::value::lemma_parse_values_err_is_truncated(
                        t,
                        b,
                        p + 8 + le16(b, p + 2),
                        le32(b, p + 4) as nat,
                    );
                }
            },
            None => {},
        }
    }
}

/// A property run can only fail as a single property can.
pub proof fn lemma_parse_props_not_bad_magic(b: Seq<u8>, p: int, n: nat, acc: Seq<PropertyV>)
    ensures
        parse_props(b, p, n, acc) matches Err(e) ==> e != FormatError::BadMagic,
    decreases n,
{
    if n != 0 {
        lemma_parse_property_not_bad_magic(b, p);
        match parse_property(b, p) {
            Ok((pr, p2)) => {
                lemma_parse_props_not_bad_magic(b, p2, (n - 1) as nat, add_prop(acc, pr));
            },
            Err(_) => {},
        }
    }
}

/// A node decode never reports a magic failure: `BadMagic` can only come
/// from the file header.
pub proof fn lemma_parse_node_not_bad_magic(b: Seq<u8>, p: int, parent: Option<u64>)
    ensures
        parse_node(b, p, parent) matches Err(e) ==> e != FormatError::BadMagic,
    decreases b.len() - p, 0nat, 0nat,
{
    if 0 <= p && p + 24 <= b.len() {
        lemma_parse_props_not_bad_magic(b, p + 24, le32(b, p + 16) as nat, Seq::empty());
        match parse_props(b, p + 24, le32(b, p + 16) as nat, Seq::empty()) {
            Ok((props, p2)) => {
                if p + 24 <= p2 <= b.len() {
                    lemma_parse_children_not_bad_magic(
                        b,
                        p2,
                        le32(b, p + 20) as nat,
                        Some(le64(b, p + 8)),
                        Seq::empty(),
                    );
                }
            },
            Err(_) => {},
        }
    }
}

/// A sibling run decodes as its nodes do, so it never reports a magic
/// failure either.
pub proof fn lemma_parse_children_not_bad_magic(
    b: Seq<u8>,
    p: int,
    n: nat,
    parent: Option<u64>,
    acc: Seq<NodeV>,
)
    ensures
        parse_children(b, p, n, parent, acc) matches Err(e) ==> e != FormatError::BadMagic,
    decreases b.len() - p, 1nat, n,
{
    if n != 0 {
        lemma_parse_node_not_bad_magic(b, p, parent);
        match parse_node(b, p, parent) {
            Ok((child, p2)) => {
                if p <= p2 <= b.len() {
                    lemma_parse_children_not_bad_magic(b, p2, (n - 1) as nat, parent, acc.push(child));
                }
            },
            Err(_) => {},
        }
    }
}

/// A file decode fails with `BadMagic` exactly when the header is long
/// enough to carry a magic word and that word is wrong; every later failure
/// carries another error.
pub proof fn lemma_parse_file_bad_magic_iff(b: Seq<u8>)
    ensures
        (parse_file(b) == Err::<CastFileV, FormatError>(FormatError::BadMagic)) <==> (b.len() >= 4
            && le32(b, 0) != CAST_MAGIC),
{
    if b.len() >= 16 && le32(b, 0) == CAST_MAGIC {
        lemma_parse_children_not_bad_magic(b, 16, le32(b, 8) as nat, None, Seq::empty());
    }
}

/// Within one node, a name that is already present keeps its first
/// occurrence's property: decoding any further properties never changes what
/// a lookup of that name returns, and later duplicates are dropped without
/// error.
pub proof fn lemma_parse_props_first_wins(
    b: Seq<u8>,
    p: int,
    n: nat,
    acc: Seq<PropertyV>,
    name: Seq<u8>,
)
    requires
        crate::node::has_prop(acc, name),
        parse_props(b, p, n, acc) is Ok,
    ensures
        crate::node::first_prop(parse_props(b, p, n, acc)->Ok_0.0, name) == crate::node::first_prop(
            acc,
            name,
        ),
    decreases n,
{
    if n != 0 {
        match parse_property(b, p) {
            Ok((pr, p2)) => {
                crate::node::lemma_add_prop_keeps_first(acc, pr, name);
                assert(crate::node::has_prop(add_prop(acc, pr), name)) by {
                    let i = choose|i: int| 0 <= i < acc.len() && acc[i].name == name;
                    if !crate::node::has_prop(acc, pr.name) {
                        assert(acc.push(pr)[i] == acc[i]);
                    }
                }
                lemma_parse_props_first_wins(b, p2, (n - 1) as nat, add_prop(acc, pr), name);
            },
            Err(_) => {},
        }
    }
}

/// Decoded properties keep pairwise distinct names: the duplicate policy's
/// structural consequence at one node.
pub proof fn lemma_parse_props_distinct(b: Seq<u8>, p: int, n: nat, acc: Seq<PropertyV>)
    requires
        crate::node::distinct_names(acc),
        parse_props(b, p, n, acc) is Ok,
    ensures
        crate::node::distinct_names(parse_props(b, p, n, acc)->Ok_0.0),
    decreases n,
{
    if n != 0 {
        match parse_property(b, p) {
            Ok((pr, p2)) => {
                crate::node::lemma_add_prop_distinct(acc, pr);
                lemma_parse_props_distinct(b, p2, (n - 1) as nat, add_prop(acc, pr));
            },
            Err(_) => {},
        }
    }
}

/// Every node of a decoded tree keeps pairwise distinct property names.
pub proof fn lemma_parse_node_distinct_names(b: Seq<u8>, p: int, parent: Option<u64>)
    requires
        parse_node(b, p, parent) is Ok,
    ensures
        crate::node::wf_props(parse_node(b, p, parent)->Ok_0.0),
    decreases b.len() - p, 0nat, 0nat,
{
    if 0 <= p && p + 24 <= b.len() {
        match parse_props(b, p + 24, le32(b, p + 16) as nat, Seq::empty()) {
            Ok((props, p2)) => {
                lemma_parse_props_distinct(b, p + 24, le32(b, p + 16) as nat, Seq::empty());
                if p + 24 <= p2 <= b.len() {
                    lemma_parse_children_distinct_names(
                        b,
                        p2,
                        le32(b, p + 20) as nat,
                        Some(le64(b, p + 8)),
                        Seq::empty(),
                    );
                }
            },
            Err(_) => {},
        }
    }
}

/// Every node of every decoded sibling tree keeps pairwise distinct
/// property names.
pub proof fn lemma_parse_children_distinct_names(
    b: Seq<u8>,
    p: int,
    n: nat,
    parent: Option<u64>,
    acc: Seq<NodeV>,
)
    requires
        crate::node::wf_props_list(acc),
        parse_children(b, p, n, parent, acc) is Ok,
    ensures
        crate::node::wf_props_list(parse_children(b, p, n, parent, acc)->Ok_0.0),
    decreases b.len() - p, 1nat, n,
{
    if n != 0 {
        match parse_node(b, p, parent) {
            Ok((child, p2)) => {
                lemma_parse_node_distinct_names(b, p, parent);
                if p <= p2 <= b.len() {
                    assert forall|i: int|
                        0 <= i < acc.push(child).len() implies crate::node::wf_props(
                        #[trigger] acc.push(child)[i],
                    ) by {
                        if i < acc.len() {
                            assert(acc.push(child)[i] == acc[i]);
                        } else {
                            assert(acc.push(child)[i] == child);
                        }
                    }
                    lemma_parse_children_distinct_names(
                        b,
                        p2,
                        (n - 1) as nat,
                        parent,
                        acc.push(child),
                    );
                }
            },
            Err(_) => {},
        }
    }
}

/// Every node of a decoded file keeps pairwise distinct property names:
/// within each node, only a name's first occurrence was retained.
pub proof fn lemma_parse_file_distinct_names(b: Seq<u8>)
    requires
        parse_file(b) is Ok,
    ensures
        crate::node::wf_props_list(parse_file(b)->Ok_0.roots),
{
    if b.len() >= 16 && le32(b, 0) == CAST_MAGIC {
        lemma_parse_children_distinct_names(b, 16, le32(b, 8) as nat, None, Seq::empty());
    }
}

/// Decodes one property at `p`.
pub fn decode_property(b: &[u8], p: usize) -> (r: Result<(Property, usize), FormatError>)
    requires
        p <= b@.len(),
    ensures
        match r {
            Ok((pr, p2)) => parse_property(b@, p as int) == Ok::<(PropertyV, int), FormatError>(
                (pr@, p2 as int),
            ) && p + 8 <= p2 <= b@.len(),
            Err(e) => parse_property(b@, p as int) == Err::<(PropertyV, int), FormatError>(e),
        },
{
    let blen: usize = b.len();
    if blen - p < 2 {
        return Err(FormatError::Truncated);
    }
    let t = match tag_of(b[p], b[p + 1]) {
        Some(t) => t,
        None => {
            return Err(FormatError::UnknownPropertyType);
        },
    };
    if blen - p < 8 {
        return Err(FormatError::Truncated);
    }
    let name_len = read_u16(b, p + 2) as usize;
    let count = read_u32(b, p + 4);
    if blen - (p + 8) < name_len {
        return Err(FormatError::Truncated);
    }
    let name = read_bytes(b, p + 8, name_len);
    match decode_values(t, b, p + 8 + name_len, count) {
        Ok((values, p2)) => Ok((Property { name, tag: t, values }, p2)),
        Err(e) => Err(e),
    }
}

/// Decodes one node at `p`, giving it `parent` as its parent reference.
#[verifier::loop_isolation(false)]
pub fn decode_node(b: &[u8], p: usize, parent: Option<u64>) -> (r: Result<
    (Node, usize),
    FormatError,
>)
    requires
        p <= b@.len(),
    ensures
        match r {
            Ok((n, p2)) => parse_node(b@, p as int, parent) == Ok::<(NodeV, int), FormatError>(
                (n@, p2 as int),
            ) && p + 24 <= p2 <= b@.len(),
            Err(e) => parse_node(b@, p as int, parent) == Err::<(NodeV, int), FormatError>(e),
        },
    decreases b@.len() - p,
{
    let blen: usize = b.len();
    if blen - p < 24 {
        return Err(FormatError::Truncated);
    }
    let tag = read_u32(b, p);
    let size = read_u32(b, p + 4);
    let hash = read_u64(b, p + 8);
    let prop_count = read_u32(b, p + 16);
    let child_count = read_u32(b, p + 20);

    let mut props: Vec<Property> = Vec::new();
    let mut pos: usize = p + 24;
    let mut i: u32 = 0;
    proof {
        assert(prop_views(props@) =~= Seq::<PropertyV>::empty());
    }
    while i < prop_count
        invariant
            i <= prop_count,
            p + 24 <= pos <= b@.len(),
            b@.len() <= usize::MAX,
            parse_props(b@, p + 24, prop_count as nat, Seq::empty()) == parse_props(
                b@,
                pos as int,
                (prop_count - i) as nat,
                prop_views(props@),
            ),
        decreases prop_count - i,
    {
        match decode_property(b, pos) {
            Ok((pr, p2)) => {
                let ghost prev: Seq<PropertyV> = prop_views(props@);
                let dup = contains_name(&props, &pr.name);
                if !dup {
                    props.push(pr);
                    proof {
                        assert(prop_views(props@) =~= prev.push(pr@));
                        assert(add_prop(prev, pr@) == prop_views(props@));
                    }
                } else {
                    proof {
                        assert(add_prop(prev, pr@) == prev);
                    }
                }
                pos = p2;
            },
            Err(e) => {
                return Err(e);
            },
        }
        i = i + 1;
    }

    let mut children: Vec<Node> = Vec::new();
    let mut j: u32 = 0;
    let ghost props_end: int = pos as int;
    proof {
        assert(node_views(children@) =~= Seq::<NodeV>::empty());
    }
    while j < child_count
        invariant
            j <= child_count,
            p + 24 <= props_end <= pos <= b@.len(),
            b@.len() <= usize::MAX,
            parse_children(
                b@,
                props_end,
                child_count as nat,
                Some(hash),
                Seq::empty(),
            ) == parse_children(
                b@,
                pos as int,
                (child_count - j) as nat,
                Some(hash),
                node_views(children@),
            ),
        decreases child_count - j,
    {
        match decode_node(b, pos, Some(hash)) {
            Ok((child, p2)) => {
                let ghost prev: Seq<Node> = children@;
                children.push(child);
                proof {
                    lemma_node_views_push(prev, child);
                }
                pos = p2;
            },
            Err(e) => {
                return Err(e);
            },
        }
        j = j + 1;
    }

    let node = Node { tag, size, hash, parent, props, children };
    Ok((node, pos))
}

/// Whether the list already holds a property of this name.
fn contains_name(ps: &Vec<Property>, name: &Vec<u8>) -> (r: bool)
    ensures
        r == crate::node::has_prop(prop_views(ps@), name@),
{
    let n = ps.len();
    let mut i: usize = 0;
    while i < n
        invariant
            i <= n,
            n == ps@.len(),
            forall|j: int| 0 <= j < i ==> prop_views(ps@)[j].name != name@,
        decreases n - i,
    {
        if crate::bytes::bytes_eq(ps[i].name.as_slice(), name.as_slice()) {
            assert(prop_views(ps@)[i as int].name == name@);
            return true;
        }
        i = i + 1;
    }
    false
}

/// Pushing a node extends the list of models by the new node's model.
proof fn lemma_node_views_push(ns: Seq<Node>, x: Node)
    ensures
        node_views(ns.push(x)) == node_views(ns).push(crate::node::node_view(x)),
{
    crate::node::lemma_node_views(ns.push(x));
    crate::node::lemma_node_views(ns);
    assert forall|i: int|
        0 <= i < ns.push(x).len() implies node_views(ns.push(x))[i] == node_views(ns).push(
        crate::node::node_view(x),
    )[i] by {
        if i < ns.len() {
            assert(ns.push(x)[i] == ns[i]);
        } else {
            assert(ns.push(x)[i] == x);
        }
    }
    assert(node_views(ns.push(x)) =~= node_views(ns).push(crate::node::node_view(x)));
}

/// Decodes a whole file from a byte buffer.
#[verifier::loop_isolation(false)]
pub fn decode_file(b: &[u8]) -> (r: Result<CastFile, FormatError>)
    ensures
        match r {
            Ok(f) => parse_file(b@) == Ok::<CastFileV, FormatError>(f@),
            Err(e) => parse_file(b@) == Err::<CastFileV, FormatError>(e),
        },
        (r == Err::<CastFile, FormatError>(FormatError::BadMagic)) <==> (b@.len() >= 4 && le32(
            b@,
            0,
        ) != CAST_MAGIC),
{
    proof {
        lemma_parse_file_bad_magic_iff(b@);
    }
    let blen: usize = b.len();
    if blen < 4 {
        return Err(FormatError::Truncated);
    }
    if read_u32(b, 0) != CAST_MAGIC {
        return Err(FormatError::BadMagic);
    }
    if blen < 16 {
        return Err(FormatError::Truncated);
    }
    let version = read_u32(b, 4);
    let root_count = read_u32(b, 8);
    let flags = read_u32(b, 12);

    let mut roots: Vec<Node> = Vec::new();
    let mut pos: usize = 16;
    let mut i: u32 = 0;
    proof {
        assert(node_views(roots@) =~= Seq::<NodeV>::empty());
    }
    while i < root_count
        invariant
            i <= root_count,
            16 <= pos <= b@.len(),
            b@.len() <= usize::MAX,
            parse_children(b@, 16, root_count as nat, None, Seq::empty()) == parse_children(
                b@,
                pos as int,
                (root_count - i) as nat,
                None,
                node_views(roots@),
            ),
        decreases root_count - i,
    {
        match decode_node(b, pos, None) {
            Ok((root, p2)) => {
                let ghost prev: Seq<Node> = roots@;
                roots.push(root);
                proof {
                    lemma_node_views_push(prev, root);
                }
                pos = p2;
            },
            Err(e) => {
                return Err(e);
            },
        }
        i = i + 1;
    }
    Ok(CastFile { version, flags, roots })
}

} // verus!
