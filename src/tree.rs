use crate::json::{json_number_text, number_text};
use crate::models::{
    OSCMethod, OSCMethodAccessType, OSCMethodValueType, OSCQueryNode, OSCQueryValue,
};
use crate::text::{path_segments, split_path, strings_view};
use vstd::prelude::*;

verus! {

/// What a published value is, over plain values.
pub enum ValueView {
    Bool(bool),
    Number(Seq<char>),
    Text(Seq<char>),
}

pub open spec fn value_view(v: OSCQueryValue) -> ValueView {
    match v {
        OSCQueryValue::Bool(b) => ValueView::Bool(b),
        OSCQueryValue::Number(n) => ValueView::Number(n@),
        OSCQueryValue::Text(t) => ValueView::Text(t@),
    }
}

pub open spec fn opt_view(o: Option<String>) -> Option<Seq<char>> {
    match o {
        Some(s) => Some(s@),
        None => None,
    }
}

/// What a node says of its own address, leaving out its path and children.
pub struct NodeInfo {
    pub description: Option<Seq<char>>,
    pub access: u8,
    pub value_type: Option<Seq<char>>,
    pub value: Option<ValueView>,
}

pub open spec fn node_info(n: OSCQueryNode) -> NodeInfo {
    NodeInfo {
        description: opt_view(n.description),
        access: n.access,
        value_type: opt_view(n.value_type),
        value: match n.value {
            Some(v) => Some(value_view(v)),
            None => None,
        },
    }
}

/// The access flags published for an access type: 1 to read, 2 to write,
/// 3 for both.
pub open spec fn access_code(t: OSCMethodAccessType) -> u8 {
    match t {
        OSCMethodAccessType::Write => 2,
        OSCMethodAccessType::Read => 1,
        OSCMethodAccessType::ReadWrite => 3,
    }
}

pub open spec fn true_text() -> Seq<char> {
    seq!['t', 'r', 'u', 'e']
}

pub open spec fn root_description() -> Seq<char> {
    seq!['R', 'o', 'o', 't', ' ', 'C', 'o', 'n', 't', 'a', 'i', 'n', 'e', 'r']
}

/// The value published for a serialized value `v` of type `t`: a boolean
/// is true exactly for `"true"`, a number is read and written back by the
/// JSON library (no value where it is not a number), a string is kept.
pub open spec fn value_model(t: OSCMethodValueType, v: Seq<char>) -> Option<ValueView> {
    match t {
        OSCMethodValueType::Bool => Some(ValueView::Bool(v == true_text())),
        OSCMethodValueType::Int | OSCMethodValueType::Float => match number_text(v) {
            Some(n) => Some(ValueView::Number(n)),
            None => None,
        },
        OSCMethodValueType::String => Some(ValueView::Text(v)),
    }
}

/// What the node of a registered method says of it.
pub open spec fn method_info(m: OSCMethod) -> NodeInfo {
    NodeInfo {
        description: opt_view(m.description),
        access: access_code(m.ad_type),
        value_type: match m.value_type {
            Some(t) => Some(t.spec_osc_type()),
            None => None,
        },
        value: match m.value_type {
            Some(t) => match m.value {
                Some(v) => value_model(t, v@),
                None => None,
            },
            None => None,
        },
    }
}

/// A node that only holds other nodes.
pub open spec fn container_info() -> NodeInfo {
    NodeInfo { description: None, access: 0, value_type: None, value: None }
}

pub open spec fn root_info() -> NodeInfo {
    NodeInfo { description: Some(root_description()), access: 0, value_type: None, value: None }
}

pub open spec fn has_key(cs: Seq<(String, OSCQueryNode)>, key: Seq<char>) -> bool {
    exists|i: int| 0 <= i < cs.len() && #[trigger] cs[i].0@ == key
}

pub open spec fn key_index(cs: Seq<(String, OSCQueryNode)>, key: Seq<char>) -> int {
    choose|i: int| 0 <= i < cs.len() && #[trigger] cs[i].0@ == key
}

pub open spec fn keys_unique(cs: Seq<(String, OSCQueryNode)>) -> bool {
    forall|i: int, j: int|
        0 <= i < cs.len() && 0 <= j < cs.len() && #[trigger] cs[i].0@ == #[trigger] cs[j].0@
            ==> i == j
}

/// The node reached from `n` by following the segments of `p`.
pub open spec fn lookup(n: OSCQueryNode, p: Seq<Seq<char>>) -> Option<OSCQueryNode>
    decreases p.len(),
{
    if p.len() == 0 {
        Some(n)
    } else if has_key(n.contents@, p[0]) {
        lookup(n.contents@[key_index(n.contents@, p[0])].1, p.skip(1))
    } else {
        None
    }
}

/// No node of the tree has two children under one segment.
pub open spec fn tree_wf(n: OSCQueryNode) -> bool {
    forall|p: Seq<Seq<char>>| #[trigger]
        lookup(n, p) is Some ==> keys_unique(lookup(n, p)->0.contents@)
}

/// The full path of the node at segments `p`: a slash before each segment.
pub open spec fn join_path(p: Seq<Seq<char>>) -> Seq<char>
    decreases p.len(),
{
    if p.len() == 0 {
        Seq::empty()
    } else {
        join_path(p.drop_last()) + seq!['/'] + p.last()
    }
}

pub open spec fn method_segments(m: OSCMethod) -> Seq<Seq<char>> {
    path_segments(m.address@)
}

/// The tree built from `ms` has a node at `p`: the root, or a prefix of the
/// segments of a registered address.
pub open spec fn in_tree(ms: Seq<OSCMethod>, p: Seq<Seq<char>>) -> bool {
    p.len() == 0 || exists|i: int| 0 <= i < ms.len() && p.is_prefix_of(#[trigger] method_segments(ms[i]))
}

/// The last method of `ms` whose address has the segments `p`.
pub open spec fn last_writer(ms: Seq<OSCMethod>, p: Seq<Seq<char>>) -> Option<int>
    decreases ms.len(),
{
    if ms.len() == 0 {
        None
    } else if method_segments(ms.last()) == p {
        Some(ms.len() - 1)
    } else {
        last_writer(ms.drop_last(), p)
    }
}

pub open spec fn expected_info(ms: Seq<OSCMethod>, p: Seq<Seq<char>>) -> NodeInfo {
    match last_writer(ms, p) {
        Some(i) => method_info(ms[i]),
        None => if p.len() == 0 {
            root_info()
        } else {
            container_info()
        },
    }
}

/// The segments under which the children of a node are held, in order.
pub open spec fn keys_of(cs: Seq<(String, OSCQueryNode)>) -> Seq<Seq<char>> {
    cs.map_values(|e: (String, OSCQueryNode)| e.0@)
}

/// The child segments `ks` of the node at `q` after inserting a
/// registration with segments `rest`: the segment of `rest` after `q`
/// comes last, unless it is there already.
pub open spec fn new_keys(ks: Seq<Seq<char>>, q: Seq<Seq<char>>, rest: Seq<Seq<char>>) -> Seq<Seq<char>> {
    if q.len() < rest.len() && q.is_prefix_of(rest) && !ks.contains(rest[q.len() as int]) {
        ks.push(rest[q.len() as int])
    } else {
        ks
    }
}

/// The child segments of the node at `p` in the tree of `ms`: each
/// segment that follows `p` in a registered address, in the order in
/// which they first occur.
pub open spec fn child_keys(ms: Seq<OSCMethod>, p: Seq<Seq<char>>) -> Seq<Seq<char>>
    decreases ms.len(),
{
    if ms.len() == 0 {
        Seq::empty()
    } else {
        new_keys(child_keys(ms.drop_last(), p), p, method_segments(ms.last()))
    }
}

/// `root` is the description tree of the methods `ms`: a node for each
/// prefix of each registered address, carrying the last registration of
/// that exact address, or none.
pub open spec fn describes(root: OSCQueryNode, ms: Seq<OSCMethod>) -> bool {
    &&& tree_wf(root)
    &&& root.full_path@ == seq!['/']
    &&& forall|p: Seq<Seq<char>>| (#[trigger] lookup(root, p)) is Some <==> in_tree(ms, p)
    &&& forall|p: Seq<Seq<char>>| #[trigger]
        lookup(root, p) is Some && p.len() > 0 ==> lookup(root, p)->0.full_path@ == join_path(p)
    &&& forall|p: Seq<Seq<char>>| #[trigger]
        lookup(root, p) is Some ==> node_info(lookup(root, p)->0) == expected_info(ms, p)
    &&& forall|p: Seq<Seq<char>>| #[trigger]
        lookup(root, p) is Some ==> keys_of(lookup(root, p)->0.contents@) == child_keys(ms, p)
}

pub fn access_of(t: OSCMethodAccessType) -> (r: u8)
    ensures
        r == access_code(t),
{
    match t {
        OSCMethodAccessType::Write => 2,
        OSCMethodAccessType::Read => 1,
        OSCMethodAccessType::ReadWrite => 3,
    }
}

/// The fields that a registration sets on its node.
struct Leaf {
    description: Option<String>,
    access: u8,
    value_type: Option<String>,
    value: Option<OSCQueryValue>,
}

spec fn leaf_info(l: Leaf) -> NodeInfo {
    NodeInfo {
        description: opt_view(l.description),
        access: l.access,
        value_type: opt_view(l.value_type),
        value: match l.value {
            Some(v) => Some(value_view(v)),
            None => None,
        },
    }
}

fn clone_opt(o: &Option<String>) -> (r: Option<String>)
    ensures
        opt_view(r) == opt_view(*o),
{
    match o {
        Some(s) => Some(s.clone()),
        None => None,
    }
}

/// The value published for a serialized value `v` of type `t`.
fn value_of(t: OSCMethodValueType, v: &String) -> (r: Option<OSCQueryValue>)
    ensures
        match r {
            Some(x) => value_model(t, v@) == Some(value_view(x)),
            None => value_model(t, v@) is None,
        },
{
    match t {
        OSCMethodValueType::Bool => {
            proof {
                reveal_strlit("true");
            }
            let t_text = String::from_str("true");
            let is_true = v.eq(&t_text);
            assert(t_text@ == true_text());
            Some(OSCQueryValue::Bool(is_true))
        },
        OSCMethodValueType::Int | OSCMethodValueType::Float => match json_number_text(v.as_str()) {
            Some(n) => Some(OSCQueryValue::Number(n)),
            None => None,
        },
        OSCMethodValueType::String => Some(OSCQueryValue::Text(v.clone())),
    }
}

fn leaf_of(m: &OSCMethod) -> (r: Leaf)
    ensures
        leaf_info(r) == method_info(*m),
{
    let value_type = match m.value_type {
        Some(t) => Some(String::from_str(t.osc_type())),
        None => None,
    };
    let value = match m.value_type {
        Some(t) => match &m.value {
            Some(v) => value_of(t, v),
            None => None,
        },
        None => None,
    };
    Leaf { description: clone_opt(&m.description), access: access_of(m.ad_type), value_type, value }
}

/// The index of the child under `key`, if there is one.
fn find_key(cs: &Vec<(String, OSCQueryNode)>, key: &String) -> (r: Option<usize>)
    ensures
        match r {
            Some(i) => i < cs.len() && cs@[i as int].0@ == key@,
            None => !has_key(cs@, key@),
        },
{
    let mut i: usize = 0;
    while i < cs.len()
        invariant
            i <= cs.len(),
            forall|j: int| 0 <= j < i ==> #[trigger] cs@[j].0@ != key@,
        decreases cs.len() - i,
    {
        if cs[i].0 == *key {
            return Some(i);
        }
        i = i + 1;
    }
    None
}

/// What the node at `q` holds after a registration with segments `rest`
/// and fields `info` was inserted below the node `before`, whose own full
/// path is `path`.
spec fn inserted_ok(
    before: OSCQueryNode,
    after: OSCQueryNode,
    q: Seq<Seq<char>>,
    rest: Seq<Seq<char>>,
    path: Seq<char>,
    info: NodeInfo,
) -> bool {
    &&& node_info(after) == if q == rest {
        info
    } else if lookup(before, q) is Some {
        node_info(lookup(before, q)->0)
    } else {
        container_info()
    }
    &&& q.len() > 0 ==> after.full_path@ == if lookup(before, q) is Some {
        lookup(before, q)->0.full_path@
    } else {
        path + join_path(q)
    }
    &&& keys_of(after.contents@) == new_keys(keys_at(before, q), q, rest)
}

/// The child segments of the node at `q`, none where there is no node.
spec fn keys_at(n: OSCQueryNode, q: Seq<Seq<char>>) -> Seq<Seq<char>> {
    match lookup(n, q) {
        Some(m) => keys_of(m.contents@),
        None => Seq::empty(),
    }
}

proof fn lemma_join_prepend(key: Seq<char>, q: Seq<Seq<char>>)
    ensures
        join_path(seq![key] + q) == seq!['/'] + key + join_path(q),
    decreases q.len(),
{
    if q.len() == 0 {
        assert(join_path(Seq::<Seq<char>>::empty()) == Seq::<char>::empty());
        assert(seq![key] + q == seq![key]);
        assert(seq![key].drop_last() == Seq::<Seq<char>>::empty());
        assert(join_path(seq![key]) == Seq::<char>::empty() + seq!['/'] + key);
        assert(Seq::<char>::empty() + seq!['/'] + key == seq!['/'] + key + Seq::<char>::empty());
    } else {
        lemma_join_prepend(key, q.drop_last());
        assert((seq![key] + q).drop_last() == seq![key] + q.drop_last());
        assert((seq![key] + q).last() == q.last());
        assert(seq!['/'] + key + join_path(q.drop_last()) + seq!['/'] + q.last() == seq!['/'] + key
            + (join_path(q.drop_last()) + seq!['/'] + q.last()));
    }
}

proof fn lemma_unique_index(cs: Seq<(String, OSCQueryNode)>, key: Seq<char>, i: int)
    requires
        keys_unique(cs),
        0 <= i < cs.len(),
        cs[i].0@ == key,
    ensures
        has_key(cs, key),
        key_index(cs, key) == i,
{
    assert(has_key(cs, key));
    let j = key_index(cs, key);
    assert(cs[j].0@ == cs[i].0@);
}

fn new_container(full_path: String) -> (r: OSCQueryNode)
    ensures
        r.full_path == full_path,
        node_info(r) == container_info(),
        r.contents@.len() == 0,
        tree_wf(r),
        forall|q: Seq<Seq<char>>| (#[trigger] lookup(r, q)) is Some <==> q.len() == 0,
{
    let r = OSCQueryNode {
        description: None,
        full_path,
        access: 0,
        contents: Vec::new(),
        value_type: None,
        value: None,
    };
    assert forall|q: Seq<Seq<char>>| (#[trigger] lookup(r, q)) is Some <==> q.len() == 0 by {
        if q.len() > 0 {
            assert(!has_key(r.contents@, q[0]));
        }
    }
    r
}

/// Creates the nodes for the segments `segs[k..]` below `node` that are
/// missing, and sets the fields of `leaf` on the last of them. `path` is
/// the full path of `node`, from which those of new nodes are made.
fn insert_at(node: &mut OSCQueryNode, segs: &Vec<String>, k: usize, path: &String, leaf: Leaf)
    requires
        k <= segs.len(),
        tree_wf(*old(node)),
    ensures
        tree_wf(*final(node)),
        final(node).full_path == old(node).full_path,
        forall|q: Seq<Seq<char>>|
            (#[trigger] lookup(*final(node), q)) is Some <==> (lookup(*old(node), q) is Some
                || q.is_prefix_of(strings_view(segs@).skip(k as int))),
        forall|q: Seq<Seq<char>>| #[trigger]
            lookup(*final(node), q) is Some ==> inserted_ok(
                *old(node),
                lookup(*final(node), q)->0,
                q,
                strings_view(segs@).skip(k as int),
                path@,
                leaf_info(leaf),
            ),
    decreases segs.len() - k,
{
    let ghost before = *node;
    let ghost rest = strings_view(segs@).skip(k as int);
    if k == segs.len() {
        let ghost info = leaf_info(leaf);
        node.description = leaf.description;
        node.access = leaf.access;
        node.value_type = leaf.value_type;
        node.value = leaf.value;
        proof {
            assert(rest.len() == 0);
            assert forall|q: Seq<Seq<char>>| q.len() > 0 implies #[trigger] lookup(*node, q)
                == lookup(before, q) by {
                assert(node.contents@ == before.contents@);
            }
            assert(lookup(*node, Seq::<Seq<char>>::empty()) == Some(*node));
            assert(lookup(before, Seq::<Seq<char>>::empty()) == Some(before));
            assert forall|q: Seq<Seq<char>>|
                (#[trigger] lookup(*node, q)) is Some <==> (lookup(before, q) is Some
                    || q.is_prefix_of(rest)) by {
                if q.len() == 0 {
                    assert(q.is_prefix_of(rest));
                }
            }
            assert forall|q: Seq<Seq<char>>| #[trigger]
                lookup(*node, q) is Some implies inserted_ok(
                before,
                lookup(*node, q)->0,
                q,
                rest,
                path@,
                info,
            ) by {
                if q.len() == 0 {
                    assert(q == rest);
                }
            }
            assert forall|q: Seq<Seq<char>>| #[trigger]
                lookup(*node, q) is Some implies keys_unique(lookup(*node, q)->0.contents@) by {
                assert(keys_unique(lookup(before, q)->0.contents@));
            }
        }
        return;
    }
    let key = &segs[k];
    assert(rest[0] == key@);
    proof {
        reveal_strlit("/");
    }
    let mut child_path = path.clone();
    child_path.append("/");
    child_path.append(key.as_str());
    assert(child_path@ == path@ + seq!['/'] + key@);
    let found = find_key(&node.contents, key);
    let idx: usize = match found {
        Some(i) => i,
        None => {
            let fresh = new_container(child_path.clone());
            node.contents.push((key.clone(), fresh));
            node.contents.len() - 1
        },
    };
    let ghost mid = *node;
    let ghost child_old = mid.contents@[idx as int].1;
    proof {
        assert(keys_unique(before.contents@)) by {
            assert(lookup(before, Seq::<Seq<char>>::empty()) == Some(before));
        }
        if found is None {
            assert forall|i: int, j: int|
                0 <= i < mid.contents@.len() && 0 <= j < mid.contents@.len()
                    && #[trigger] mid.contents@[i].0@ == #[trigger] mid.contents@[j].0@ implies i
                == j by {
                if i < before.contents@.len() && j < before.contents@.len() {
                    assert(mid.contents@[i] == before.contents@[i]);
                    assert(mid.contents@[j] == before.contents@[j]);
                } else if i < before.contents@.len() {
                    assert(mid.contents@[i] == before.contents@[i]);
                    assert(before.contents@[i].0@ == key@);
                } else if j < before.contents@.len() {
                    assert(mid.contents@[j] == before.contents@[j]);
                    assert(before.contents@[j].0@ == key@);
                }
            }
        }
        assert(keys_unique(mid.contents@));
        lemma_unique_index(mid.contents@, key@, idx as int);
        // the child as it was: the old one, or a new container
        if found is Some {
            lemma_unique_index(before.contents@, key@, idx as int);
            assert forall|p: Seq<Seq<char>>| #[trigger]
                lookup(child_old, p) is Some implies keys_unique(
                lookup(child_old, p)->0.contents@,
            ) by {
                let q = seq![key@] + p;
                assert(q[0] == key@);
                assert(q.skip(1) == p);
                assert(lookup(before, q) == lookup(child_old, p));
            }
        }
    }
    let (kstr, mut child) = node.contents.remove(idx);
    insert_at(&mut child, segs, k + 1, &child_path, leaf);
    node.contents.insert(idx, (kstr, child));
    proof {
        assert(node.contents@ == mid.contents@.update(idx as int, (kstr, child)));
        assert(strings_view(segs@).skip(k + 1) == rest.skip(1));
        lemma_insert_step(
            before,
            mid,
            *node,
            child,
            key@,
            idx as int,
            found is Some,
            rest,
            path@,
            child_path@,
            leaf_info(leaf),
        );
    }
}

/// The step of `insert_at` below its node: the node `before`, the same
/// node `mid` with a child under `key` at `idx` (the old one or a new
/// container), and the node `after` in which that child is replaced by
/// `child_new`, the result of inserting the rest of the segments into it.
proof fn lemma_insert_step(
    before: OSCQueryNode,
    mid: OSCQueryNode,
    after: OSCQueryNode,
    child_new: OSCQueryNode,
    key: Seq<char>,
    idx: int,
    found: bool,
    rest: Seq<Seq<char>>,
    path: Seq<char>,
    child_path: Seq<char>,
    info: NodeInfo,
)
    requires
        tree_wf(before),
        keys_unique(before.contents@),
        keys_unique(mid.contents@),
        0 <= idx < mid.contents@.len(),
        mid.contents@[idx].0@ == key,
        found ==> mid.contents@ == before.contents@,
        !found ==> {
            &&& idx == before.contents@.len()
            &&& !has_key(before.contents@, key)
            &&& mid.contents@ == before.contents@.push(mid.contents@[idx])
            &&& forall|q: Seq<Seq<char>>| (#[trigger] lookup(mid.contents@[idx].1, q)) is Some <==> q.len() == 0
            &&& node_info(mid.contents@[idx].1) == container_info()
            &&& mid.contents@[idx].1.contents@.len() == 0
            &&& mid.contents@[idx].1.full_path@ == child_path
        },
        after.contents@ == mid.contents@.update(idx, (mid.contents@[idx].0, child_new)),
        after.description == before.description,
        after.access == before.access,
        after.value_type == before.value_type,
        after.value == before.value,
        after.full_path == before.full_path,
        rest.len() > 0,
        rest[0] == key,
        child_path == path + seq!['/'] + key,
        tree_wf(child_new),
        child_new.full_path == mid.contents@[idx].1.full_path,
        forall|q: Seq<Seq<char>>|
            (#[trigger] lookup(child_new, q)) is Some <==> (lookup(mid.contents@[idx].1, q) is Some
                || q.is_prefix_of(rest.skip(1))),
        forall|q: Seq<Seq<char>>| #[trigger]
            lookup(child_new, q) is Some ==> inserted_ok(
                mid.contents@[idx].1,
                lookup(child_new, q)->0,
                q,
                rest.skip(1),
                child_path,
                info,
            ),
    ensures
        tree_wf(after),
        forall|q: Seq<Seq<char>>|
            (#[trigger] lookup(after, q)) is Some <==> (lookup(before, q) is Some || q.is_prefix_of(
                rest,
            )),
        forall|q: Seq<Seq<char>>| #[trigger]
            lookup(after, q) is Some ==> inserted_ok(before, lookup(after, q)->0, q, rest, path, info),
{
    let child_old = mid.contents@[idx].1;
    let rest1 = rest.skip(1);
    assert(rest == seq![key] + rest1);
    // the keys do not change
    assert forall|i: int| 0 <= i < after.contents@.len() implies #[trigger] after.contents@[i].0@
        == mid.contents@[i].0@ by {}
    assert(keys_unique(after.contents@)) by {
        assert forall|i: int, j: int|
            0 <= i < after.contents@.len() && 0 <= j < after.contents@.len()
                && #[trigger] after.contents@[i].0@ == #[trigger] after.contents@[j].0@ implies i
            == j by {
            assert(mid.contents@[i].0@ == mid.contents@[j].0@);
        }
    }
    lemma_unique_index(after.contents@, key, idx);
    if found {
        lemma_unique_index(before.contents@, key, idx);
    }
    // away from `key`, nothing changes
    assert forall|q: Seq<Seq<char>>| q.len() > 0 && q[0] != key implies #[trigger] lookup(after, q)
        == lookup(before, q) by {
        if has_key(before.contents@, q[0]) {
            let j = key_index(before.contents@, q[0]);
            assert(mid.contents@[j] == before.contents@[j]);
            assert(after.contents@[j] == mid.contents@[j]);
            lemma_unique_index(after.contents@, q[0], j);
        } else {
            if has_key(after.contents@, q[0]) {
                let j = key_index(after.contents@, q[0]);
                assert(j != idx);
                assert(after.contents@[j] == mid.contents@[j]);
                if !found {
                    assert(j < before.contents@.len());
                }
                assert(mid.contents@[j] == before.contents@[j]);
            }
        }
    }
    // along `key`, the child answers
    assert forall|q: Seq<Seq<char>>| q.len() > 0 && q[0] == key implies #[trigger] lookup(after, q)
        == lookup(child_new, q.skip(1)) && lookup(before, q) == if found {
        lookup(child_old, q.skip(1))
    } else {
        None
    } by {}
    assert forall|q: Seq<Seq<char>>|
        (#[trigger] lookup(after, q)) is Some <==> (lookup(before, q) is Some || q.is_prefix_of(
            rest,
        )) by {
        if q.len() == 0 {
            assert(q.is_prefix_of(rest));
        } else if q[0] != key {
            assert(!q.is_prefix_of(rest));
        } else {
            let q1 = q.skip(1);
            assert(q.is_prefix_of(rest) <==> q1.is_prefix_of(rest1)) by {
                if q1.is_prefix_of(rest1) {
                    assert forall|i: int| 0 <= i < q.len() implies q[i] == rest[i] by {
                        if i > 0 {
                            assert(q[i] == q1[i - 1]);
                        }
                    }
                }
                if q.is_prefix_of(rest) {
                    assert forall|i: int| 0 <= i < q1.len() implies q1[i] == rest1[i] by {
                        assert(q1[i] == q[i + 1]);
                    }
                }
            }
            if !found {
                if q1.len() == 0 {
                    assert(q1.is_prefix_of(rest1));
                }
            }
        }
    }
    assert forall|q: Seq<Seq<char>>| #[trigger]
        lookup(after, q) is Some implies inserted_ok(before, lookup(after, q)->0, q, rest, path, info)
        by {
        if q.len() == 0 {
            assert(q != rest);
            assert(lookup(after, q) == Some(after));
            assert(lookup(before, q) == Some(before));
            assert(q.is_prefix_of(rest));
            let kb = keys_of(before.contents@);
            let ka = keys_of(after.contents@);
            assert(rest[q.len() as int] == key);
            if found {
                assert(kb[idx] == key);
                assert(kb.contains(key));
                assert(ka =~= kb);
            } else {
                assert(!kb.contains(key)) by {
                    if kb.contains(key) {
                        let j = choose|j: int| 0 <= j < kb.len() && kb[j] == key;
                        assert(before.contents@[j].0@ == key);
                    }
                }
                assert(ka =~= kb.push(key));
            }
        } else if q[0] != key {
            assert(q != rest);
            assert(!q.is_prefix_of(rest));
        } else {
            let q1 = q.skip(1);
            assert(q == seq![key] + q1);
            assert(q == rest <==> q1 == rest1);
            assert(q.is_prefix_of(rest) <==> q1.is_prefix_of(rest1)) by {
                if q1.is_prefix_of(rest1) {
                    assert forall|i: int| 0 <= i < q.len() implies q[i] == rest[i] by {
                        if i > 0 {
                            assert(q[i] == q1[i - 1]);
                        }
                    }
                }
                if q.is_prefix_of(rest) {
                    assert forall|i: int| 0 <= i < q1.len() implies q1[i] == rest1[i] by {
                        assert(q1[i] == q[i + 1]);
                    }
                }
            }
            if q1.len() < rest1.len() {
                assert(rest1[q1.len() as int] == rest[q.len() as int]);
            }
            if found {
                assert(keys_at(before, q) == keys_at(child_old, q1));
            } else {
                assert(keys_at(before, q) == Seq::<Seq<char>>::empty());
                if q1.len() == 0 {
                    assert(lookup(child_old, q1) == Some(child_old));
                    assert(keys_of(child_old.contents@) =~= Seq::<Seq<char>>::empty());
                }
                assert(keys_at(child_old, q1) == Seq::<Seq<char>>::empty());
            }
            lemma_join_prepend(key, q1);
            assert(path + join_path(q) == child_path + join_path(q1));
            assert(inserted_ok(child_old, lookup(child_new, q1)->0, q1, rest1, child_path, info));
            if q1.len() == 0 {
                assert(lookup(child_old, q1) == Some(child_old));
                assert(lookup(child_new, q1) == Some(child_new));
                assert(join_path(q1) == Seq::<char>::empty());
                assert(child_path + join_path(q1) == child_path);
            }
        }
    }
    assert forall|q: Seq<Seq<char>>| #[trigger]
        lookup(after, q) is Some implies keys_unique(lookup(after, q)->0.contents@) by {
        if q.len() == 0 {
            assert(lookup(after, q) == Some(after));
        } else if q[0] != key {
            assert(lookup(before, q) is Some);
        } else {
            assert(lookup(after, q) == lookup(child_new, q.skip(1)));
        }
    }
}

proof fn lemma_last_writer(ms: Seq<OSCMethod>, q: Seq<Seq<char>>)
    ensures
        last_writer(ms, q) matches Some(i) ==> 0 <= i < ms.len() && method_segments(ms[i]) == q,
    decreases ms.len(),
{
    if ms.len() > 0 {
        lemma_last_writer(ms.drop_last(), q);
    }
}

proof fn lemma_child_keys_in_tree(ms: Seq<OSCMethod>, p: Seq<Seq<char>>)
    ensures
        child_keys(ms, p).len() > 0 ==> in_tree(ms, p),
    decreases ms.len(),
{
    if ms.len() > 0 {
        let prev = ms.drop_last();
        lemma_child_keys_in_tree(prev, p);
        if child_keys(ms, p).len() > 0 && p.len() > 0 {
            if child_keys(prev, p).len() > 0 {
                let i = choose|i: int| 0 <= i < prev.len() && p.is_prefix_of(#[trigger] method_segments(prev[i]));
                assert(ms[i] == prev[i]);
                assert(p.is_prefix_of(method_segments(ms[i])));
            } else {
                assert(p.is_prefix_of(method_segments(ms[ms.len() - 1])));
            }
        }
    }
}

/// One registration more: inserting the segments of `m` into the tree of
/// `ms` gives the tree of `ms` followed by `m`.
proof fn lemma_build_step(before: OSCQueryNode, after: OSCQueryNode, ms: Seq<OSCMethod>, m: OSCMethod)
    requires
        describes(before, ms),
        tree_wf(after),
        after.full_path == before.full_path,
        forall|q: Seq<Seq<char>>|
            (#[trigger] lookup(after, q)) is Some <==> (lookup(before, q) is Some || q.is_prefix_of(
                method_segments(m),
            )),
        forall|q: Seq<Seq<char>>| #[trigger]
            lookup(after, q) is Some ==> inserted_ok(
                before,
                lookup(after, q)->0,
                q,
                method_segments(m),
                Seq::empty(),
                method_info(m),
            ),
    ensures
        describes(after, ms.push(m)),
{
    let ms2 = ms.push(m);
    assert(ms2.drop_last() == ms);
    assert(ms2.last() == m);
    assert forall|i: int| 0 <= i < ms.len() implies #[trigger] ms2[i] == ms[i] by {}
    assert forall|q: Seq<Seq<char>>| (#[trigger] lookup(after, q)) is Some <==> in_tree(ms2, q) by {
        if in_tree(ms2, q) && q.len() > 0 {
            let i = choose|i: int| 0 <= i < ms2.len() && q.is_prefix_of(#[trigger] method_segments(ms2[i]));
            if i < ms.len() {
                assert(q.is_prefix_of(method_segments(ms[i])));
            }
        }
        if in_tree(ms, q) && q.len() > 0 {
            let i = choose|i: int| 0 <= i < ms.len() && q.is_prefix_of(#[trigger] method_segments(ms[i]));
            assert(q.is_prefix_of(method_segments(ms2[i])));
        }
        if q.is_prefix_of(method_segments(m)) {
            assert(q.is_prefix_of(method_segments(ms2[ms.len() as int])));
        }
    }
    assert forall|q: Seq<Seq<char>>| #[trigger]
        lookup(after, q) is Some && q.len() > 0 implies lookup(after, q)->0.full_path@ == join_path(q) by {
        assert(Seq::<char>::empty() + join_path(q) == join_path(q));
    }
    assert forall|q: Seq<Seq<char>>| #[trigger]
        lookup(after, q) is Some implies keys_of(lookup(after, q)->0.contents@) == child_keys(ms2, q) by {
        lemma_child_keys_in_tree(ms, q);
        if lookup(before, q) is None {
            assert(!in_tree(ms, q));
            assert(child_keys(ms, q) =~= Seq::<Seq<char>>::empty());
        }
    }
    assert forall|q: Seq<Seq<char>>| #[trigger]
        lookup(after, q) is Some implies node_info(lookup(after, q)->0) == expected_info(ms2, q) by {
        lemma_last_writer(ms, q);
        if q != method_segments(m) {
            assert(last_writer(ms2, q) == last_writer(ms, q));
            if lookup(before, q) is None {
                if last_writer(ms, q) is Some {
                    let i = last_writer(ms, q)->0;
                    assert(q.is_prefix_of(method_segments(ms[i])));
                }
                assert(q.len() > 0);
            }
        }
    }
}

/// Builds the description tree of the registered methods: a root at `/`,
/// and a node for each prefix of each address. The node of an address
/// carries the access, description, type and value of its registration
/// (of the last one, where two addresses have the same segments); every
/// other node is a container with access 0.
pub fn build_root_node(methods: &Vec<OSCMethod>) -> (r: OSCQueryNode)
    ensures
        describes(r, methods@),
{
    proof {
        reveal_strlit("Root Container");
        reveal_strlit("/");
    }
    let mut root = OSCQueryNode {
        description: Some(String::from_str("Root Container")),
        full_path: String::from_str("/"),
        access: 0,
        contents: Vec::new(),
        value_type: None,
        value: None,
    };
    proof {
        assert(root.description->0@ =~= root_description());
        assert(root.full_path@ =~= seq!['/']);
        assert(methods@.take(0) == Seq::<OSCMethod>::empty());
        assert forall|q: Seq<Seq<char>>| (#[trigger] lookup(root, q)) is Some <==> q.len() == 0 by {
            if q.len() > 0 {
                assert(!has_key(root.contents@, q[0]));
            }
        }
        assert forall|q: Seq<Seq<char>>| #[trigger] lookup(root, q) is Some implies keys_unique(
            lookup(root, q)->0.contents@,
        ) by {
            assert(lookup(root, q) == Some(root));
        }
        assert forall|q: Seq<Seq<char>>| #[trigger] lookup(root, q) is Some implies keys_of(
            lookup(root, q)->0.contents@,
        ) == child_keys(Seq::<OSCMethod>::empty(), q) by {
            assert(lookup(root, q) == Some(root));
            assert(keys_of(root.contents@) =~= Seq::<Seq<char>>::empty());
        }
        assert forall|q: Seq<Seq<char>>| #[trigger] lookup(root, q) is Some implies node_info(
            lookup(root, q)->0,
        ) == expected_info(Seq::<OSCMethod>::empty(), q) by {
            assert(lookup(root, q) == Some(root));
        }
    }
    let no_path = String::new();
    let mut j: usize = 0;
    while j < methods.len()
        invariant
            j <= methods.len(),
            no_path@ == Seq::<char>::empty(),
            describes(root, methods@.take(j as int)),
        decreases methods.len() - j,
    {
        let m = &methods[j];
        let segs = split_path(m.address.as_str());
        let leaf = leaf_of(m);
        let ghost before = root;
        insert_at(&mut root, &segs, 0, &no_path, leaf);
        proof {
            assert(strings_view(segs@).skip(0) == method_segments(*m));
            assert(methods@.take(j + 1) == methods@.take(j as int).push(*m));
            lemma_build_step(before, root, methods@.take(j as int), *m);
        }
        j = j + 1;
    }
    assert(methods@.take(j as int) == methods@);
    root
}

proof fn lemma_lookup_concat(n: OSCQueryNode, a: Seq<Seq<char>>, b: Seq<Seq<char>>)
    ensures
        lookup(n, a + b) == match lookup(n, a) {
            Some(m) => lookup(m, b),
            None => None,
        },
    decreases a.len(),
{
    if a.len() > 0 {
        assert((a + b)[0] == a[0]);
        assert((a + b).skip(1) == a.skip(1) + b);
        if has_key(n.contents@, a[0]) {
            lemma_lookup_concat(n.contents@[key_index(n.contents@, a[0])].1, a.skip(1), b);
        }
    } else {
        assert(a + b == b);
    }
}

/// The node at the segments of `address`, found by following one child
/// per segment from `root`; nothing where a segment has no child.
pub fn resolve<'a>(root: &'a OSCQueryNode, address: &str) -> (r: Option<&'a OSCQueryNode>)
    requires
        tree_wf(*root),
    ensures
        match r {
            Some(n) => lookup(*root, path_segments(address@)) == Some(*n),
            None => lookup(*root, path_segments(address@)) is None,
        },
{
    let segs = split_path(address);
    let ghost p = strings_view(segs@);
    let mut cur: &OSCQueryNode = root;
    let mut i: usize = 0;
    assert(p.take(0) == Seq::<Seq<char>>::empty());
    while i < segs.len()
        invariant
            p == strings_view(segs@),
            p == path_segments(address@),
            tree_wf(*root),
            i <= segs.len(),
            lookup(*root, p.take(i as int)) == Some(*cur),
        decreases segs.len() - i,
    {
        let ghost prefix = p.take(i as int);
        let ghost one = seq![p[i as int]];
        proof {
            assert(keys_unique(cur.contents@));
            assert(p.take(i + 1) == prefix + one);
            lemma_lookup_concat(*root, prefix, one);
            assert(one.skip(1) == Seq::<Seq<char>>::empty());
        }
        match find_key(&cur.contents, &segs[i]) {
            Some(idx) => {
                let ghost parent = *cur;
                proof {
                    lemma_unique_index(cur.contents@, p[i as int], idx as int);
                }
                cur = &cur.contents[idx].1;
                assert(one[0] == p[i as int]);
                assert(lookup(*cur, one.skip(1)) == Some(*cur));
                assert(lookup(parent, one) == Some(*cur));
            },
            None => {
                proof {
                    lemma_lookup_concat(*root, p.take(i + 1), p.skip(i + 1));
                    assert(p.take(i + 1) + p.skip(i + 1) == p);
                }
                return None;
            },
        }
        i = i + 1;
    }
    assert(p.take(i as int) == p);
    Some(cur)
}

/// Every prefix of a registered address has a node, whose full path joins
/// the segments of that prefix; a prefix that is not registered itself is
/// a container, with access 0.
pub proof fn lemma_tree_complete(root: OSCQueryNode, ms: Seq<OSCMethod>, i: int, p: Seq<Seq<char>>)
    requires
        describes(root, ms),
        0 <= i < ms.len(),
        p.is_prefix_of(method_segments(ms[i])),
    ensures
        lookup(root, p) is Some,
        p.len() > 0 ==> lookup(root, p)->0.full_path@ == join_path(p),
        p.len() > 0 && last_writer(ms, p) is None ==> lookup(root, p)->0.access == 0,
{
    assert(in_tree(ms, p));
}

/// The access flags of a node: those of its registration's access type,
/// or 0 for a container.
pub proof fn lemma_access_mapping(root: OSCQueryNode, ms: Seq<OSCMethod>, p: Seq<Seq<char>>)
    requires
        describes(root, ms),
        lookup(root, p) is Some,
    ensures
        lookup(root, p)->0.access == match last_writer(ms, p) {
            Some(i) => access_code(ms[i].ad_type),
            None => 0,
        },
{
}

} // verus!
