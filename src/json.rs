use crate::models::{OSCQueryHostInfo, OSCQueryNode, OSCQueryValue};
use crate::text::{decimal_string, decimal_text};
use crate::tree::{
    describes, key_index, keys_of, keys_unique, lookup, node_info, tree_wf, value_view,
};
use vstd::prelude::*;

verus! {

/// The JSON text that `serde_json` writes for a number that it reads
/// from `s`, or nothing where `s` is not a JSON number.
pub uninterp spec fn number_text(s: Seq<char>) -> Option<Seq<char>>;

/// The JSON string literal that `serde_json` writes for `s`: quoted, with
/// its special characters escaped.
pub uninterp spec fn quoted(s: Seq<char>) -> Seq<char>;

/// Relies on `serde_json::Number`'s `FromStr` to read a number written in
/// JSON syntax, and on its `Display` to write that number back as JSON.
/// The result depends on `s` alone.
#[verifier::external_body]
pub(crate) fn json_number_text(s: &str) -> (r: Option<String>)
    ensures
        match r {
            Some(t) => number_text(s@) == Some(t@),
            None => number_text(s@) is None,
        },
{
    match s.parse::<serde_json::Number>() {
        Ok(n) => Some(n.to_string()),
        Err(_) => None,
    }
}

/// Relies on `serde_json::to_string` for a `str`: a JSON string literal,
/// which depends on `s` alone. Writing a string never fails.
#[verifier::external_body]
pub(crate) fn json_quote(s: &str) -> (r: String)
    ensures
        r@ == quoted(s@),
{
    serde_json::to_string(s).unwrap_or_default()
}

/// The JSON text of a published value.
pub open spec fn value_json(v: OSCQueryValue) -> Seq<char> {
    match v {
        OSCQueryValue::Bool(b) => if b {
            "true"@
        } else {
            "false"@
        },
        OSCQueryValue::Number(t) => t@,
        OSCQueryValue::Text(t) => quoted(t@),
    }
}

/// The JSON text of a node up to its contents: its description, if any,
/// its full path and its access.
pub open spec fn node_head(n: OSCQueryNode) -> Seq<char> {
    let d = match n.description {
        Some(d) => "\"DESCRIPTION\":"@ + quoted(d@) + ","@,
        None => Seq::empty(),
    };
    "{"@ + d + "\"FULL_PATH\":"@ + quoted(n.full_path@) + ",\"ACCESS\":"@ + decimal_text(
        n.access as nat,
    )
}

/// The JSON text of a node after its contents: its type and its value, if
/// any, and the closing brace.
pub open spec fn node_tail(n: OSCQueryNode) -> Seq<char> {
    let t = match n.value_type {
        Some(t) => ",\"TYPE\":"@ + quoted(t@),
        None => Seq::empty(),
    };
    let v = match n.value {
        Some(v) => ",\"VALUE\":["@ + value_json(v) + "]"@,
        None => Seq::empty(),
    };
    t + v + "}"@
}

/// The JSON members `"segment":{...}` of the children `cs`, separated by
/// commas.
pub open spec fn entries_json(cs: Seq<(String, OSCQueryNode)>) -> Seq<char>
    decreases cs,
{
    if cs.len() == 0 {
        Seq::empty()
    } else {
        let m = cs.last().1;
        let sep = if cs.len() > 1 {
            ","@
        } else {
            Seq::empty()
        };
        let inner = if m.contents@.len() > 0 {
            ",\"CONTENTS\":{"@ + entries_json(m.contents@) + "}"@
        } else {
            Seq::empty()
        };
        entries_json(cs.drop_last()) + sep + quoted(cs.last().0@) + ":"@ + node_head(m) + inner
            + node_tail(m)
    }
}

/// The JSON members of the children of `n` inside `"CONTENTS"`, where it
/// has children.
pub open spec fn contents_json(n: OSCQueryNode) -> Seq<char> {
    if n.contents@.len() > 0 {
        ",\"CONTENTS\":{"@ + entries_json(n.contents@) + "}"@
    } else {
        Seq::empty()
    }
}

/// The JSON object of a node: upper-case keys, empty fields left out, the
/// children as an object from segment to node.
pub open spec fn node_json(n: OSCQueryNode) -> Seq<char> {
    node_head(n) + contents_json(n) + node_tail(n)
}

fn write_head(n: &OSCQueryNode, out: &mut String)
    ensures
        final(out)@ == old(out)@ + node_head(*n),
{
    let ghost start = out@;
    out.append("{");
    let ghost d: Seq<char> = Seq::empty();
    match &n.description {
        Some(desc) => {
            out.append("\"DESCRIPTION\":");
            let q = json_quote(desc.as_str());
            out.append(q.as_str());
            out.append(",");
            proof {
                d = "\"DESCRIPTION\":"@ + quoted(desc@) + ","@;
            }
        },
        None => {},
    }
    assert(out@ =~= start + "{"@ + d);
    out.append("\"FULL_PATH\":");
    let p = json_quote(n.full_path.as_str());
    out.append(p.as_str());
    out.append(",\"ACCESS\":");
    let a = decimal_string(n.access as u32);
    out.append(a.as_str());
    assert(out@ =~= start + node_head(*n));
}

fn write_tail(n: &OSCQueryNode, out: &mut String)
    ensures
        final(out)@ == old(out)@ + node_tail(*n),
{
    let ghost start = out@;
    let ghost t: Seq<char> = Seq::empty();
    match &n.value_type {
        Some(vt) => {
            out.append(",\"TYPE\":");
            let q = json_quote(vt.as_str());
            out.append(q.as_str());
            proof {
                t = ",\"TYPE\":"@ + quoted(vt@);
            }
        },
        None => {},
    }
    assert(out@ =~= start + t);
    let ghost v: Seq<char> = Seq::empty();
    match &n.value {
        Some(val) => {
            out.append(",\"VALUE\":[");
            match val {
                OSCQueryValue::Bool(b) => {
                    if *b {
                        out.append("true");
                    } else {
                        out.append("false");
                    }
                },
                OSCQueryValue::Number(num) => {
                    out.append(num.as_str());
                },
                OSCQueryValue::Text(text) => {
                    let q = json_quote(text.as_str());
                    out.append(q.as_str());
                },
            }
            out.append("]");
            proof {
                v = ",\"VALUE\":["@ + value_json(*val) + "]"@;
            }
        },
        None => {},
    }
    assert(out@ =~= start + t + v);
    out.append("}");
    assert(out@ =~= start + node_tail(*n));
}

/// Writes the JSON object of `n` at the end of `out`.
fn write_node(n: &OSCQueryNode, out: &mut String)
    ensures
        final(out)@ == old(out)@ + node_json(*n),
    decreases n,
{
    let ghost start = out@;
    write_head(n, out);
    if n.contents.len() > 0 {
        out.append(",\"CONTENTS\":{");
        let ghost before = out@;
        let mut i: usize = 0;
        assert(n.contents@.take(0) == Seq::<(String, OSCQueryNode)>::empty());
        while i < n.contents.len()
            invariant
                i <= n.contents.len(),
                out@ == before + entries_json(n.contents@.take(i as int)),
            decreases n.contents.len() - i,
        {
            let ghost cs = n.contents@.take(i + 1);
            assert(cs.drop_last() == n.contents@.take(i as int));
            assert(cs.last() == n.contents@[i as int]);
            let ghost mid = out@;
            if i > 0 {
                out.append(",");
            }
            let q = json_quote(n.contents[i].0.as_str());
            out.append(q.as_str());
            out.append(":");
            write_node(&n.contents[i].1, out);
            proof {
                let m = n.contents@[i as int].1;
                let sep = if i > 0 {
                    ","@
                } else {
                    Seq::<char>::empty()
                };
                assert(out@ =~= mid + sep + quoted(n.contents@[i as int].0@) + ":"@ + node_json(m));
                assert(entries_json(cs) =~= entries_json(n.contents@.take(i as int)) + sep + quoted(
                    n.contents@[i as int].0@,
                ) + ":"@ + node_json(m));
            }
            i = i + 1;
        }
        assert(n.contents@.take(i as int) == n.contents@);
        out.append("}");
    }
    write_tail(n, out);
    assert(out@ =~= start + node_json(*n));
}

/// The JSON text of a node and everything below it.
pub fn node_to_json(n: &OSCQueryNode) -> (r: String)
    ensures
        r@ == node_json(*n),
{
    let mut out = String::new();
    write_node(n, &mut out);
    assert(out@ =~= node_json(*n));
    out
}

pub open spec fn bool_json(b: bool) -> Seq<char> {
    if b {
        "true"@
    } else {
        "false"@
    }
}

/// The JSON members `"name":true` of the extension flags `es`.
pub open spec fn extensions_json(es: Seq<(String, bool)>) -> Seq<char>
    decreases es.len(),
{
    if es.len() == 0 {
        Seq::empty()
    } else {
        let sep = if es.len() > 1 {
            ","@
        } else {
            Seq::empty()
        };
        extensions_json(es.drop_last()) + sep + quoted(es.last().0@) + ":"@ + bool_json(es.last().1)
    }
}

/// The JSON object of the host information, with upper-case keys.
pub open spec fn host_info_text(h: OSCQueryHostInfo) -> Seq<char> {
    "{\"NAME\":"@ + quoted(h.name@) + ",\"OSC_TRANSPORT\":"@ + quoted(h.osc_transport@)
        + ",\"OSC_IP\":"@ + quoted(h.osc_ip@) + ",\"OSC_PORT\":"@ + decimal_text(
        h.osc_port as nat,
    ) + ",\"EXTENSIONS\":{"@ + extensions_json(h.extensions@) + "}}"@
}

/// The JSON text of the host information.
pub fn host_info_json(h: &OSCQueryHostInfo) -> (r: String)
    ensures
        r@ == host_info_text(*h),
{
    let mut out = String::new();
    out.append("{\"NAME\":");
    out.append(json_quote(h.name.as_str()).as_str());
    out.append(",\"OSC_TRANSPORT\":");
    out.append(json_quote(h.osc_transport.as_str()).as_str());
    out.append(",\"OSC_IP\":");
    out.append(json_quote(h.osc_ip.as_str()).as_str());
    out.append(",\"OSC_PORT\":");
    out.append(decimal_string(h.osc_port as u32).as_str());
    out.append(",\"EXTENSIONS\":{");
    let ghost before = out@;
    let mut i: usize = 0;
    assert(h.extensions@.take(0) == Seq::<(String, bool)>::empty());
    while i < h.extensions.len()
        invariant
            i <= h.extensions.len(),
            out@ == before + extensions_json(h.extensions@.take(i as int)),
        decreases h.extensions.len() - i,
    {
        let ghost es = h.extensions@.take(i + 1);
        assert(es.drop_last() == h.extensions@.take(i as int));
        assert(es.last() == h.extensions@[i as int]);
        let ghost mid = out@;
        if i > 0 {
            out.append(",");
        }
        out.append(json_quote(h.extensions[i].0.as_str()).as_str());
        out.append(":");
        if h.extensions[i].1 {
            out.append("true");
        } else {
            out.append("false");
        }
        proof {
            let sep = if i > 0 {
                ","@
            } else {
                Seq::<char>::empty()
            };
            assert(out@ =~= mid + sep + quoted(h.extensions@[i as int].0@) + ":"@ + bool_json(
                h.extensions@[i as int].1,
            ));
        }
        i = i + 1;
    }
    assert(h.extensions@.take(i as int) == h.extensions@);
    out.append("}}");
    assert(out@ =~= host_info_text(*h));
    out
}

/// `a` and `b` hold the same at every path: the same nodes, with the
/// same fields, full paths and child segments in the same order.
pub open spec fn same_tree(a: OSCQueryNode, b: OSCQueryNode) -> bool {
    forall|p: Seq<Seq<char>>|
        #![trigger lookup(a, p)]
        #![trigger lookup(b, p)]
        (lookup(a, p) is Some <==> lookup(b, p) is Some) && (lookup(a, p) is Some ==> {
            &&& node_info(lookup(a, p)->0) == node_info(lookup(b, p)->0)
            &&& lookup(a, p)->0.full_path@ == lookup(b, p)->0.full_path@
            &&& keys_of(lookup(a, p)->0.contents@) == keys_of(lookup(b, p)->0.contents@)
        })
}

/// The entries `csa` and `csb` have the same segments, in the same order,
/// and hold the same trees.
pub open spec fn same_entries(csa: Seq<(String, OSCQueryNode)>, csb: Seq<(String, OSCQueryNode)>) -> bool {
    &&& csa.len() == csb.len()
    &&& forall|i: int|
        0 <= i < csa.len() ==> {
            &&& #[trigger] csa[i].0@ == csb[i].0@
            &&& same_tree(csa[i].1, csb[i].1)
            &&& tree_wf(csa[i].1)
            &&& tree_wf(csb[i].1)
        }
}

proof fn lemma_child_is_lookup(n: OSCQueryNode, i: int, p: Seq<Seq<char>>)
    requires
        keys_unique(n.contents@),
        0 <= i < n.contents@.len(),
    ensures
        lookup(n, seq![n.contents@[i].0@] + p) == lookup(n.contents@[i].1, p),
{
    let k = n.contents@[i].0@;
    let q = seq![k] + p;
    assert(q[0] == k);
    assert(q.skip(1) == p);
    assert(exists|j: int| 0 <= j < n.contents@.len() && #[trigger] n.contents@[j].0@ == k);
    let j = key_index(n.contents@, k);
    assert(n.contents@[j].0@ == n.contents@[i].0@);
}

proof fn lemma_same_children(a: OSCQueryNode, b: OSCQueryNode)
    requires
        tree_wf(a),
        tree_wf(b),
        same_tree(a, b),
    ensures
        same_entries(a.contents@, b.contents@),
{
    let e = Seq::<Seq<char>>::empty();
    assert(lookup(a, e) == Some(a));
    assert(lookup(b, e) == Some(b));
    let ka = keys_of(a.contents@);
    let kb = keys_of(b.contents@);
    assert(ka == kb);
    assert(keys_unique(a.contents@));
    assert(keys_unique(b.contents@));
    assert forall|i: int| 0 <= i < a.contents@.len() implies {
        &&& #[trigger] a.contents@[i].0@ == b.contents@[i].0@
        &&& same_tree(a.contents@[i].1, b.contents@[i].1)
        &&& tree_wf(a.contents@[i].1)
        &&& tree_wf(b.contents@[i].1)
    } by {
        assert(ka[i] == kb[i]);
        let k = a.contents@[i].0@;
        let ca = a.contents@[i].1;
        let cb = b.contents@[i].1;
        assert forall|p: Seq<Seq<char>>| #![trigger lookup(ca, p)] #![trigger lookup(cb, p)]
            lookup(ca, p) == lookup(a, seq![k] + p) && lookup(cb, p) == lookup(b, seq![k] + p) by {
            lemma_child_is_lookup(a, i, p);
            lemma_child_is_lookup(b, i, p);
        }
        assert forall|p: Seq<Seq<char>>| #![trigger lookup(ca, p)] #![trigger lookup(cb, p)]
            (lookup(ca, p) is Some <==> lookup(cb, p) is Some) && (lookup(ca, p) is Some ==> {
                &&& node_info(lookup(ca, p)->0) == node_info(lookup(cb, p)->0)
                &&& lookup(ca, p)->0.full_path@ == lookup(cb, p)->0.full_path@
                &&& keys_of(lookup(ca, p)->0.contents@) == keys_of(lookup(cb, p)->0.contents@)
            }) by {
            assert(lookup(ca, p) == lookup(a, seq![k] + p));
            assert(lookup(cb, p) == lookup(b, seq![k] + p));
        }
        assert forall|p: Seq<Seq<char>>| #[trigger] lookup(ca, p) is Some implies keys_unique(
            lookup(ca, p)->0.contents@,
        ) by {
            assert(lookup(ca, p) == lookup(a, seq![k] + p));
        }
        assert forall|p: Seq<Seq<char>>| #[trigger] lookup(cb, p) is Some implies keys_unique(
            lookup(cb, p)->0.contents@,
        ) by {
            assert(lookup(cb, p) == lookup(b, seq![k] + p));
        }
    }
}

proof fn lemma_same_value_json(va: OSCQueryValue, vb: OSCQueryValue)
    requires
        value_view(va) == value_view(vb),
    ensures
        value_json(va) == value_json(vb),
{
}

proof fn lemma_same_node_parts(a: OSCQueryNode, b: OSCQueryNode)
    requires
        same_tree(a, b),
    ensures
        node_head(a) == node_head(b),
        node_tail(a) == node_tail(b),
        a.contents@.len() == b.contents@.len(),
{
    let e = Seq::<Seq<char>>::empty();
    assert(lookup(a, e) == Some(a));
    assert(lookup(b, e) == Some(b));
    assert(node_info(a) == node_info(b));
    assert(keys_of(a.contents@).len() == keys_of(b.contents@).len());
    if a.value is Some {
        lemma_same_value_json(a.value->0, b.value->0);
    }
}

proof fn lemma_same_entries_json(csa: Seq<(String, OSCQueryNode)>, csb: Seq<(String, OSCQueryNode)>)
    requires
        same_entries(csa, csb),
    ensures
        entries_json(csa) == entries_json(csb),
    decreases csa,
{
    if csa.len() > 0 {
        let n = csa.len() - 1;
        assert(same_entries(csa.drop_last(), csb.drop_last())) by {
            assert forall|i: int| 0 <= i < csa.drop_last().len() implies {
                &&& #[trigger] csa.drop_last()[i].0@ == csb.drop_last()[i].0@
                &&& same_tree(csa.drop_last()[i].1, csb.drop_last()[i].1)
                &&& tree_wf(csa.drop_last()[i].1)
                &&& tree_wf(csb.drop_last()[i].1)
            } by {
                assert(csa[i].0@ == csb[i].0@);
            }
        }
        lemma_same_entries_json(csa.drop_last(), csb.drop_last());
        assert(csa[n].0@ == csb[n].0@);
        let ma = csa.last().1;
        let mb = csb.last().1;
        lemma_same_node_parts(ma, mb);
        if ma.contents@.len() > 0 {
            lemma_same_children(ma, mb);
            lemma_same_entries_json(ma.contents@, mb.contents@);
        }
    }
}

/// The JSON of a node depends only on what the tree holds at each path.
pub proof fn lemma_same_tree_json(a: OSCQueryNode, b: OSCQueryNode)
    requires
        tree_wf(a),
        tree_wf(b),
        same_tree(a, b),
    ensures
        node_json(a) == node_json(b),
{
    lemma_same_node_parts(a, b);
    if a.contents@.len() > 0 {
        lemma_same_children(a, b);
        lemma_same_entries_json(a.contents@, b.contents@);
    }
}

/// Building the description tree twice from the same registrations gives
/// the same JSON, byte for byte.
pub proof fn lemma_rebuild_same_json(ms: Seq<crate::models::OSCMethod>, a: OSCQueryNode, b: OSCQueryNode)
    requires
        describes(a, ms),
        describes(b, ms),
    ensures
        node_json(a) == node_json(b),
{
    assert forall|p: Seq<Seq<char>>| #![trigger lookup(a, p)] #![trigger lookup(b, p)]
        (lookup(a, p) is Some <==> lookup(b, p) is Some) && (lookup(a, p) is Some ==> {
            &&& node_info(lookup(a, p)->0) == node_info(lookup(b, p)->0)
            &&& lookup(a, p)->0.full_path@ == lookup(b, p)->0.full_path@
            &&& keys_of(lookup(a, p)->0.contents@) == keys_of(lookup(b, p)->0.contents@)
        }) by {
        if p.len() == 0 {
            assert(lookup(a, p) == Some(a));
            assert(lookup(b, p) == Some(b));
        }
    }
    lemma_same_tree_json(a, b);
}

} // verus!
