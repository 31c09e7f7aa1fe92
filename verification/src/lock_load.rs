use vstd::prelude::*;

use crate::error::{concat3, lit, Error};
use crate::lock::{
    clone_opt_string, clone_string_vec, map_of, pairs_view, str_eq, unique_keys, FlakeLock,
    InputRefView, InputReference, Locked, LockedView, Node, NodeView, Original, OriginalView,
    RootNode,
};

verus! {

/// How a lock document encodes one input reference: a bare node name, or a
/// multi-segment follows-path.
#[derive(Debug, PartialEq, Eq)]
pub enum InputValue {
    Scalar(String),
    List(Vec<String>),
}

/// The mathematical value of an encoded input reference.
pub enum InputValueView {
    Scalar(Seq<char>),
    List(Seq<Seq<char>>),
}

impl View for InputValue {
    type V = InputValueView;

    open spec fn view(&self) -> InputValueView {
        match self {
            InputValue::Scalar(s) => InputValueView::Scalar(s@),
            InputValue::List(p) => InputValueView::List(p.deep_view()),
        }
    }
}

impl Clone for InputValue {
    fn clone(&self) -> (r: Self)
        ensures
            r@ == self@,
    {
        match self {
            InputValue::Scalar(s) => InputValue::Scalar(s.clone()),
            InputValue::List(p) => InputValue::List(clone_string_vec(p)),
        }
    }
}

/// One node as it stands in the document: every attribute still optional.
#[derive(Debug, PartialEq, Eq)]
pub struct DocNode {
    pub flake: Option<bool>,
    pub inputs: Option<Vec<(String, InputValue)>>,
    pub locked: Option<Locked>,
    pub original: Option<Original>,
}

/// The mathematical value of a document node.
pub struct DocNodeView {
    pub flake: Option<bool>,
    pub inputs: Option<Seq<(Seq<char>, InputValueView)>>,
    pub locked: Option<LockedView>,
    pub original: Option<OriginalView>,
}

impl View for DocNode {
    type V = DocNodeView;

    open spec fn view(&self) -> DocNodeView {
        DocNodeView {
            flake: self.flake,
            inputs: match &self.inputs {
                Some(v) => Some(pairs_view(v@)),
                None => None,
            },
            locked: match &self.locked {
                Some(l) => Some(l@),
                None => None,
            },
            original: match &self.original {
                Some(o) => Some(o@),
                None => None,
            },
        }
    }
}

/// A parsed lock document, before validation: the name of the root node and
/// the raw node list.
#[derive(Debug, PartialEq, Eq)]
pub struct LockDocument {
    pub root: String,
    pub nodes: Vec<(String, DocNode)>,
}

/// The mathematical value of a lock document.
pub struct LockDocumentView {
    pub root: Seq<char>,
    pub nodes: Seq<(Seq<char>, DocNodeView)>,
}

impl View for LockDocument {
    type V = LockDocumentView;

    open spec fn view(&self) -> LockDocumentView {
        LockDocumentView { root: self.root@, nodes: pairs_view(self.nodes@) }
    }
}

/// The reference an encoded input value denotes.
pub open spec fn ref_of_value(v: InputValueView) -> InputRefView {
    match v {
        InputValueView::Scalar(s) => InputRefView::Alias(s),
        InputValueView::List(p) => InputRefView::Path(p),
    }
}

/// The node name a scalar input value aliases.
pub open spec fn scalar_of(v: InputValueView) -> Seq<char> {
    match v {
        InputValueView::Scalar(s) => s,
        InputValueView::List(_) => Seq::empty(),
    }
}

/// Converts an optional encoded input mapping to the reference mapping it
/// denotes.
pub open spec fn conv_inputs(o: Option<Seq<(Seq<char>, InputValueView)>>) -> Seq<
    (Seq<char>, InputRefView),
> {
    match o {
        None => Seq::empty(),
        Some(v) => v.map_values(|p: (Seq<char>, InputValueView)| (p.0, ref_of_value(p.1))),
    }
}

/// Whether both descriptors stand on a document node.
pub open spec fn doc_node_ok(n: DocNodeView) -> bool {
    n.locked is Some && n.original is Some
}

/// The domain node a valid document node denotes.
pub open spec fn conv_node(n: DocNodeView) -> NodeView {
    NodeView {
        inputs: conv_inputs(n.inputs),
        locked: n.locked->0,
        original: n.original->0,
    }
}

/// The domain node list a document denotes: every node but the root,
/// in document order, each converted.
pub open spec fn conv_nodes(s: Seq<(Seq<char>, DocNodeView)>, root: Seq<char>) -> Seq<
    (Seq<char>, NodeView),
>
    decreases s.len(),
{
    if s.len() == 0 {
        Seq::empty()
    } else {
        conv_nodes(s.drop_last(), root) + (if s.last().0 == root {
            Seq::empty()
        } else {
            seq![(s.last().0, conv_node(s.last().1))]
        })
    }
}

/// Whether every encoded input of a mapping is a bare node name.
pub open spec fn all_scalar(v: Seq<(Seq<char>, InputValueView)>) -> bool {
    forall|i: int| 0 <= i < v.len() ==> (#[trigger] v[i]).1 is Scalar
}

/// Whether a lock document can be loaded at all: the root node exists and
/// carries direct, unique, resolvable aliases, and every other node carries
/// both descriptors. Absence of a descriptor is a load error, never a
/// silent default.
pub open spec fn doc_ok(d: LockDocumentView) -> bool {
    &&& unique_keys(d.nodes)
    &&& map_of(d.nodes).contains_key(d.root)
    &&& map_of(d.nodes)[d.root].inputs is Some
    &&& all_scalar(map_of(d.nodes)[d.root].inputs->0)
    &&& unique_keys(map_of(d.nodes)[d.root].inputs->0)
    &&& forall|i: int|
        0 <= i < map_of(d.nodes)[d.root].inputs->0.len() ==> {
            let t = scalar_of((#[trigger] map_of(d.nodes)[d.root].inputs->0[i]).1);
            &&& t != d.root
            &&& map_of(d.nodes).contains_key(t)
        }
    &&& forall|i: int|
        0 <= i < d.nodes.len() && (#[trigger] d.nodes[i]).0 != d.root ==> doc_node_ok(d.nodes[i].1)
}

/// Converted node lists keep unique keys and denote the document mapping
/// restricted to the non-root names.
pub proof fn lemma_conv_nodes_map(s: Seq<(Seq<char>, DocNodeView)>, root: Seq<char>)
    requires
        unique_keys(s),
    ensures
        unique_keys(conv_nodes(s, root)),
        forall|k: Seq<char>|
            #[trigger] map_of(conv_nodes(s, root)).contains_key(k) <==> (map_of(s).contains_key(k)
                && k != root),
        forall|k: Seq<char>|
            map_of(conv_nodes(s, root)).contains_key(k) ==> #[trigger] map_of(
                conv_nodes(s, root),
            )[k] == conv_node(map_of(s)[k]),
    decreases s.len(),
{
    crate::lock::lemma_map_of_contains(s, root);
    if s.len() > 0 {
        assert(unique_keys(s.drop_last()));
        lemma_conv_nodes_map(s.drop_last(), root);
        let prev = conv_nodes(s.drop_last(), root);
        if s.last().0 == root {
            assert(conv_nodes(s, root) =~= prev);
        } else {
            let e = (s.last().0, conv_node(s.last().1));
            assert(conv_nodes(s, root) =~= prev.push(e));
            assert(prev.push(e).drop_last() =~= prev);
            assert(map_of(prev.push(e)) == map_of(prev).insert(e.0, e.1));
            // keys of prev all occur in s.drop_last(), so the new key stays unique
            assert forall|i: int| 0 <= i < prev.len() implies #[trigger] prev[i].0 != e.0 by {
                crate::lock::lemma_map_of_index(prev, i);
                assert(map_of(prev).contains_key(prev[i].0));
                assert(map_of(s.drop_last()).contains_key(prev[i].0));
                crate::lock::lemma_map_of_contains(s.drop_last(), prev[i].0);
                let w = choose|w: int|
                    0 <= w < s.drop_last().len() && s.drop_last()[w].0 == prev[i].0;
                assert(s[w].0 == prev[i].0);
                assert(s[w].0 != s.last().0);
            }
            assert(unique_keys(prev.push(e)));
            assert forall|k: Seq<char>|
                #[trigger] map_of(conv_nodes(s, root)).contains_key(k) <==> (map_of(
                    s,
                ).contains_key(k) && k != root) by {
                crate::lock::lemma_map_of_contains(s, k);
                crate::lock::lemma_map_of_contains(s.drop_last(), k);
                if k == e.0 {
                    assert(s[s.len() - 1].0 == k);
                }
            }
        }
    }
}

/// Checks that the names of a named-entry list are pairwise distinct.
pub fn keys_unique<T: View>(entries: &Vec<(String, T)>) -> (r: bool)
    ensures
        r == unique_keys(pairs_view(entries@)),
{
    let n = entries.len();
    let mut i: usize = 0;
    while i < n
        invariant
            i <= n,
            n == entries@.len(),
            forall|a: int, b: int|
                0 <= a < b < entries@.len() && a < i ==> pairs_view(entries@)[a].0 != pairs_view(
                    entries@,
                )[b].0,
        decreases n - i,
    {
        let mut j: usize = i + 1;
        while j < n
            invariant
                i < j <= n,
                n == entries@.len(),
                forall|b: int|
                    i < b < j ==> pairs_view(entries@)[i as int].0 != pairs_view(entries@)[b].0,
            decreases n - j,
        {
            if str_eq(entries[i].0.as_str(), entries[j].0.as_str()) {
                proof {
                    assert(pairs_view(entries@)[i as int].0 == pairs_view(entries@)[j as int].0);
                }
                return false;
            }
            j = j + 1;
        }
        i = i + 1;
    }
    true
}

/// Maps lock documents to validated resolution graphs.
pub struct FlakeLockMapperImpl {}

/// Locates the root node of a document and converts its input mapping,
/// refusing a multi-segment indirection rather than misreading it as an
/// alias.
fn find_root(doc: &LockDocument) -> (r: Result<RootNode, Error>)
    requires
        unique_keys(doc@.nodes),
        map_of(doc@.nodes).contains_key(doc@.root),
    ensures
        match r {
            Ok(root) => {
                &&& map_of(doc@.nodes)[doc@.root].inputs is Some
                &&& all_scalar(map_of(doc@.nodes)[doc@.root].inputs->0)
                &&& root@ == conv_inputs(map_of(doc@.nodes)[doc@.root].inputs)
            },
            Err(e) => {
                &&& !(map_of(doc@.nodes)[doc@.root].inputs is Some && all_scalar(
                    map_of(doc@.nodes)[doc@.root].inputs->0,
                ))
                &&& e matches Error::InvalidFlakeLock { .. }
            },
        },
{
    let root_node = match crate::lock::get_entry(&doc.nodes, doc.root.as_str()) {
        Some(n) => n,
        None => {
            return Err(
                Error::InvalidFlakeLock { reason: lit("Couldn't find flake root") },
            );
        }
    };
    let inputs = match &root_node.inputs {
        Some(v) => v,
        None => {
            return Err(
                Error::InvalidFlakeLock { reason: lit("the root node declares no inputs") },
            );
        }
    };
    let mut out: Vec<(String, InputReference)> = Vec::new();
    let mut i: usize = 0;
    while i < inputs.len()
        invariant
            i <= inputs@.len(),
            pairs_view(inputs@) == map_of(doc@.nodes)[doc@.root].inputs->0,
            out@.len() == i,
            forall|j: int| 0 <= j < i ==> (#[trigger] pairs_view(inputs@)[j]).1 is Scalar,
            forall|j: int|
                0 <= j < i ==> #[trigger] pairs_view(out@)[j] == (
                    pairs_view(inputs@)[j].0,
                    ref_of_value(pairs_view(inputs@)[j].1),
                ),
        decreases inputs@.len() - i,
    {
        let (name, value) = &inputs[i];
        proof {
            assert(pairs_view(inputs@)[i as int] == (name@, value@));
        }
        match value {
            InputValue::Scalar(s) => {
                let ghost out0 = out@;
                out.push((name.clone(), InputReference::Alias(s.clone())));
                proof {
                    assert(forall|j: int|
                        0 <= j < i ==> #[trigger] pairs_view(out@)[j] == pairs_view(out0)[j]);
                    assert(pairs_view(out@)[i as int] == (name@, InputRefView::Alias(s@)));
                }
            }
            InputValue::List(_) => {
                return Err(
                    Error::InvalidFlakeLock {
                        reason: lit("unsupported multi-segment input reference in root"),
                    },
                );
            }
        }
        i = i + 1;
    }
    proof {
        assert(pairs_view(out@) =~= conv_inputs(map_of(doc@.nodes)[doc@.root].inputs));
    }
    Ok(RootNode { inputs: out })
}

/// Converts one encoded input mapping to the reference mapping it denotes.
fn conv_inputs_exec(inputs: &Option<Vec<(String, InputValue)>>) -> (r: Vec<
    (String, InputReference),
>)
    ensures
        pairs_view(r@) == conv_inputs(
            match inputs {
                Some(v) => Some(pairs_view(v@)),
                None => None,
            },
        ),
{
    match inputs {
        None => {
            let r: Vec<(String, InputReference)> = Vec::new();
            proof {
                assert(pairs_view(r@) =~= Seq::<(Seq<char>, InputRefView)>::empty());
            }
            r
        }
        Some(v) => {
            let mut out: Vec<(String, InputReference)> = Vec::new();
            let mut i: usize = 0;
            while i < v.len()
                invariant
                    i <= v@.len(),
                    out@.len() == i,
                    forall|j: int|
                        0 <= j < i ==> #[trigger] pairs_view(out@)[j] == (
                            pairs_view(v@)[j].0,
                            ref_of_value(pairs_view(v@)[j].1),
                        ),
                decreases v@.len() - i,
            {
                let (name, value) = &v[i];
                proof {
                    assert(pairs_view(v@)[i as int] == (name@, value@));
                }
                let ghost out0 = out@;
                let re = match value {
                    InputValue::Scalar(s) => InputReference::Alias(s.clone()),
                    InputValue::List(p) => InputReference::Path(clone_string_vec(p)),
                };
                out.push((name.clone(), re));
                proof {
                    assert(forall|j: int|
                        0 <= j < i ==> #[trigger] pairs_view(out@)[j] == pairs_view(out0)[j]);
                    assert(pairs_view(out@)[i as int] == (name@, ref_of_value(value@)));
                }
                i = i + 1;
            }
            proof {
                assert(pairs_view(out@) =~= conv_inputs(Some(pairs_view(v@))));
            }
            out
        }
    }
}

impl FlakeLockMapperImpl {
    /// Validates a lock document and builds the resolution graph it
    /// denotes: the root's converted input mapping beside the converted
    /// non-root nodes. Exactly the loadable documents go through.
    pub fn to_domain(&self, doc: &LockDocument) -> (r: Result<FlakeLock, Error>)
        ensures
            match r {
                Ok(g) => {
                    &&& doc_ok(doc@)
                    &&& g.wf()
                    &&& g@.root == conv_inputs(map_of(doc@.nodes)[doc@.root].inputs)
                    &&& g@.nodes == conv_nodes(doc@.nodes, doc@.root)
                },
                Err(e) => {
                    &&& !doc_ok(doc@)
                    &&& e matches Error::InvalidFlakeLock { .. }
                },
            },
    {
        if !keys_unique(&doc.nodes) {
            return Err(Error::InvalidFlakeLock { reason: lit("duplicate node names") });
        }
        // the root node must exist
        let root_exists = match crate::lock::get_entry(&doc.nodes, doc.root.as_str()) {
            Some(_) => true,
            None => false,
        };
        if !root_exists {
            return Err(Error::InvalidFlakeLock { reason: lit("Couldn't find flake root") });
        }
        let root = match find_root(doc) {
            Ok(root) => root,
            Err(e) => {
                return Err(e);
            }
        };
        if !keys_unique(&root.inputs) {
            proof {
                assert(!unique_keys(map_of(doc@.nodes)[doc@.root].inputs->0)) by {
                    let rin = map_of(doc@.nodes)[doc@.root].inputs->0;
                    assert(root@ =~= conv_inputs(Some(rin)));
                    let (a, b) = choose|a: int, b: int|
                        0 <= a < b < root@.len() && root@[a].0 == root@[b].0;
                    assert(rin[a].0 == root@[a].0 && rin[b].0 == root@[b].0);
                }
            }
            return Err(Error::InvalidFlakeLock { reason: lit("duplicate input names in root") });
        }
        // every root alias must point at an existing non-root node
        let mut i: usize = 0;
        while i < root.inputs.len()
            invariant
                unique_keys(doc@.nodes),
                map_of(doc@.nodes).contains_key(doc@.root),
                root@ == conv_inputs(map_of(doc@.nodes)[doc@.root].inputs),
                all_scalar(map_of(doc@.nodes)[doc@.root].inputs->0),
                map_of(doc@.nodes)[doc@.root].inputs is Some,
                i <= root.inputs@.len(),
                forall|j: int|
                    0 <= j < i ==> {
                        let t = scalar_of(
                            (#[trigger] map_of(doc@.nodes)[doc@.root].inputs->0[j]).1,
                        );
                        &&& t != doc@.root
                        &&& map_of(doc@.nodes).contains_key(t)
                    },
            decreases root.inputs@.len() - i,
        {
            let ghost rin = map_of(doc@.nodes)[doc@.root].inputs->0;
            let (_alias, re) = &root.inputs[i];
            proof {
                assert(map_of(doc@.nodes)[doc@.root].inputs == Some(rin));
                assert(root@ == rin.map_values(
                    |p: (Seq<char>, InputValueView)| (p.0, ref_of_value(p.1)),
                ));
                assert(root@.len() == rin.len());
                assert(i < rin.len());
                assert(root@[i as int] == (_alias@, re@));
                assert(root@[i as int] == (rin[i as int].0, ref_of_value(rin[i as int].1)));
            }
            match re {
                InputReference::Alias(target) => {
                    proof {
                        assert(target@ == scalar_of(rin[i as int].1));
                    }
                    if str_eq(target.as_str(), doc.root.as_str()) {
                        return Err(
                            Error::InvalidFlakeLock {
                                reason: lit("a top-level input aliases the root node"),
                            },
                        );
                    }
                    let found = match crate::lock::get_entry(&doc.nodes, target.as_str()) {
                        Some(_) => true,
                        None => false,
                    };
                    if !found {
                        return Err(
                            Error::InvalidFlakeLock {
                                reason: lit("a top-level input points at a missing node"),
                            },
                        );
                    }
                }
                InputReference::Path(_) => {
                    proof {
                        assert(rin[i as int].1 is Scalar);
                        assert(re@ == ref_of_value(rin[i as int].1));
                        assert(false);
                    }
                    vstd::pervasive::unreached()
                }
            }
            i = i + 1;
        }
        // convert every non-root node, requiring both descriptors
        let mut nodes: Vec<(String, Node)> = Vec::new();
        proof {
            assert(pairs_view(nodes@) =~= conv_nodes(doc@.nodes.subrange(0, 0), doc@.root));
        }
        let mut k: usize = 0;
        while k < doc.nodes.len()
            invariant
                unique_keys(doc@.nodes),
                k <= doc.nodes@.len(),
                pairs_view(nodes@) == conv_nodes(doc@.nodes.subrange(0, k as int), doc@.root),
                forall|j: int|
                    0 <= j < k && (#[trigger] doc@.nodes[j]).0 != doc@.root ==> doc_node_ok(
                        doc@.nodes[j].1,
                    ),
            decreases doc.nodes@.len() - k,
        {
            let (name, dn) = &doc.nodes[k];
            proof {
                assert(doc@.nodes[k as int] == (name@, dn@));
                assert(doc@.nodes.subrange(0, k as int + 1).drop_last() =~= doc@.nodes.subrange(
                    0,
                    k as int,
                ));
                assert(doc@.nodes.subrange(0, k as int + 1).last() == doc@.nodes[k as int]);
            }
            if str_eq(name.as_str(), doc.root.as_str()) {
                proof {
                    assert(conv_nodes(doc@.nodes.subrange(0, k as int + 1), doc@.root)
                        =~= conv_nodes(doc@.nodes.subrange(0, k as int), doc@.root));
                }
            } else {
                let locked = match &dn.locked {
                    Some(l) => l,
                    None => {
                        return Err(
                            Error::InvalidFlakeLock {
                                reason: concat3(
                                    "'locked' attribute is missing in ",
                                    name.as_str(),
                                    " input",
                                ),
                            },
                        );
                    }
                };
                let original = match &dn.original {
                    Some(o) => o,
                    None => {
                        return Err(
                            Error::InvalidFlakeLock {
                                reason: concat3(
                                    "'original' attribute is missing in ",
                                    name.as_str(),
                                    " input",
                                ),
                            },
                        );
                    }
                };
                let node = Node {
                    inputs: conv_inputs_exec(&dn.inputs),
                    locked: locked.clone(),
                    original: original.clone(),
                };
                let ghost nodes0 = nodes@;
                proof {
                    assert(node@ == conv_node(dn@));
                }
                nodes.push((name.clone(), node));
                proof {
                    assert(forall|j: int|
                        0 <= j < nodes0.len() ==> #[trigger] pairs_view(nodes@)[j] == pairs_view(
                            nodes0,
                        )[j]);
                    assert(pairs_view(nodes@)[nodes0.len() as int] == (name@, conv_node(dn@)));
                    assert(pairs_view(nodes@) =~= conv_nodes(
                        doc@.nodes.subrange(0, k as int + 1),
                        doc@.root,
                    ));
                }
            }
            k = k + 1;
        }
        proof {
            assert(doc@.nodes.subrange(0, doc@.nodes.len() as int) =~= doc@.nodes);
        }
        let graph = FlakeLock { root, nodes };
        proof {
            let rin = map_of(doc@.nodes)[doc@.root].inputs->0;
            assert(root@ =~= conv_inputs(Some(rin)));
            assert(unique_keys(rin)) by {
                assert forall|a: int, b: int| 0 <= a < b < rin.len() implies #[trigger] rin[a].0
                    != #[trigger] rin[b].0 by {
                    assert(root@[a].0 == rin[a].0 && root@[b].0 == rin[b].0);
                }
            }
            assert(doc_ok(doc@));
            lemma_conv_nodes_map(doc@.nodes, doc@.root);
            assert(graph@.nodes == conv_nodes(doc@.nodes, doc@.root));
            // the root aliases resolve in the converted node mapping
            assert forall|i2: int| 0 <= i2 < graph@.root.len() implies ((
            #[trigger] graph@.root[i2]).1 matches InputRefView::Alias(t)
                && graph.nodes_map().contains_key(t)) by {
                let rin = map_of(doc@.nodes)[doc@.root].inputs->0;
                assert(graph@.root[i2] == (rin[i2].0, ref_of_value(rin[i2].1)));
                assert(rin[i2].1 is Scalar);
                let t = scalar_of(rin[i2].1);
                assert(map_of(doc@.nodes).contains_key(t) && t != doc@.root);
            }
            // unique root keys carry over from the document's root inputs
            assert(unique_keys(graph@.root)) by {
                let rin = map_of(doc@.nodes)[doc@.root].inputs->0;
                assert forall|a: int, b: int|
                    0 <= a < b < graph@.root.len() implies #[trigger] graph@.root[a].0
                    != #[trigger] graph@.root[b].0 by {
                    assert(graph@.root[a].0 == rin[a].0 && graph@.root[b].0 == rin[b].0);
                }
            }
            assert(graph.wf());
        }
        Ok(graph)
    }
}

} // verus!
