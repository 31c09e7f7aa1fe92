use vstd::prelude::*;
use vstd::string::{StrSliceExecFns, StringExecFns};

use crate::error::lit;

verus! {

/// How a node refers to one of its own inputs: directly by the name of
/// another node, or by a multi-segment path of follows-indirections.
#[derive(Debug, PartialEq, Eq)]
pub enum InputReference {
    Alias(String),
    Path(Vec<String>),
}

/// The mathematical value of an input reference.
pub enum InputRefView {
    Alias(Seq<char>),
    Path(Seq<Seq<char>>),
}

impl View for InputReference {
    type V = InputRefView;

    open spec fn view(&self) -> InputRefView {
        match self {
            InputReference::Alias(s) => InputRefView::Alias(s@),
            InputReference::Path(p) => InputRefView::Path(p.deep_view()),
        }
    }
}

/// The as-declared, unresolved source of an input.
#[derive(Debug, PartialEq, Eq)]
pub enum Original {
    Git { url: String, ref_name: Option<String>, rev: Option<String> },
    GitHub { owner: String, repo: String, ref_name: Option<String>, rev: Option<String> },
    GitLab { owner: String, repo: String, ref_name: Option<String>, rev: Option<String> },
    Indirect { id: String, ref_name: Option<String>, rev: Option<String> },
}

/// The mathematical value of a declared source.
pub enum OriginalView {
    Git { url: Seq<char>, ref_name: Option<Seq<char>>, rev: Option<Seq<char>> },
    GitHub { owner: Seq<char>, repo: Seq<char>, ref_name: Option<Seq<char>>, rev: Option<Seq<char>> },
    GitLab { owner: Seq<char>, repo: Seq<char>, ref_name: Option<Seq<char>>, rev: Option<Seq<char>> },
    Indirect { id: Seq<char>, ref_name: Option<Seq<char>>, rev: Option<Seq<char>> },
}

/// The view of an optional owned string as an optional character sequence.
pub open spec fn opt_view(o: Option<String>) -> Option<Seq<char>> {
    match o {
        Some(s) => Some(s@),
        None => None,
    }
}

impl View for Original {
    type V = OriginalView;

    open spec fn view(&self) -> OriginalView {
        match self {
            Original::Git { url, ref_name, rev } => OriginalView::Git {
                url: url@,
                ref_name: opt_view(*ref_name),
                rev: opt_view(*rev),
            },
            Original::GitHub { owner, repo, ref_name, rev } => OriginalView::GitHub {
                owner: owner@,
                repo: repo@,
                ref_name: opt_view(*ref_name),
                rev: opt_view(*rev),
            },
            Original::GitLab { owner, repo, ref_name, rev } => OriginalView::GitLab {
                owner: owner@,
                repo: repo@,
                ref_name: opt_view(*ref_name),
                rev: opt_view(*rev),
            },
            Original::Indirect { id, ref_name, rev } => OriginalView::Indirect {
                id: id@,
                ref_name: opt_view(*ref_name),
                rev: opt_view(*rev),
            },
        }
    }
}

impl OriginalView {
    /// The base identity of the declared source: the repository it names,
    /// with the pin (`ref`, `rev`) stripped away.
    pub open spec fn base_spec(&self) -> Seq<char> {
        match self {
            OriginalView::Git { url, .. } => *url,
            OriginalView::GitHub { owner, repo, .. } => "github:"@ + *owner + "/"@ + *repo,
            OriginalView::GitLab { owner, repo, .. } => "gitlab:"@ + *owner + "/"@ + *repo,
            OriginalView::Indirect { id, .. } => *id,
        }
    }

    /// The declared reference, if any.
    pub open spec fn ref_spec(&self) -> Option<Seq<char>> {
        match self {
            OriginalView::Git { ref_name, .. } => *ref_name,
            OriginalView::GitHub { ref_name, .. } => *ref_name,
            OriginalView::GitLab { ref_name, .. } => *ref_name,
            OriginalView::Indirect { ref_name, .. } => *ref_name,
        }
    }

    /// The declared pinned revision, if any.
    pub open spec fn rev_spec(&self) -> Option<Seq<char>> {
        match self {
            OriginalView::Git { rev, .. } => *rev,
            OriginalView::GitHub { rev, .. } => *rev,
            OriginalView::GitLab { rev, .. } => *rev,
            OriginalView::Indirect { rev, .. } => *rev,
        }
    }
}

/// The resolved, pinned source of an input. `rev` is the mandatory opaque
/// commit identifier; `last_modified` is that commit's timestamp in epoch
/// seconds, never reinterpreted as a version number.
#[derive(Debug, PartialEq, Eq)]
pub enum Locked {
    Git { rev: String, ref_name: Option<String>, url: String, last_modified: i64 },
    GitHub { rev: String, ref_name: Option<String>, owner: String, repo: String, last_modified: i64 },
    GitLab { rev: String, ref_name: Option<String>, owner: String, repo: String, last_modified: i64 },
}

/// The mathematical value of a resolved source.
pub enum LockedView {
    Git { rev: Seq<char>, ref_name: Option<Seq<char>>, url: Seq<char>, last_modified: i64 },
    GitHub { rev: Seq<char>, ref_name: Option<Seq<char>>, owner: Seq<char>, repo: Seq<char>, last_modified: i64 },
    GitLab { rev: Seq<char>, ref_name: Option<Seq<char>>, owner: Seq<char>, repo: Seq<char>, last_modified: i64 },
}

impl View for Locked {
    type V = LockedView;

    open spec fn view(&self) -> LockedView {
        match self {
            Locked::Git { rev, ref_name, url, last_modified } => LockedView::Git {
                rev: rev@,
                ref_name: opt_view(*ref_name),
                url: url@,
                last_modified: *last_modified,
            },
            Locked::GitHub { rev, ref_name, owner, repo, last_modified } => LockedView::GitHub {
                rev: rev@,
                ref_name: opt_view(*ref_name),
                owner: owner@,
                repo: repo@,
                last_modified: *last_modified,
            },
            Locked::GitLab { rev, ref_name, owner, repo, last_modified } => LockedView::GitLab {
                rev: rev@,
                ref_name: opt_view(*ref_name),
                owner: owner@,
                repo: repo@,
                last_modified: *last_modified,
            },
        }
    }
}

impl LockedView {
    /// The pinned commit identifier.
    pub open spec fn rev_spec(&self) -> Seq<char> {
        match self {
            LockedView::Git { rev, .. } => *rev,
            LockedView::GitHub { rev, .. } => *rev,
            LockedView::GitLab { rev, .. } => *rev,
        }
    }

    /// The reference recorded beside the pin, if any.
    pub open spec fn ref_spec(&self) -> Option<Seq<char>> {
        match self {
            LockedView::Git { ref_name, .. } => *ref_name,
            LockedView::GitHub { ref_name, .. } => *ref_name,
            LockedView::GitLab { ref_name, .. } => *ref_name,
        }
    }

    /// The timestamp of the pinned commit, in epoch seconds.
    pub open spec fn last_modified_spec(&self) -> i64 {
        match self {
            LockedView::Git { last_modified, .. } => *last_modified,
            LockedView::GitHub { last_modified, .. } => *last_modified,
            LockedView::GitLab { last_modified, .. } => *last_modified,
        }
    }
}

/// One resolved input of the graph: its own input references and its two
/// descriptors. Both descriptors are required on any non-root node.
#[derive(Debug, PartialEq, Eq)]
pub struct Node {
    pub inputs: Vec<(String, InputReference)>,
    pub locked: Locked,
    pub original: Original,
}

/// The mathematical value of a node.
pub struct NodeView {
    pub inputs: Seq<(Seq<char>, InputRefView)>,
    pub locked: LockedView,
    pub original: OriginalView,
}

/// The view of a named-entry list, both components viewed.
pub open spec fn pairs_view<T: View>(s: Seq<(String, T)>) -> Seq<(Seq<char>, T::V)> {
    s.map_values(|p: (String, T)| (p.0@, p.1@))
}

impl View for Node {
    type V = NodeView;

    open spec fn view(&self) -> NodeView {
        NodeView {
            inputs: pairs_view(self.inputs@),
            locked: self.locked@,
            original: self.original@,
        }
    }
}

/// The root of the graph: the alias-to-node-name mapping of the flake's
/// top-level inputs.
#[derive(Debug, PartialEq, Eq)]
pub struct RootNode {
    pub inputs: Vec<(String, InputReference)>,
}

impl View for RootNode {
    type V = Seq<(Seq<char>, InputRefView)>;

    open spec fn view(&self) -> Seq<(Seq<char>, InputRefView)> {
        pairs_view(self.inputs@)
    }
}

/// A parsed resolution graph: the root mapping plus the node mapping.
/// Keys are unique; no ordering is guaranteed or relied on.
#[derive(Debug, PartialEq, Eq)]
pub struct FlakeLock {
    pub root: RootNode,
    pub nodes: Vec<(String, Node)>,
}

/// The mathematical value of a resolution graph.
pub struct LockView {
    pub root: Seq<(Seq<char>, InputRefView)>,
    pub nodes: Seq<(Seq<char>, NodeView)>,
}

impl View for FlakeLock {
    type V = LockView;

    open spec fn view(&self) -> LockView {
        LockView { root: self.root@, nodes: pairs_view(self.nodes@) }
    }
}

/// Duplicates an optional owned string.
pub fn clone_opt_string(o: &Option<String>) -> (r: Option<String>)
    ensures
        r == *o,
{
    match o {
        Some(s) => Some(s.clone()),
        None => None,
    }
}

/// Compares two pieces of text character by character.
pub fn str_eq(a: &str, b: &str) -> (r: bool)
    ensures
        r == (a@ == b@),
{
    let la = a.unicode_len();
    let lb = b.unicode_len();
    if la != lb {
        proof {
            assert(a@ != b@) by {
                if a@ == b@ {
                    assert(a@.len() == b@.len());
                }
            }
        }
        return false;
    }
    let mut i: usize = 0;
    while i < la
        invariant
            i <= la,
            la == a@.len(),
            la == b@.len(),
            forall|j: int| 0 <= j < i ==> a@[j] == b@[j],
        decreases la - i,
    {
        if a.get_char(i) != b.get_char(i) {
            proof {
                assert(a@ != b@) by {
                    if a@ == b@ {
                        assert(a@[i as int] == b@[i as int]);
                    }
                }
            }
            return false;
        }
        i = i + 1;
    }
    proof {
        assert(a@ =~= b@);
    }
    true
}

/// Compares two optional strings by their text.
pub fn opt_str_eq(a: &Option<String>, b: &Option<String>) -> (r: bool)
    ensures
        r == (opt_view(*a) == opt_view(*b)),
{
    match (a, b) {
        (None, None) => true,
        (Some(x), Some(y)) => str_eq(x.as_str(), y.as_str()),
        _ => false,
    }
}

/// Duplicates a vector of owned strings.
pub fn clone_string_vec(v: &Vec<String>) -> (r: Vec<String>)
    ensures
        r.deep_view() == v.deep_view(),
{
    let mut r: Vec<String> = Vec::new();
    let mut i: usize = 0;
    while i < v.len()
        invariant
            i <= v.len(),
            r@.len() == i,
            forall|j: int| 0 <= j < i ==> r.deep_view()[j] == v.deep_view()[j],
        decreases v.len() - i,
    {
        r.push(v[i].clone());
        i = i + 1;
    }
    proof {
        assert(r.deep_view() =~= v.deep_view());
    }
    r
}

impl Clone for InputReference {
    fn clone(&self) -> (r: Self)
        ensures
            r@ == self@,
    {
        match self {
            InputReference::Alias(s) => InputReference::Alias(s.clone()),
            InputReference::Path(p) => InputReference::Path(clone_string_vec(p)),
        }
    }
}

/// Duplicates an input-reference mapping.
pub fn clone_input_refs(v: &Vec<(String, InputReference)>) -> (r: Vec<(String, InputReference)>)
    ensures
        pairs_view(r@) == pairs_view(v@),
{
    let mut r: Vec<(String, InputReference)> = Vec::new();
    let mut i: usize = 0;
    while i < v.len()
        invariant
            i <= v.len(),
            r@.len() == i,
            forall|j: int| 0 <= j < i ==> pairs_view(r@)[j] == pairs_view(v@)[j],
        decreases v.len() - i,
    {
        let (name, re) = &v[i];
        r.push((name.clone(), re.clone()));
        i = i + 1;
    }
    proof {
        assert(pairs_view(r@) =~= pairs_view(v@));
    }
    r
}

impl Clone for Original {
    fn clone(&self) -> (r: Self)
        ensures
            r@ == self@,
    {
        match self {
            Original::Git { url, ref_name, rev } => Original::Git {
                url: url.clone(),
                ref_name: clone_opt_string(ref_name),
                rev: clone_opt_string(rev),
            },
            Original::GitHub { owner, repo, ref_name, rev } => Original::GitHub {
                owner: owner.clone(),
                repo: repo.clone(),
                ref_name: clone_opt_string(ref_name),
                rev: clone_opt_string(rev),
            },
            Original::GitLab { owner, repo, ref_name, rev } => Original::GitLab {
                owner: owner.clone(),
                repo: repo.clone(),
                ref_name: clone_opt_string(ref_name),
                rev: clone_opt_string(rev),
            },
            Original::Indirect { id, ref_name, rev } => Original::Indirect {
                id: id.clone(),
                ref_name: clone_opt_string(ref_name),
                rev: clone_opt_string(rev),
            },
        }
    }
}

impl Original {
    /// Renders the base identity: the URL for `Git`, `github:owner/repo`
    /// for `GitHub`, `gitlab:owner/repo` for `GitLab`, the bare id for
    /// `Indirect`.
    pub fn base(&self) -> (r: String)
        ensures
            r@ == self@.base_spec(),
    {
        match self {
            Original::Git { url, .. } => url.clone(),
            Original::GitHub { owner, repo, .. } => {
                let mut s = lit("github:");
                s.append(owner.as_str());
                s.append("/");
                s.append(repo.as_str());
                s
            }
            Original::GitLab { owner, repo, .. } => {
                let mut s = lit("gitlab:");
                s.append(owner.as_str());
                s.append("/");
                s.append(repo.as_str());
                s
            }
            Original::Indirect { id, .. } => id.clone(),
        }
    }

    /// The declared reference, if any.
    pub fn ref_name(&self) -> (r: Option<String>)
        ensures
            opt_view(r) == self@.ref_spec(),
    {
        match self {
            Original::Git { ref_name, .. } => clone_opt_string(ref_name),
            Original::GitHub { ref_name, .. } => clone_opt_string(ref_name),
            Original::GitLab { ref_name, .. } => clone_opt_string(ref_name),
            Original::Indirect { ref_name, .. } => clone_opt_string(ref_name),
        }
    }

    /// The declared pinned revision, if any.
    pub fn rev(&self) -> (r: Option<String>)
        ensures
            opt_view(r) == self@.rev_spec(),
    {
        match self {
            Original::Git { rev, .. } => clone_opt_string(rev),
            Original::GitHub { rev, .. } => clone_opt_string(rev),
            Original::GitLab { rev, .. } => clone_opt_string(rev),
            Original::Indirect { rev, .. } => clone_opt_string(rev),
        }
    }
}

impl Clone for Locked {
    fn clone(&self) -> (r: Self)
        ensures
            r@ == self@,
    {
        match self {
            Locked::Git { rev, ref_name, url, last_modified } => Locked::Git {
                rev: rev.clone(),
                ref_name: clone_opt_string(ref_name),
                url: url.clone(),
                last_modified: *last_modified,
            },
            Locked::GitHub { rev, ref_name, owner, repo, last_modified } => Locked::GitHub {
                rev: rev.clone(),
                ref_name: clone_opt_string(ref_name),
                owner: owner.clone(),
                repo: repo.clone(),
                last_modified: *last_modified,
            },
            Locked::GitLab { rev, ref_name, owner, repo, last_modified } => Locked::GitLab {
                rev: rev.clone(),
                ref_name: clone_opt_string(ref_name),
                owner: owner.clone(),
                repo: repo.clone(),
                last_modified: *last_modified,
            },
        }
    }
}

impl Locked {
    /// The pinned commit identifier.
    pub fn rev(&self) -> (r: &String)
        ensures
            r@ == self@.rev_spec(),
    {
        match self {
            Locked::Git { rev, .. } => rev,
            Locked::GitHub { rev, .. } => rev,
            Locked::GitLab { rev, .. } => rev,
        }
    }

    /// The timestamp of the pinned commit, in epoch seconds.
    pub fn last_modified(&self) -> (r: i64)
        ensures
            r == self@.last_modified_spec(),
    {
        match self {
            Locked::Git { last_modified, .. } => *last_modified,
            Locked::GitHub { last_modified, .. } => *last_modified,
            Locked::GitLab { last_modified, .. } => *last_modified,
        }
    }
}

impl Clone for Node {
    fn clone(&self) -> (r: Self)
        ensures
            r@ == self@,
    {
        let r = Node {
            inputs: clone_input_refs(&self.inputs),
            locked: self.locked.clone(),
            original: self.original.clone(),
        };
        r
    }
}

/// The mapping a list of named entries denotes, over views; on a duplicate
/// key the later entry wins, though the library only builds lists with
/// unique keys.
pub open spec fn map_of<V>(entries: Seq<(Seq<char>, V)>) -> Map<Seq<char>, V>
    decreases entries.len(),
{
    if entries.len() == 0 {
        Map::empty()
    } else {
        map_of(entries.drop_last()).insert(entries.last().0, entries.last().1)
    }
}

/// Whether the keys of a list of named entries are pairwise distinct.
pub open spec fn unique_keys<V>(entries: Seq<(Seq<char>, V)>) -> bool {
    forall|i: int, j: int| 0 <= i < j < entries.len() ==> entries[i].0 != entries[j].0
}

/// A key is in the denoted mapping exactly when some entry carries it.
pub proof fn lemma_map_of_contains<V>(entries: Seq<(Seq<char>, V)>, k: Seq<char>)
    ensures
        map_of(entries).contains_key(k) <==> exists|i: int|
            0 <= i < entries.len() && entries[i].0 == k,
    decreases entries.len(),
{
    if entries.len() > 0 {
        lemma_map_of_contains(entries.drop_last(), k);
        if entries.last().0 == k {
            assert(entries[entries.len() - 1].0 == k);
        } else {
            if map_of(entries).contains_key(k) {
                let i = choose|i: int|
                    0 <= i < entries.drop_last().len() && entries.drop_last()[i].0 == k;
                assert(entries[i].0 == k);
            }
            if exists|i: int| 0 <= i < entries.len() && entries[i].0 == k {
                let i = choose|i: int| 0 <= i < entries.len() && entries[i].0 == k;
                assert(i < entries.len() - 1);
                assert(entries.drop_last()[i].0 == k);
            }
        }
    }
}

/// With unique keys, the denoted mapping sends each entry's key to that
/// entry's value.
pub proof fn lemma_map_of_index<V>(entries: Seq<(Seq<char>, V)>, i: int)
    requires
        unique_keys(entries),
        0 <= i < entries.len(),
    ensures
        map_of(entries).contains_key(entries[i].0),
        map_of(entries)[entries[i].0] == entries[i].1,
    decreases entries.len(),
{
    if i == entries.len() - 1 {
    } else {
        assert(unique_keys(entries.drop_last()));
        lemma_map_of_index(entries.drop_last(), i);
        assert(entries.drop_last()[i] == entries[i]);
        assert(entries[i].0 != entries.last().0);
    }
}

/// Looks a name up in a named-entry list, first match wins.
pub fn get_entry<'a, T: View>(entries: &'a Vec<(String, T)>, name: &str) -> (r: Option<&'a T>)
    requires
        unique_keys(pairs_view(entries@)),
    ensures
        match r {
            Some(v) => map_of(pairs_view(entries@)).contains_key(name@) && v@ == map_of(
                pairs_view(entries@),
            )[name@],
            None => !map_of(pairs_view(entries@)).contains_key(name@),
        },
{
    let mut i: usize = 0;
    while i < entries.len()
        invariant
            i <= entries.len(),
            unique_keys(pairs_view(entries@)),
            forall|j: int| 0 <= j < i ==> pairs_view(entries@)[j].0 != name@,
        decreases entries.len() - i,
    {
        if str_eq(entries[i].0.as_str(), name) {
            proof {
                assert(pairs_view(entries@)[i as int].0 == name@);
                lemma_map_of_index(pairs_view(entries@), i as int);
            }
            return Some(&entries[i].1);
        }
        i = i + 1;
    }
    proof {
        lemma_map_of_contains(pairs_view(entries@), name@);
    }
    None
}

impl FlakeLock {
    /// The mapping of node names to nodes this graph denotes.
    pub open spec fn nodes_map(&self) -> Map<Seq<char>, NodeView> {
        map_of(self@.nodes)
    }

    /// Well-formedness: keys are unique on both levels, and every top-level
    /// input is a direct alias that resolves to a node of the graph.
    pub open spec fn wf(&self) -> bool {
        &&& unique_keys(self@.nodes)
        &&& unique_keys(self@.root)
        &&& forall|i: int|
            0 <= i < self@.root.len() ==> ((#[trigger] self@.root[i]).1 matches InputRefView::Alias(
                t,
            ) && self.nodes_map().contains_key(t))
    }

    /// The node name the top-level input at position `i` aliases.
    pub open spec fn alias_at(&self, i: int) -> Seq<char> {
        match self@.root[i].1 {
            InputRefView::Alias(t) => t,
            InputRefView::Path(_) => Seq::empty(),
        }
    }

    /// The node behind the top-level input called `name`, if the root maps
    /// that alias to a node of the graph.
    pub open spec fn input_node_view(&self, name: Seq<char>) -> Option<NodeView> {
        if exists|i: int| 0 <= i < self@.root.len() && self@.root[i].0 == name {
            let i = choose|i: int| 0 <= i < self@.root.len() && self@.root[i].0 == name;
            if self@.root[i].1 matches InputRefView::Alias(t) && self.nodes_map().contains_key(t) {
                Some(self.nodes_map()[self.alias_at(i)])
            } else {
                None
            }
        } else {
            None
        }
    }

    /// The flake's direct inputs: one pair per top-level alias, carrying the
    /// node it resolves to. The transitive graph is deliberately never
    /// walked.
    pub fn input_nodes(&self) -> (r: Vec<(String, Node)>)
        requires
            self.wf(),
        ensures
            r@.len() == self@.root.len(),
            forall|i: int|
                0 <= i < r@.len() ==> (#[trigger] pairs_view(r@)[i]).0 == self@.root[i].0
                    && pairs_view(r@)[i].1 == self.nodes_map()[self.alias_at(i)],
    {
        let mut r: Vec<(String, Node)> = Vec::new();
        let mut i: usize = 0;
        while i < self.root.inputs.len()
            invariant
                self.wf(),
                i <= self@.root.len(),
                self.root.inputs@.len() == self@.root.len(),
                r@.len() == i,
                forall|j: int|
                    0 <= j < i ==> (#[trigger] pairs_view(r@)[j]).0 == self@.root[j].0
                        && pairs_view(r@)[j].1 == self.nodes_map()[self.alias_at(j)],
            decreases self.root.inputs@.len() - i,
        {
            let (alias, re) = &self.root.inputs[i];
            proof {
                assert(self@.root[i as int] == (alias@, re@));
            }
            match re {
                InputReference::Alias(target) => {
                    match get_entry(&self.nodes, target.as_str()) {
                        Some(node) => {
                            let ghost r0 = r@;
                            r.push((alias.clone(), node.clone()));
                            proof {
                                assert(forall|j: int|
                                    0 <= j < i ==> #[trigger] pairs_view(r@)[j] == pairs_view(
                                        r0,
                                    )[j]);
                                assert(pairs_view(r@)[i as int].0 == alias@);
                                assert(pairs_view(r@)[i as int].1 == node@);
                            }
                        }
                        None => {
                            proof {
                                assert((self@.root[i as int].1 matches InputRefView::Alias(t)
                                    && self.nodes_map().contains_key(t)));
                            }
                            vstd::pervasive::unreached()
                        }
                    }
                }
                InputReference::Path(_) => {
                    proof {
                        assert((self@.root[i as int].1 matches InputRefView::Alias(t)
                            && self.nodes_map().contains_key(t)));
                    }
                    vstd::pervasive::unreached()
                }
            }
            i = i + 1;
        }
        r
    }

    /// The resolved descriptor of the top-level input called `input`, or
    /// nothing on an unknown name: errors surface at call sites that need
    /// the value, not here.
    pub fn locked_of(&self, input: &str) -> (r: Option<Locked>)
        requires
            self.wf(),
        ensures
            match r {
                Some(l) => self.input_node_view(input@) matches Some(n) && l@ == n.locked,
                None => self.input_node_view(input@) is None,
            },
    {
        match self.input_node(input) {
            Some(n) => Some(n.locked.clone()),
            None => None,
        }
    }

    /// The declared descriptor of the top-level input called `input`, or
    /// nothing on an unknown name.
    pub fn original_of(&self, input: &str) -> (r: Option<Original>)
        requires
            self.wf(),
        ensures
            match r {
                Some(o) => self.input_node_view(input@) matches Some(n) && o@ == n.original,
                None => self.input_node_view(input@) is None,
            },
    {
        match self.input_node(input) {
            Some(n) => Some(n.original.clone()),
            None => None,
        }
    }

    /// The pinned revision of the top-level input called `input`, or
    /// nothing on an unknown name.
    pub fn locked_rev_of(&self, input: &str) -> (r: Option<String>)
        requires
            self.wf(),
        ensures
            match r {
                Some(s) => self.input_node_view(input@) matches Some(n) && s@
                    == n.locked.rev_spec(),
                None => self.input_node_view(input@) is None,
            },
    {
        match self.input_node(input) {
            Some(n) => Some(n.locked.rev().clone()),
            None => None,
        }
    }

    /// Resolves a top-level alias to its node.
    fn input_node<'a>(&'a self, input: &str) -> (r: Option<&'a Node>)
        requires
            self.wf(),
        ensures
            match r {
                Some(n) => self.input_node_view(input@) == Some(n@),
                None => self.input_node_view(input@) is None,
            },
    {
        let mut i: usize = 0;
        while i < self.root.inputs.len()
            invariant
                self.wf(),
                i <= self@.root.len(),
                self.root.inputs@.len() == self@.root.len(),
                forall|j: int| 0 <= j < i ==> (#[trigger] self@.root[j]).0 != input@,
            decreases self.root.inputs@.len() - i,
        {
            let (alias, re) = &self.root.inputs[i];
            proof {
                assert(self@.root[i as int] == (alias@, re@));
            }
            if str_eq(alias.as_str(), input) {
                proof {
                    let w = choose|w: int| 0 <= w < self@.root.len() && self@.root[w].0 == input@;
                    if w != i as int {
                        assert(self@.root[w].0 != self@.root[i as int].0);
                    }
                }
                match re {
                    InputReference::Alias(target) => {
                        match get_entry(&self.nodes, target.as_str()) {
                            Some(node) => {
                                return Some(node);
                            }
                            None => {
                                proof {
                                    assert((self@.root[i as int].1 matches InputRefView::Alias(t)
                                        && self.nodes_map().contains_key(t)));
                                }
                                vstd::pervasive::unreached()
                            }
                        }
                    }
                    InputReference::Path(_) => {
                        proof {
                            assert((self@.root[i as int].1 matches InputRefView::Alias(t)
                                && self.nodes_map().contains_key(t)));
                        }
                        vstd::pervasive::unreached()
                    }
                }
            }
            i = i + 1;
        }
        None
    }
}

} // verus!
