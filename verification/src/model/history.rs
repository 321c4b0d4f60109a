//! The history of visited paths, held as a tree of path components.
use vstd::prelude::*;
use crate::path::{components_of, join, path_components, path_join};

pub mod cache;

verus! {

/// Where a history entry comes from.
#[derive(Clone, Copy, Debug, PartialEq, Eq, Structural)]
pub enum HistoryState {
    /// Added in this session.
    Added,
    /// Read from the history file.
    Loaded,
}

impl DeepView for HistoryState {
    type V = HistoryState;

    open spec fn deep_view(&self) -> HistoryState {
        *self
    }
}

/// One path component with the components recorded below it.
#[derive(Debug, PartialEq, Eq)]
pub struct HistoryNode {
    pub changed_at: u64,
    pub component: String,
    pub nodes: Vec<HistoryNode>,
    pub state: HistoryState,
}

/// A history node as plain values.
pub struct HistoryNodeView {
    pub changed_at: u64,
    pub component: Seq<char>,
    pub nodes: Seq<HistoryNodeView>,
    pub state: HistoryState,
}

/// The plain values of a list of nodes.
pub open spec fn nodes_view(nodes: Seq<HistoryNode>) -> Seq<HistoryNodeView>
    decreases nodes,
{
    Seq::new(
        nodes.len(),
        |i: int|
            if 0 <= i < nodes.len() {
                node_view(nodes[i])
            } else {
                arbitrary()
            },
    )
}

/// The plain values of a node.
pub open spec fn node_view(node: HistoryNode) -> HistoryNodeView
    decreases node,
{
    HistoryNodeView {
        changed_at: node.changed_at,
        component: node.component@,
        nodes: nodes_view(node.nodes@),
        state: node.state,
    }
}

/// The history: the recorded paths, as a forest of components.
#[derive(Debug, PartialEq, Eq)]
pub struct History {
    pub entries: Vec<HistoryNode>,
}

impl DeepView for History {
    type V = Seq<HistoryNodeView>;

    open spec fn deep_view(&self) -> Seq<HistoryNodeView> {
        nodes_view(self.entries@)
    }
}

impl Default for History {
    /// The history that records nothing.
    fn default() -> (history: History)
        ensures
            history.deep_view() == Seq::<HistoryNodeView>::empty(),
            distinct_components(history.deep_view()),
    {
        let history = History { entries: Vec::new() };
        proof {
            assert(history.deep_view() =~= Seq::<HistoryNodeView>::empty());
        }
        history
    }
}

/// Whether two nodes hold the same values, all the way down.
pub fn same_node(a: &HistoryNode, b: &HistoryNode) -> (same: bool)
    ensures
        same == (node_view(*a) == node_view(*b)),
    decreases a,
{
    a.changed_at == b.changed_at && a.component == b.component && a.state == b.state && same_nodes(
        &a.nodes,
        &b.nodes,
    )
}

/// Whether two lists of nodes hold the same values, all the way down.
pub fn same_nodes(a: &Vec<HistoryNode>, b: &Vec<HistoryNode>) -> (same: bool)
    ensures
        same == (nodes_view(a@) == nodes_view(b@)),
    decreases a,
{
    if a.len() != b.len() {
        proof {
            assert(nodes_view(a@).len() != nodes_view(b@).len());
        }
        return false;
    }
    let mut i: usize = 0;
    while i < a.len()
        invariant
            i <= a.len(),
            a.len() == b.len(),
            forall|j: int| 0 <= j < i ==> node_view(a@[j]) == node_view(b@[j]),
        decreases a.len() - i,
    {
        if !same_node(&a[i], &b[i]) {
            proof {
                assert(nodes_view(a@)[i as int] != nodes_view(b@)[i as int]);
            }
            return false;
        }
        i += 1;
    }
    proof {
        assert(nodes_view(a@) =~= nodes_view(b@));
    }
    true
}

impl History {
    /// Whether two histories record the same.
    pub fn same(&self, other: &History) -> (same: bool)
        ensures
            same == (self.deep_view() == other.deep_view()),
    {
        same_nodes(&self.entries, &other.entries)
    }
}

/// The position in `nodes` of the first node for the component `name`.
pub open spec fn node_position(nodes: Seq<HistoryNodeView>, name: Seq<char>) -> Option<int>
    decreases nodes.len(),
{
    if nodes.len() == 0 {
        None
    } else if nodes[0].component == name {
        Some(0)
    } else {
        match node_position(nodes.drop_first(), name) {
            Some(i) => Some(i + 1),
            None => None,
        }
    }
}

/// `node_position` finds the first node for the component.
pub proof fn lemma_node_position(nodes: Seq<HistoryNodeView>, name: Seq<char>)
    ensures
        match node_position(nodes, name) {
            Some(i) => 0 <= i < nodes.len() && nodes[i].component == name && forall|j: int|
                0 <= j < i ==> nodes[j].component != name,
            None => forall|j: int| 0 <= j < nodes.len() ==> nodes[j].component != name,
        },
    decreases nodes.len(),
{
    if nodes.len() > 0 && nodes[0].component != name {
        let rest = nodes.drop_first();
        lemma_node_position(rest, name);
        match node_position(rest, name) {
            Some(i) => {
                assert forall|j: int| 0 <= j < i + 1 implies nodes[j].component != name by {
                    if j > 0 {
                        assert(rest[j - 1] == nodes[j]);
                    }
                }
                assert(rest[i] == nodes[i + 1]);
            },
            None => {
                assert forall|j: int| 0 <= j < nodes.len() implies nodes[j].component != name by {
                    if j > 0 {
                        assert(rest[j - 1] == nodes[j]);
                    }
                }
            },
        }
    }
}

/// The node for `name` as it is first recorded.
pub open spec fn fresh_node(
    changed_at: u64,
    state: HistoryState,
    name: Seq<char>,
) -> HistoryNodeView {
    HistoryNodeView { changed_at, component: name, nodes: Seq::empty(), state }
}

/// The nodes after the path with these components is recorded. Each
/// component is found or added on its level; a node that was changed
/// before `changed_at` takes that time and `state`.
pub open spec fn with_entry(
    nodes: Seq<HistoryNodeView>,
    changed_at: u64,
    state: HistoryState,
    components: Seq<Seq<char>>,
) -> Seq<HistoryNodeView>
    decreases components.len(),
{
    if components.len() == 0 {
        nodes
    } else {
        let name = components[0];
        let found = match node_position(nodes, name) {
            Some(i) => nodes,
            None => nodes.push(fresh_node(changed_at, state, name)),
        };
        let i = match node_position(nodes, name) {
            Some(i) => i,
            None => nodes.len() as int,
        };
        let node = found[i];
        let newer = node.changed_at < changed_at;
        found.update(
            i,
            HistoryNodeView {
                changed_at: if newer {
                    changed_at
                } else {
                    node.changed_at
                },
                component: node.component,
                nodes: with_entry(node.nodes, changed_at, state, components.drop_first()),
                state: if newer {
                    state
                } else {
                    node.state
                },
            },
        )
    }
}

/// Whether every component occurs once among its siblings, on every level.
pub open spec fn distinct_components(nodes: Seq<HistoryNodeView>) -> bool
    decreases nodes,
{
    &&& forall|i: int, j: int|
        0 <= i < j < nodes.len() ==> nodes[i].component != nodes[j].component
    &&& forall|i: int| 0 <= i < nodes.len() ==> distinct_components(#[trigger] nodes[i].nodes)
}

/// Recording a path keeps every component once among its siblings.
pub proof fn lemma_with_entry_keeps_distinct(
    nodes: Seq<HistoryNodeView>,
    changed_at: u64,
    state: HistoryState,
    components: Seq<Seq<char>>,
)
    requires
        distinct_components(nodes),
    ensures
        distinct_components(with_entry(nodes, changed_at, state, components)),
    decreases components.len(),
{
    if components.len() > 0 {
        let name = components[0];
        lemma_node_position(nodes, name);
        let found = match node_position(nodes, name) {
            Some(i) => nodes,
            None => nodes.push(fresh_node(changed_at, state, name)),
        };
        let i = match node_position(nodes, name) {
            Some(i) => i,
            None => nodes.len() as int,
        };
        let after = with_entry(nodes, changed_at, state, components);
        assert(distinct_components(found[i].nodes)) by {
            if node_position(nodes, name) is Some {
                assert(found[i] == nodes[i]);
            }
        }
        lemma_with_entry_keeps_distinct(found[i].nodes, changed_at, state, components.drop_first());
        assert(after.len() == found.len());
        assert forall|a: int| 0 <= a < after.len() implies after[a].component
            == found[a].component && (a != i ==> after[a] == found[a]) by {}
        assert forall|a: int, b: int| 0 <= a < b < after.len() implies after[a].component
            != after[b].component by {
            if b < nodes.len() {
                assert(found[a] == nodes[a] && found[b] == nodes[b]);
            } else {
                assert(found[a] == nodes[a]);
            }
        }
        assert forall|a: int| 0 <= a < after.len() implies distinct_components(
            #[trigger] after[a].nodes,
        ) by {
            if a != i {
                if a < nodes.len() {
                    assert(found[a] == nodes[a]);
                }
            }
        }
    }
}

/// The recorded paths below `nodes[..count]`, each with the time and state
/// of its last component, where `current` is the path that leads to the
/// nodes. A path is recorded where no further component follows.
pub open spec fn paths_upto(current: Seq<char>, nodes: Seq<HistoryNodeView>, count: nat) -> Seq<
    (u64, HistoryState, Seq<char>),
>
    decreases nodes, count,
{
    if count == 0 || count > nodes.len() {
        Seq::empty()
    } else {
        paths_upto(current, nodes, (count - 1) as nat) + paths_below(current, nodes[count - 1])
    }
}

/// The recorded paths at and below `node`, where `current` is the path that
/// leads to it.
pub open spec fn paths_below(current: Seq<char>, node: HistoryNodeView) -> Seq<
    (u64, HistoryState, Seq<char>),
>
    decreases node, 0nat,
{
    let path = path_join(current, node.component);
    if node.nodes.len() == 0 {
        seq![(node.changed_at, node.state, path)]
    } else {
        paths_upto(path, node.nodes, node.nodes.len())
    }
}

/// The recorded paths below `nodes`.
pub open spec fn paths_of(current: Seq<char>, nodes: Seq<HistoryNodeView>) -> Seq<
    (u64, HistoryState, Seq<char>),
> {
    paths_upto(current, nodes, nodes.len())
}

/// The position in `nodes` of the first node for the component `name`.
fn find_node(nodes: &Vec<HistoryNode>, name: &String) -> (found: Option<usize>)
    ensures
        match found {
            Some(i) => node_position(nodes_view(nodes@), name@) == Some(i as int) && i
                < nodes.len(),
            None => node_position(nodes_view(nodes@), name@) is None,
        },
{
    let mut i: usize = 0;
    while i < nodes.len()
        invariant
            i <= nodes.len(),
            forall|j: int| 0 <= j < i ==> nodes_view(nodes@)[j].component != name@,
        decreases nodes.len() - i,
    {
        if nodes[i].component == *name {
            proof {
                assert(nodes_view(nodes@)[i as int].component == name@);
                lemma_node_position(nodes_view(nodes@), name@);
            }
            return Some(i);
        }
        proof {
            assert(nodes_view(nodes@)[i as int].component != name@);
        }
        i += 1;
    }
    proof {
        lemma_node_position(nodes_view(nodes@), name@);
    }
    None
}

/// The components from the one with index `from` on; none past the last.
pub open spec fn components_from(components: Seq<Seq<char>>, from: int) -> Seq<Seq<char>> {
    if 0 <= from <= components.len() {
        components.skip(from)
    } else {
        Seq::empty()
    }
}

/// Records the path with the components `components[from..]` below `nodes`.
pub fn add_entry(
    nodes: &mut Vec<HistoryNode>,
    changed_at: u64,
    state: HistoryState,
    components: &Vec<String>,
    from: usize,
)
    ensures
        nodes_view(final(nodes)@) == with_entry(
            nodes_view(old(nodes)@),
            changed_at,
            state,
            components_from(components.deep_view(), from as int),
        ),
        distinct_components(nodes_view(old(nodes)@)) ==> distinct_components(
            nodes_view(final(nodes)@),
        ),
    decreases components.len() - from,
{
    let ghost rest = components_from(components.deep_view(), from as int);
    proof {
        if distinct_components(nodes_view(nodes@)) {
            lemma_with_entry_keeps_distinct(nodes_view(nodes@), changed_at, state, rest);
        }
    }
    if from >= components.len() {
        return ;
    }
    let name = &components[from];
    proof {
        assert(rest[0] == name@);
        assert(rest.drop_first() =~= components.deep_view().skip(from + 1));
    }
    let i = match find_node(nodes, name) {
        Some(i) => i,
        None => {
            nodes.push(
                HistoryNode { changed_at, component: name.clone(), nodes: Vec::new(), state },
            );
            nodes.len() - 1
        },
    };
    let ghost found = nodes_view(nodes@);
    proof {
        match node_position(nodes_view(old(nodes)@), name@) {
            Some(_) => {},
            None => {
                assert(nodes_view(nodes@[i as int].nodes@) =~= Seq::empty());
                assert(found =~= nodes_view(old(nodes)@).push(
                    fresh_node(changed_at, state, name@),
                ));
            },
        }
    }
    if nodes[i].changed_at < changed_at {
        nodes[i].changed_at = changed_at;
        nodes[i].state = state;
    }
    add_entry(&mut nodes[i].nodes, changed_at, state, components, from + 1);
    proof {
        let expected = with_entry(nodes_view(old(nodes)@), changed_at, state, rest);
        assert(nodes_view(nodes@).len() == expected.len());
        assert forall|j: int| 0 <= j < expected.len() implies nodes_view(nodes@)[j]
            == expected[j] by {
            if j != i {
                assert(nodes_view(nodes@)[j] == found[j]);
            }
        }
        assert(nodes_view(nodes@) =~= expected);
    }
}

/// The recorded paths below `nodes`, each with the time and state of its
/// last component, where `current_path` is the path that leads to the nodes.
pub fn get_paths(current_path: String, nodes: &Vec<HistoryNode>) -> (result: Vec<
    (u64, HistoryState, String),
>)
    ensures
        result.deep_view() == paths_of(current_path@, nodes_view(nodes@)),
    decreases nodes,
{
    let mut result: Vec<(u64, HistoryState, String)> = Vec::new();
    let mut i: usize = 0;
    proof {
        assert(result.deep_view() =~= Seq::empty());
    }
    while i < nodes.len()
        invariant
            i <= nodes.len(),
            result.deep_view() == paths_upto(current_path@, nodes_view(nodes@), i as nat),
        decreases nodes.len() - i,
    {
        let node = &nodes[i];
        let path = join(current_path.as_str(), node.component.as_str());
        let ghost before = result.deep_view();
        proof {
            let views = nodes_view(nodes@);
            assert(views[i as int] == node_view(*node));
            assert(node_view(*node).nodes == nodes_view(node.nodes@));
            assert(node_view(*node).nodes.len() == node.nodes.len());
            assert(paths_upto(current_path@, views, (i + 1) as nat) == paths_upto(
                current_path@,
                views,
                i as nat,
            ) + paths_below(current_path@, views[i as int]));
        }
        if node.nodes.len() == 0 {
            proof {
                assert(node_view(*node).nodes.len() == 0);
            }
            result.push((node.changed_at, node.state, path));
            proof {
                assert(result.deep_view() =~= before + seq![
                    (node.changed_at, node.state, path@),
                ]);
            }
        } else {
            let mut below = get_paths(path, &node.nodes);
            let ghost added = below.deep_view();
            result.append(&mut below);
            proof {
                assert(node_view(*node).nodes.len() == node.nodes.len());
                assert(result.deep_view() =~= before + added);
            }
        }
        i += 1;
    }
    result
}

impl History {
    /// Records `path` as visited at the time `now`.
    pub fn add(&mut self, path: &str, now: u64)
        ensures
            final(self).deep_view() == with_entry(
                old(self).deep_view(),
                now,
                HistoryState::Added,
                path_components(path@),
            ),
            distinct_components(old(self).deep_view()) ==> distinct_components(
                final(self).deep_view(),
            ),
    {
        let components = components_of(path);
        proof {
            assert(components.deep_view().skip(0) =~= components.deep_view());
        }
        add_entry(&mut self.entries, now, HistoryState::Added, &components, 0);
    }
}

} // verus!
