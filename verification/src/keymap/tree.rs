//! The binding tables, one per mode, held as tries over keys.
//!
//! A table maps key sequences to bindings. It need not be prefix-free: `g`
//! and `g g` may both occur. Looking a sequence up therefore has three
//! outcomes, which [`lookup_in`] defines over the table as a map.
use vstd::prelude::*;
use crate::keymap::key::Key;
use crate::keymap::message::{Binding, Mode};

verus! {

/// Why a mapping was not added to a table.
#[derive(Clone, Copy, Debug, PartialEq, Eq, Structural)]
pub enum KeyMapError {
    /// The key sequence is empty.
    EmptyKeySequence,
    /// The key sequence already has a binding.
    KeySequenceAlreadyBound,
}

/// The outcome of looking a key sequence up in a table.
#[derive(Clone, Copy, Debug, PartialEq, Eq, Structural)]
pub enum Lookup {
    /// No bound sequence starts with the keys.
    Unbound,
    /// Some longer bound sequence starts with the keys.
    Pending,
    /// The keys are bound, and no longer bound sequence starts with them.
    Bound(Binding),
}

/// Whether `longer` starts with `keys`.
pub open spec fn starts_with(longer: Seq<Key>, keys: Seq<Key>) -> bool {
    keys.len() <= longer.len() && longer.take(keys.len() as int) == keys
}

/// Whether `longer` is bound in `table` and continues `keys` by at least one key.
pub open spec fn continues(
    table: Map<Seq<Key>, Binding>,
    keys: Seq<Key>,
    longer: Seq<Key>,
) -> bool {
    table.dom().contains(longer) && keys.len() < longer.len() && starts_with(longer, keys)
}

/// Whether some bound sequence of `table` continues `keys`.
pub open spec fn has_continuation(table: Map<Seq<Key>, Binding>, keys: Seq<Key>) -> bool {
    exists|longer: Seq<Key>| continues(table, keys, longer)
}

/// The outcome of looking `keys` up in `table`. A sequence that is bound and
/// also has a continuation stays pending.
pub open spec fn lookup_in(table: Map<Seq<Key>, Binding>, keys: Seq<Key>) -> Lookup {
    if has_continuation(table, keys) {
        Lookup::Pending
    } else if table.dom().contains(keys) {
        Lookup::Bound(table[keys])
    } else {
        Lookup::Unbound
    }
}

/// The table that results from adding a mapping to `table`: an empty
/// sequence or one that is already bound leaves the table as it is.
pub open spec fn table_with(table: Map<Seq<Key>, Binding>, keys: Seq<Key>, binding: Binding) -> Map<
    Seq<Key>,
    Binding,
> {
    if keys.len() == 0 || table.dom().contains(keys) {
        table
    } else {
        table.insert(keys, binding)
    }
}

/// What adding a mapping to `table` reports.
pub open spec fn add_result(table: Map<Seq<Key>, Binding>, keys: Seq<Key>) -> Result<
    (),
    KeyMapError,
> {
    if keys.len() == 0 {
        Err(KeyMapError::EmptyKeySequence)
    } else if table.dom().contains(keys) {
        Err(KeyMapError::KeySequenceAlreadyBound)
    } else {
        Ok(())
    }
}

/// A node of a trie: the binding of the sequence that leads here, if it has
/// one, and the nodes one key further on.
struct Node {
    binding: Option<Binding>,
    children: Vec<(Key, usize)>,
}

/// A trie for one mode, held as an arena whose first node is the root.
struct Trie {
    nodes: Vec<Node>,
    /// For each node, the key sequence that leads to it from the root.
    paths: Ghost<Seq<Seq<Key>>>,
    /// For each node but the root, the node it hangs from.
    parents: Ghost<Seq<int>>,
}

/// The position in `children` of the entry for `key`, if there is one.
fn find_child(children: &Vec<(Key, usize)>, key: Key) -> (found: Option<usize>)
    ensures
        match found {
            Some(j) => j < children.len() && children[j as int].0 == key,
            None => forall|j: int| 0 <= j < children.len() ==> children[j].0 != key,
        },
{
    let mut j: usize = 0;
    while j < children.len()
        invariant
            j <= children.len(),
            forall|i: int| 0 <= i < j ==> children[i].0 != key,
        decreases children.len() - j,
    {
        if children[j].0 == key {
            return Some(j);
        }
        j += 1;
    }
    None
}

impl Trie {
    spec fn len(&self) -> int {
        self.nodes@.len() as int
    }

    /// Node `parent` has an edge labelled `key` to node `child`.
    spec fn edge(&self, parent: int, key: Key, child: int) -> bool {
        exists|j: int|
            0 <= j < self.nodes@[parent].children@.len()
                && #[trigger] self.nodes@[parent].children@[j] == (key, child as usize)
    }

    /// The arena is a tree below its root, and `paths` and `parents` describe it.
    spec fn wf_shape(&self) -> bool {
        &&& self.len() >= 1
        &&& self.paths@.len() == self.len()
        &&& self.parents@.len() == self.len()
        &&& self.paths@[0].len() == 0
        &&& self.nodes@[0].binding is None
        &&& forall|i: int, j: int|
            0 <= i < self.len() && 0 <= j < self.nodes@[i].children@.len() ==> {
                let (key, child) = #[trigger] self.nodes@[i].children@[j];
                &&& i < child < self.len()
                &&& self.paths@[child as int] == self.paths@[i].push(key)
            }
        &&& forall|i: int, j: int, k: int|
            0 <= i < self.len() && 0 <= j < k < self.nodes@[i].children@.len() ==> (
            #[trigger] self.nodes@[i].children@[j]).0 != (
            #[trigger] self.nodes@[i].children@[k]).0
        &&& forall|c: int|
            1 <= c < self.len() ==> {
                &&& 0 <= #[trigger] self.parents@[c] < c
                &&& exists|j: int|
                    0 <= j < self.nodes@[self.parents@[c]].children@.len() && (
                    #[trigger] self.nodes@[self.parents@[c]].children@[j]).1 == c
            }
        &&& forall|a: int, b: int|
            0 <= a < self.len() && 0 <= b < self.len() && #[trigger] self.paths@[a]
                == #[trigger] self.paths@[b] ==> a == b
    }

    /// Every node but `open` that has no children has a binding.
    spec fn leaves_bound_but(&self, open: int) -> bool {
        forall|i: int|
            1 <= i < self.len() && i != open && (#[trigger] self.nodes@[i]).children@.len() == 0
                ==> self.nodes@[i].binding is Some
    }

    spec fn wf(&self) -> bool {
        self.wf_shape() && self.leaves_bound_but(0)
    }

    /// Node `i` lies at the end of `keys` and has a binding.
    spec fn binds(&self, i: int, keys: Seq<Key>) -> bool {
        0 <= i < self.len() && self.paths@[i] == keys && self.nodes@[i].binding is Some
    }

    /// The table this trie holds.
    spec fn table(&self) -> Map<Seq<Key>, Binding> {
        Map::new(
            |keys: Seq<Key>| exists|i: int| self.binds(i, keys),
            |keys: Seq<Key>| self.nodes@[choose|i: int| self.binds(i, keys)].binding.unwrap(),
        )
    }

    /// A bound node shows in the table under its path.
    proof fn lemma_bound_node(&self, i: int)
        requires
            self.wf_shape(),
            0 <= i < self.len(),
            self.nodes@[i].binding is Some,
        ensures
            self.table().dom().contains(self.paths@[i]),
            self.table()[self.paths@[i]] == self.nodes@[i].binding.unwrap(),
    {
        let keys = self.paths@[i];
        assert(self.binds(i, keys));
        let chosen = choose|n: int| self.binds(n, keys);
        assert(self.paths@[chosen] == self.paths@[i]);
    }

    /// A bound sequence is the path of a bound node.
    proof fn lemma_bound_keys(&self, keys: Seq<Key>) -> (i: int)
        requires
            self.table().dom().contains(keys),
        ensures
            self.binds(i, keys),
    {
        choose|i: int| self.binds(i, keys)
    }

    /// The path of a node's parent is the node's path without its last key.
    proof fn lemma_parent(&self, c: int)
        requires
            self.wf_shape(),
            1 <= c < self.len(),
        ensures
            self.paths@[c].len() == self.paths@[self.parents@[c]].len() + 1,
            self.paths@[c] == self.paths@[self.parents@[c]].push(self.paths@[c].last()),
            self.edge(self.parents@[c], self.paths@[c].last(), c),
    {
        let p = self.parents@[c];
        let j = choose|j: int|
            0 <= j < self.nodes@[p].children@.len() && (#[trigger] self.nodes@[p].children@[j]).1
                == c;
        let (key, child) = self.nodes@[p].children@[j];
        assert(self.paths@[child as int] == self.paths@[p].push(key));
        assert(self.nodes@[p].children@[j] == (self.paths@[c].last(), c as usize));
    }

    /// Every prefix of a node's path is the path of a node.
    proof fn lemma_ancestor(&self, i: int, l: int) -> (a: int)
        requires
            self.wf_shape(),
            0 <= i < self.len(),
            0 <= l <= self.paths@[i].len(),
        ensures
            0 <= a < self.len(),
            self.paths@[a] == self.paths@[i].take(l),
        decreases i,
    {
        if l == self.paths@[i].len() {
            assert(self.paths@[i].take(l) =~= self.paths@[i]);
            i
        } else {
            self.lemma_parent(i);
            let p = self.parents@[i];
            let a = self.lemma_ancestor(p, l);
            assert(self.paths@[i].take(l) =~= self.paths@[p].take(l));
            a
        }
    }

    /// A node without an edge for `key` has no node one `key` further on.
    proof fn lemma_no_edge(&self, cur: int, key: Key)
        requires
            self.wf_shape(),
            0 <= cur < self.len(),
            forall|j: int|
                0 <= j < self.nodes@[cur].children@.len() ==> self.nodes@[cur].children@[j].0
                    != key,
        ensures
            forall|c: int| 0 <= c < self.len() ==> self.paths@[c] != self.paths@[cur].push(key),
    {
        assert forall|c: int| 0 <= c < self.len() implies self.paths@[c] != self.paths@[cur].push(
            key,
        ) by {
            if self.paths@[c] == self.paths@[cur].push(key) {
                assert(self.paths@[c].len() > 0);
                self.lemma_parent(c);
                let p = self.parents@[c];
                assert(self.paths@[p] =~= self.paths@[c].drop_last());
                assert(self.paths@[cur] =~= self.paths@[cur].push(key).drop_last());
                assert(p == cur);
                assert(self.paths@[c].last() == key);
            }
        }
    }

    /// Below every node that has children or is not the root lies a bound node.
    proof fn lemma_bound_below(&self, i: int) -> (d: int)
        requires
            self.wf(),
            0 <= i < self.len(),
            i >= 1 || self.nodes@[i].children@.len() > 0,
        ensures
            0 <= d < self.len(),
            self.nodes@[d].binding is Some,
            starts_with(self.paths@[d], self.paths@[i]),
            self.nodes@[i].children@.len() > 0 ==> self.paths@[i].len() < self.paths@[d].len(),
        decreases self.len() - i,
    {
        if self.nodes@[i].children@.len() == 0 {
            assert(self.paths@[i].take(self.paths@[i].len() as int) =~= self.paths@[i]);
            i
        } else {
            let (key, child) = self.nodes@[i].children@[0];
            let d = self.lemma_bound_below(child as int);
            let n = self.paths@[i].len() as int;
            assert(self.paths@[d].take(n) =~= self.paths@[child as int].take(n));
            assert(self.paths@[child as int].take(n) =~= self.paths@[i]);
            d
        }
    }

    /// If no node lies at the end of a prefix of `keys`, nothing bound starts with `keys`.
    proof fn lemma_unbound(&self, keys: Seq<Key>, l: int)
        requires
            self.wf_shape(),
            0 <= l <= keys.len(),
            forall|c: int| 0 <= c < self.len() ==> self.paths@[c] != keys.take(l),
        ensures
            lookup_in(self.table(), keys) == Lookup::Unbound,
    {
        assert forall|longer: Seq<Key>|
            self.table().dom().contains(longer) implies !starts_with(longer, keys) by {
            if starts_with(longer, keys) {
                let d = self.lemma_bound_keys(longer);
                let a = self.lemma_ancestor(d, l);
                assert(longer.take(l) =~= longer.take(keys.len() as int).take(l));
            }
        }
        assert(!self.table().dom().contains(keys)) by {
            if self.table().dom().contains(keys) {
                assert(keys.take(keys.len() as int) =~= keys);
                assert(starts_with(keys, keys));
            }
        }
    }

    /// A node without children has nothing bound past it.
    proof fn lemma_no_continuation(&self, cur: int)
        requires
            self.wf_shape(),
            0 <= cur < self.len(),
            self.nodes@[cur].children@.len() == 0,
        ensures
            !has_continuation(self.table(), self.paths@[cur]),
    {
        let keys = self.paths@[cur];
        assert forall|longer: Seq<Key>| !continues(self.table(), keys, longer) by {
            if continues(self.table(), keys, longer) {
                let n = keys.len() as int;
                let d = self.lemma_bound_keys(longer);
                let a = self.lemma_ancestor(d, n + 1);
                self.lemma_parent(a);
                let p = self.parents@[a];
                assert(self.paths@[p] =~= longer.take(n + 1).drop_last());
                assert(longer.take(n + 1).drop_last() =~= longer.take(n));
                assert(p == cur);
            }
        }
    }

    /// The trie that binds nothing.
    fn new() -> (trie: Trie)
        ensures
            trie.wf(),
            trie.table() == Map::<Seq<Key>, Binding>::empty(),
    {
        let mut nodes = Vec::new();
        nodes.push(Node { binding: None, children: Vec::new() });
        let ghost paths: Seq<Seq<Key>> = Seq::empty().push(Seq::empty());
        let ghost parents: Seq<int> = Seq::empty().push(0int);
        let trie = Trie { nodes, paths: Ghost(paths), parents: Ghost(parents) };
        proof {
            assert(trie.wf_shape());
            assert(trie.table() =~= Map::<Seq<Key>, Binding>::empty());
        }
        trie
    }

    /// Follows `keys` from the root as far as the trie goes: the node
    /// reached, and how many keys led there.
    fn descend(&self, keys: &Vec<Key>) -> (reached: (usize, usize))
        requires
            self.wf_shape(),
        ensures
            reached.0 < self.len(),
            reached.1 <= keys.len(),
            self.paths@[reached.0 as int] == keys@.take(reached.1 as int),
            reached.1 < keys.len() ==> forall|j: int|
                0 <= j < self.nodes@[reached.0 as int].children@.len()
                    ==> self.nodes@[reached.0 as int].children@[j].0 != keys[reached.1 as int],
    {
        let mut cur: usize = 0;
        let mut t: usize = 0;
        proof {
            assert(self.paths@[0] =~= keys@.take(0));
        }
        while t < keys.len()
            invariant
                self.wf_shape(),
                t <= keys.len(),
                cur < self.len(),
                self.paths@[cur as int] == keys@.take(t as int),
            decreases keys.len() - t,
        {
            match find_child(&self.nodes[cur].children, keys[t]) {
                None => {
                    return (cur, t);
                },
                Some(j) => {
                    let child = self.nodes[cur].children[j].1;
                    proof {
                        let entry = self.nodes@[cur as int].children@[j as int];
                        assert(entry == (keys[t as int], child));
                        assert(keys@.take(t as int).push(keys[t as int]) =~= keys@.take(t + 1));
                    }
                    cur = child;
                    t += 1;
                },
            }
        }
        (cur, t)
    }

    /// Looks `keys` up.
    fn lookup(&self, keys: &Vec<Key>) -> (outcome: Lookup)
        requires
            self.wf(),
        ensures
            outcome == lookup_in(self.table(), keys@),
    {
        let (cur, t) = self.descend(keys);
        if t < keys.len() {
            proof {
                self.lemma_no_edge(cur as int, keys[t as int]);
                assert(keys@.take(t as int).push(keys[t as int]) =~= keys@.take(t + 1));
                self.lemma_unbound(keys@, t + 1);
            }
            return Lookup::Unbound;
        }
        proof {
            assert(keys@.take(t as int) =~= keys@);
        }
        if self.nodes[cur].children.len() > 0 {
            proof {
                let d = self.lemma_bound_below(cur as int);
                self.lemma_bound_node(d);
                assert(continues(self.table(), keys@, self.paths@[d]));
            }
            return Lookup::Pending;
        }
        proof {
            self.lemma_no_continuation(cur as int);
        }
        match self.nodes[cur].binding {
            Some(binding) => {
                proof {
                    self.lemma_bound_node(cur as int);
                }
                Lookup::Bound(binding)
            },
            None => {
                proof {
                    if self.table().dom().contains(keys@) {
                        let d = self.lemma_bound_keys(keys@);
                        assert(d == cur);
                    }
                }
                Lookup::Unbound
            },
        }
    }

    /// Binding node `cur`, which lies at the end of `keys` and was unbound or
    /// is new, adds exactly that mapping to the table.
    proof fn lemma_table_after_insert(
        before: &Trie,
        after: &Trie,
        cur: int,
        keys: Seq<Key>,
        binding: Binding,
    )
        requires
            before.wf_shape(),
            after.wf_shape(),
            before.len() <= after.len(),
            0 <= cur < after.len(),
            after.paths@[cur] == keys,
            after.nodes@[cur].binding == Some(binding),
            cur < before.len() ==> before.nodes@[cur].binding is None,
            forall|i: int|
                0 <= i < before.len() ==> after.paths@[i] == before.paths@[i] && (i != cur
                    ==> after.nodes@[i].binding == before.nodes@[i].binding),
            forall|i: int|
                before.len() <= i < after.len() && i != cur ==> after.nodes@[i].binding is None,
        ensures
            !before.table().dom().contains(keys),
            after.table() == before.table().insert(keys, binding),
    {
        let old_table = before.table();
        let new_table = after.table();
        if old_table.dom().contains(keys) {
            let d = before.lemma_bound_keys(keys);
            assert(after.paths@[d] == after.paths@[cur]);
        }
        assert forall|s: Seq<Key>| new_table.dom().contains(s) <==> old_table.insert(
            keys,
            binding,
        ).dom().contains(s) by {
            if new_table.dom().contains(s) {
                let i = after.lemma_bound_keys(s);
                if i != cur {
                    assert(before.binds(i, s));
                }
            }
            if old_table.dom().contains(s) {
                let i = before.lemma_bound_keys(s);
                assert(after.binds(i, s));
            }
            if s == keys {
                assert(after.binds(cur, s));
            }
        }
        assert forall|s: Seq<Key>| new_table.dom().contains(s) implies new_table[s]
            == old_table.insert(keys, binding)[s] by {
            let i = after.lemma_bound_keys(s);
            after.lemma_bound_node(i);
            if i != cur {
                assert(before.binds(i, s));
                before.lemma_bound_node(i);
            }
        }
        assert(new_table =~= old_table.insert(keys, binding));
    }

    /// Adds a mapping, unless `keys` is empty or bound already.
    fn insert(&mut self, keys: &Vec<Key>, binding: Binding) -> (added: Result<(), KeyMapError>)
        requires
            old(self).wf(),
        ensures
            final(self).wf(),
            added == add_result(old(self).table(), keys@),
            final(self).table() == table_with(old(self).table(), keys@, binding),
    {
        if keys.len() == 0 {
            return Err(KeyMapError::EmptyKeySequence);
        }
        let (start, matched) = self.descend(keys);
        let mut cur = start;
        let mut t = matched;
        if t == keys.len() {
            proof {
                assert(keys@.take(t as int) =~= keys@);
            }
            if self.nodes[cur].binding.is_some() {
                proof {
                    self.lemma_bound_node(cur as int);
                }
                return Err(KeyMapError::KeySequenceAlreadyBound);
            }
        }
        while t < keys.len()
            invariant
                t <= keys.len(),
                cur < self.len(),
                old(self).wf_shape(),
                self.wf_shape(),
                self.leaves_bound_but(cur as int),
                self.paths@[cur as int] == keys@.take(t as int),
                t < keys.len() ==> forall|j: int|
                    0 <= j < self.nodes@[cur as int].children@.len()
                        ==> self.nodes@[cur as int].children@[j].0 != keys[t as int],
                t == keys.len() ==> self.nodes@[cur as int].binding is None,
                t == keys.len() && cur < old(self).len() ==> old(self).nodes@[cur as int].binding
                    is None,
                old(self).len() <= self.len(),
                forall|i: int|
                    0 <= i < old(self).len() ==> self.paths@[i] == old(self).paths@[i]
                        && self.nodes@[i].binding == old(self).nodes@[i].binding,
                forall|i: int|
                    old(self).len() <= i < self.len() ==> self.nodes@[i].binding is None,
            decreases keys.len() - t,
        {
            let fresh = self.nodes.len();
            let key = keys[t];
            proof {
                self.lemma_no_edge(cur as int, key);
                assert(keys@.take(t as int).push(key) =~= keys@.take(t + 1));
            }
            let ghost prev = *self;
            self.nodes.push(Node { binding: None, children: Vec::new() });
            self.nodes[cur].children.push((key, fresh));
            self.paths = Ghost(self.paths@.push(keys@.take(t + 1)));
            self.parents = Ghost(self.parents@.push(cur as int));
            proof {
                let edges = prev.nodes@[cur as int].children@;
                assert(self.nodes@[cur as int].children@ == edges.push((key, fresh)));
                assert(self.nodes@[cur as int].binding == prev.nodes@[cur as int].binding);
                assert forall|i: int| 0 <= i < prev.len() && i != cur implies self.nodes@[i]
                    == prev.nodes@[i] by {}
                assert forall|i: int, j: int|
                    0 <= i < self.len() && 0 <= j < self.nodes@[i].children@.len() implies {
                    let (k, child) = #[trigger] self.nodes@[i].children@[j];
                    &&& i < child < self.len()
                    &&& self.paths@[child as int] == self.paths@[i].push(k)
                } by {
                    if i == cur && j < edges.len() {
                        assert(self.nodes@[i].children@[j] == prev.nodes@[i].children@[j]);
                    } else if i < prev.len() && i != cur {
                        assert(self.nodes@[i].children@[j] == prev.nodes@[i].children@[j]);
                    }
                }
                assert forall|i: int, j: int, k: int|
                    0 <= i < self.len() && 0 <= j < k < self.nodes@[i].children@.len() implies (
                #[trigger] self.nodes@[i].children@[j]).0 != (
                #[trigger] self.nodes@[i].children@[k]).0 by {
                    if i == cur {
                        if k < edges.len() {
                            assert(self.nodes@[i].children@[j] == prev.nodes@[i].children@[j]);
                            assert(self.nodes@[i].children@[k] == prev.nodes@[i].children@[k]);
                        } else {
                            assert(self.nodes@[i].children@[j] == edges[j]);
                        }
                    } else if i < prev.len() {
                        assert(self.nodes@[i].children@[j] == prev.nodes@[i].children@[j]);
                        assert(self.nodes@[i].children@[k] == prev.nodes@[i].children@[k]);
                    }
                }
                assert forall|c: int| 1 <= c < self.len() implies {
                    &&& 0 <= #[trigger] self.parents@[c] < c
                    &&& exists|j: int|
                        0 <= j < self.nodes@[self.parents@[c]].children@.len() && (
                        #[trigger] self.nodes@[self.parents@[c]].children@[j]).1 == c
                } by {
                    if c == fresh {
                        let j = edges.len() as int;
                        assert(self.nodes@[cur as int].children@[j].1 == c);
                    } else {
                        let p = prev.parents@[c];
                        let j = choose|j: int|
                            0 <= j < prev.nodes@[p].children@.len() && (
                            #[trigger] prev.nodes@[p].children@[j]).1 == c;
                        assert(self.nodes@[p].children@[j] == prev.nodes@[p].children@[j]);
                    }
                }
                assert(self.wf_shape());
            }
            cur = fresh;
            t += 1;
        }
        proof {
            assert(keys@.take(t as int) =~= keys@);
            assert(cur != 0);
        }
        let ghost prev = *self;
        self.nodes[cur].binding = Some(binding);
        proof {
            assert forall|i: int| 0 <= i < prev.len() && i != cur implies self.nodes@[i]
                == prev.nodes@[i] by {}
            assert(self.nodes@[cur as int].children == prev.nodes@[cur as int].children);
            assert(self.wf_shape());
            assert forall|i: int| 0 <= i < old(self).len() implies self.paths@[i] == old(
                self,
            ).paths@[i] && (i != cur ==> self.nodes@[i].binding == old(self).nodes@[i].binding) by {
                assert(self.paths@[i] == prev.paths@[i]);
                if i != cur {
                    assert(self.nodes@[i] == prev.nodes@[i]);
                }
            }
            Self::lemma_table_after_insert(old(self), self, cur as int, keys@, binding);
        }
        Ok(())
    }
}

/// The binding tables of all modes.
pub struct KeyTree {
    command: Trie,
    insert: Trie,
    navigation: Trie,
    normal: Trie,
}

impl KeyTree {
    #[verifier::type_invariant]
    spec fn well_formed(&self) -> bool {
        self.command.wf() && self.insert.wf() && self.navigation.wf() && self.normal.wf()
    }

    /// The table of `mode`: the key sequences that are bound, each with its binding.
    pub closed spec fn bindings(&self, mode: Mode) -> Map<Seq<Key>, Binding> {
        match mode {
            Mode::Command => self.command.table(),
            Mode::Insert => self.insert.table(),
            Mode::Navigation => self.navigation.table(),
            Mode::Normal => self.normal.table(),
        }
    }

    /// Binds `keys` to `binding` in the table of `mode`. An empty sequence
    /// and one that is bound already are refused, and the tables stay as
    /// they are.
    pub fn add_mapping(&mut self, mode: &Mode, keys: Vec<Key>, binding: Binding) -> (added: Result<
        (),
        KeyMapError,
    >)
        ensures
            added == add_result(old(self).bindings(*mode), keys@),
            final(self).bindings(*mode) == table_with(old(self).bindings(*mode), keys@, binding),
            forall|other: Mode|
                other != *mode ==> final(self).bindings(other) == old(self).bindings(other),
    {
        proof {
            use_type_invariant(&*self);
        }
        let mut trie = Trie::new();
        self.exchange(mode, &mut trie);
        let added = trie.insert(&keys, binding);
        self.exchange(mode, &mut trie);
        added
    }

    /// Swaps the trie of `mode` with `trie`.
    fn exchange(&mut self, mode: &Mode, trie: &mut Trie)
        requires
            old(trie).wf(),
        ensures
            final(trie).wf(),
            final(trie).table() == old(self).bindings(*mode),
            final(self).bindings(*mode) == old(trie).table(),
            forall|other: Mode|
                other != *mode ==> final(self).bindings(other) == old(self).bindings(other),
        no_unwind
    {
        proof {
            use_type_invariant(&*self);
        }
        match mode {
            Mode::Command => std::mem::swap(&mut self.command, trie),
            Mode::Insert => std::mem::swap(&mut self.insert, trie),
            Mode::Navigation => std::mem::swap(&mut self.navigation, trie),
            Mode::Normal => std::mem::swap(&mut self.normal, trie),
        }
    }

    /// Looks `keys` up in the table of `mode`.
    pub fn lookup(&self, mode: &Mode, keys: &Vec<Key>) -> (outcome: Lookup)
        ensures
            outcome == lookup_in(self.bindings(*mode), keys@),
    {
        proof {
            use_type_invariant(self);
        }
        match mode {
            Mode::Command => self.command.lookup(keys),
            Mode::Insert => self.insert.lookup(keys),
            Mode::Navigation => self.navigation.lookup(keys),
            Mode::Normal => self.normal.lookup(keys),
        }
    }
}

impl Default for KeyTree {
    /// The tables that bind nothing.
    fn default() -> (tree: KeyTree)
        ensures
            forall|mode: Mode| tree.bindings(mode) == Map::<Seq<Key>, Binding>::empty(),
    {
        KeyTree {
            command: Trie::new(),
            insert: Trie::new(),
            navigation: Trie::new(),
            normal: Trie::new(),
        }
    }
}

} // verus!
