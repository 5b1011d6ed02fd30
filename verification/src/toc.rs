use vstd::prelude::*;

verus! {

// ---------------------------------------------------------------------------
// Spec-level model of the outline forest
// ---------------------------------------------------------------------------

/// The mathematical image of one outline node: anchor id, heading text,
/// heading level, and the arena indices of the node's children.
pub struct NodeV {
    pub id: Seq<char>,
    pub name: Seq<char>,
    pub level: u16,
    pub children: Seq<int>,
}

/// The mathematical image of the outline builder: the append-only arena of
/// nodes, the indices of the forest's roots, and the stack of still-open
/// ancestor headings (bottom to top, strictly increasing level).
pub struct BuilderV {
    pub arena: Seq<NodeV>,
    pub roots: Seq<int>,
    pub stack: Seq<int>,
}

impl BuilderV {
    /// Every stack entry is a valid arena index.
    pub open spec fn stack_valid(self) -> bool {
        forall|i: int|
            0 <= i < self.stack.len() ==> 0 <= #[trigger] self.stack[i] < self.arena.len()
    }

    /// Stack levels grow strictly from bottom to top: each open heading is
    /// nested strictly below the one beneath it.
    pub open spec fn stack_sorted(self) -> bool {
        forall|i: int, j: int|
            0 <= i < j < self.stack.len() ==> self.arena[#[trigger] self.stack[i]].level
                < self.arena[#[trigger] self.stack[j]].level
    }

    /// Every root is a valid arena index.
    pub open spec fn roots_valid(self) -> bool {
        forall|i: int|
            0 <= i < self.roots.len() ==> 0 <= #[trigger] self.roots[i] < self.arena.len()
    }

    /// Child links point into the arena, and a node's level is strictly less
    /// than the level of each of its direct children.
    pub open spec fn children_valid(self) -> bool {
        forall|n: int, c: int|
            0 <= n < self.arena.len() && 0 <= c < self.arena[n].children.len() ==> {
                &&& 0 <= #[trigger] self.arena[n].children[c] < self.arena.len()
                &&& self.arena[n].level < self.arena[self.arena[n].children[c]].level
            }
    }

    pub open spec fn wf(self) -> bool {
        &&& self.stack_valid()
        &&& self.stack_sorted()
        &&& self.roots_valid()
        &&& self.children_valid()
    }
}

/// The builder before any heading has been seen.
pub open spec fn empty_builder() -> BuilderV {
    BuilderV { arena: Seq::empty(), roots: Seq::empty(), stack: Seq::empty() }
}

/// The parent stack after a heading of level `level` arrives: entries whose
/// level is greater than or equal to it are popped from the top (they are no
/// longer open ancestors); the rest stay.
pub open spec fn pruned(arena: Seq<NodeV>, stack: Seq<int>, level: u16) -> Seq<int>
    decreases stack.len(),
{
    if stack.len() == 0 {
        stack
    } else if arena[stack.last()].level >= level {
        pruned(arena, stack.drop_last(), level)
    } else {
        stack
    }
}

/// What opening a heading does to the builder: a fresh node is appended to
/// the arena, the stack is pruned, the node is linked under the nearest open
/// ancestor of strictly shallower level (or becomes a root if none is open),
/// and its index is pushed onto the stack.  The new node's index is the old
/// arena length.
pub open spec fn add_spec(b: BuilderV, id: Seq<char>, level: u16) -> BuilderV {
    let idx = b.arena.len() as int;
    let node = NodeV { id, name: Seq::empty(), level, children: Seq::empty() };
    let arena1 = b.arena.push(node);
    let st = pruned(arena1, b.stack, level);
    if st.len() > 0 {
        let p = st.last();
        let parent = arena1[p];
        let linked = NodeV { children: parent.children.push(idx), ..parent };
        BuilderV { arena: arena1.update(p, linked), roots: b.roots, stack: st.push(idx) }
    } else {
        BuilderV { arena: arena1, roots: b.roots.push(idx), stack: st.push(idx) }
    }
}

/// What assigning a heading's final text does to the builder: only the node's
/// name changes.
pub open spec fn rename_spec(b: BuilderV, idx: int, name: Seq<char>) -> BuilderV {
    BuilderV { arena: b.arena.update(idx, NodeV { name, ..b.arena[idx] }), ..b }
}

/// Pruning keeps a prefix of the stack, and what is kept lies strictly below
/// the new heading's level.
pub proof fn lemma_pruned_prefix(arena: Seq<NodeV>, stack: Seq<int>, level: u16)
    ensures
        pruned(arena, stack, level).len() <= stack.len(),
        forall|i: int|
            0 <= i < pruned(arena, stack, level).len() ==> #[trigger] pruned(
                arena,
                stack,
                level,
            )[i] == stack[i],
        pruned(arena, stack, level).len() > 0 ==> arena[pruned(arena, stack, level).last()].level
            < level,
    decreases stack.len(),
{
    if stack.len() == 0 {
    } else if arena[stack.last()].level >= level {
        lemma_pruned_prefix(arena, stack.drop_last(), level);
    }
}

/// Opening a heading preserves the builder's well-formedness.
pub proof fn lemma_add_spec_wf(b: BuilderV, id: Seq<char>, level: u16)
    requires
        b.wf(),
    ensures
        add_spec(b, id, level).wf(),
{
    let idx = b.arena.len() as int;
    let node = NodeV { id, name: Seq::empty(), level, children: Seq::empty() };
    let arena1 = b.arena.push(node);
    let st = pruned(arena1, b.stack, level);
    lemma_pruned_prefix(arena1, b.stack, level);
    let b2 = add_spec(b, id, level);
    assert forall|i: int| 0 <= i < st.len() implies 0 <= #[trigger] st[i] < b.arena.len() by {
        assert(st[i] == b.stack[i]);
    }
    assert forall|i: int| 0 <= i < st.len() implies arena1[#[trigger] st[i]] == b.arena[st[i]] by {}
    if st.len() > 0 {
        let p = st.last();
        let parent = arena1[p];
        let linked = NodeV { children: parent.children.push(idx), ..parent };
        let arena2 = arena1.update(p, linked);
        assert(arena1[p].level < level);
        // Levels are untouched by the update.
        assert forall|n: int| 0 <= n < arena2.len() implies #[trigger] arena2[n].level
            == arena1[n].level by {}
        assert(b2.stack_valid());
        assert forall|i: int, j: int| 0 <= i < j < b2.stack.len() implies arena2[#[trigger] b2
            .stack[i]].level < arena2[#[trigger] b2.stack[j]].level by {
            if j < st.len() {
                assert(b.arena[b.stack[i]].level < b.arena[b.stack[j]].level);
            } else {
                // The new top is the fresh node at level `level`; everything
                // below it is at or below the pruned top, which lies under
                // `level`.
                assert(b2.stack[j] == idx);
                assert(arena2[idx].level == level);
                if i < st.len() - 1 {
                    assert(b.arena[b.stack[i]].level < b.arena[b.stack[st.len() - 1]].level);
                }
                assert(arena2[b2.stack[i]].level < level);
            }
        }
        assert(b2.stack_sorted());
        assert(b2.roots_valid());
        assert forall|n: int, c: int|
            0 <= n < arena2.len() && 0 <= c < arena2[n].children.len() implies {
            &&& 0 <= #[trigger] arena2[n].children[c] < arena2.len()
            &&& arena2[n].level < arena2[arena2[n].children[c]].level
        } by {
            if n == p && c == arena2[n].children.len() - 1 {
                assert(arena2[n].children[c] == idx);
                assert(arena2[n].level < level);
            } else if n < b.arena.len() {
                assert(b.arena[n].children[c] == arena2[n].children[c]);
                assert(0 <= b.arena[n].children[c] < b.arena.len());
            }
        }
        assert(b2.children_valid());
    } else {
        assert(b2.stack =~= seq![idx]);
        assert(b2.stack_sorted());
        assert forall|n: int, c: int|
            0 <= n < b2.arena.len() && 0 <= c < b2.arena[n].children.len() implies {
            &&& 0 <= #[trigger] b2.arena[n].children[c] < b2.arena.len()
            &&& b2.arena[n].level < b2.arena[b2.arena[n].children[c]].level
        } by {
            if n < b.arena.len() {
                assert(b.arena[n].children[c] == b2.arena[n].children[c]);
                assert(0 <= b.arena[n].children[c] < b.arena.len());
            }
        }
        assert(b2.children_valid());
    }
}

proof fn lemma_filter_all(s: Seq<int>, pred: spec_fn(int) -> bool)
    requires
        forall|i: int| 0 <= i < s.len() ==> pred(#[trigger] s[i]),
    ensures
        s.filter(pred) == s,
    decreases s.len(),
{
    reveal(Seq::filter);
    if s.len() > 0 {
        assert forall|i: int| 0 <= i < s.drop_last().len() implies pred(
            #[trigger] s.drop_last()[i],
        ) by {
            assert(s.drop_last()[i] == s[i]);
        }
        lemma_filter_all(s.drop_last(), pred);
        assert(s.drop_last().push(s.last()) =~= s);
    }
}

/// On a stack whose levels increase strictly from bottom to top, pruning from
/// the top removes exactly the entries whose level is greater than or equal
/// to the new heading's level.
pub proof fn lemma_pruned_is_filter(arena: Seq<NodeV>, stack: Seq<int>, level: u16)
    requires
        forall|i: int| 0 <= i < stack.len() ==> 0 <= #[trigger] stack[i] < arena.len(),
        forall|i: int, j: int|
            0 <= i < j < stack.len() ==> arena[#[trigger] stack[i]].level
                < arena[#[trigger] stack[j]].level,
    ensures
        pruned(arena, stack, level) == stack.filter(|idx: int| arena[idx].level < level),
    decreases stack.len(),
{
    reveal(Seq::filter);
    let pred = |idx: int| arena[idx].level < level;
    if stack.len() == 0 {
    } else if arena[stack.last()].level >= level {
        assert forall|i: int| 0 <= i < stack.drop_last().len() implies 0 <= (
        #[trigger] stack.drop_last()[i]) < arena.len() by {
            assert(stack.drop_last()[i] == stack[i]);
        }
        assert forall|i: int, j: int| 0 <= i < j < stack.drop_last().len() implies arena[(
        #[trigger] stack.drop_last()[i])].level < arena[(#[trigger] stack.drop_last()[j])].level by {
            assert(stack.drop_last()[i] == stack[i] && stack.drop_last()[j] == stack[j]);
        }
        lemma_pruned_is_filter(arena, stack.drop_last(), level);
    } else {
        assert forall|i: int| 0 <= i < stack.len() implies pred(#[trigger] stack[i]) by {
            if i < stack.len() - 1 {
                assert(arena[stack[i]].level < arena[stack[stack.len() - 1]].level);
            }
        }
        lemma_filter_all(stack, pred);
    }
}

/// Opening a heading appends exactly one node.
pub proof fn lemma_add_spec_len(b: BuilderV, id: Seq<char>, level: u16)
    requires
        b.stack_valid(),
    ensures
        add_spec(b, id, level).arena.len() == b.arena.len() + 1,
{
    let node = NodeV { id, name: Seq::empty(), level, children: Seq::empty() };
    let arena1 = b.arena.push(node);
    let st = pruned(arena1, b.stack, level);
    lemma_pruned_prefix(arena1, b.stack, level);
    if st.len() > 0 {
        assert(0 <= st.last() < arena1.len()) by {
            assert(st[st.len() - 1] == b.stack[st.len() - 1]);
        }
    }
}

/// Renaming a node preserves the builder's well-formedness: no level, link or
/// index changes.
pub proof fn lemma_rename_spec_wf(b: BuilderV, idx: int, name: Seq<char>)
    requires
        b.wf(),
        0 <= idx < b.arena.len(),
    ensures
        rename_spec(b, idx, name).wf(),
{
    let b2 = rename_spec(b, idx, name);
    assert forall|n: int| 0 <= n < b2.arena.len() implies #[trigger] b2.arena[n].level
        == b.arena[n].level && b2.arena[n].children == b.arena[n].children by {}
    assert(b2.stack_valid());
    assert(b2.stack_sorted());
    assert(b2.roots_valid());
    assert forall|n: int, c: int|
        0 <= n < b2.arena.len() && 0 <= c < b2.arena[n].children.len() implies {
        &&& 0 <= #[trigger] b2.arena[n].children[c] < b2.arena.len()
        &&& b2.arena[n].level < b2.arena[b2.arena[n].children[c]].level
    } by {
        assert(0 <= b.arena[n].children[c] < b.arena.len());
    }
    assert(b2.children_valid());
}

// ---------------------------------------------------------------------------
// Executable outline builder
// ---------------------------------------------------------------------------

/// One node of the outline forest.  `name` stays empty until the heading
/// closes, because heading text arrives only after the node has been created
/// and linked.  Children are arena indices, appended in arrival order.
#[derive(Debug, PartialEq, Eq)]
pub struct TocToken {
    pub id: String,
    pub name: String,
    pub level: u16,
    pub child_indices: Vec<usize>,
}

impl View for TocToken {
    type V = NodeV;

    open spec fn view(&self) -> NodeV {
        NodeV {
            id: self.id@,
            name: self.name@,
            level: self.level,
            children: self.child_indices@.map_values(|u: usize| u as int),
        }
    }
}

impl TocToken {
    pub fn new(id: String, level: u16) -> (t: TocToken)
        ensures
            t@ == (NodeV {
                id: id@,
                name: Seq::<char>::empty(),
                level,
                children: Seq::<int>::empty(),
            }),
    {
        let t = TocToken { id, name: String::new(), level, child_indices: Vec::new() };
        proof {
            assert(t.child_indices@.map_values(|u: usize| u as int) =~= Seq::<int>::empty());
        }
        t
    }
}

/// The outline builder: an append-only arena of nodes, the roots of the
/// forest, and the stack of still-open ancestor headings.  Nodes reference
/// each other only by arena index, so a node can still be renamed after it
/// has been linked as a child.
#[derive(Debug, PartialEq, Eq)]
pub struct TocBuilder {
    pub arena: Vec<TocToken>,
    pub stack: Vec<usize>,
    pub root_indices: Vec<usize>,
}

impl View for TocBuilder {
    type V = BuilderV;

    open spec fn view(&self) -> BuilderV {
        BuilderV {
            arena: self.arena@.map_values(|t: TocToken| t@),
            roots: self.root_indices@.map_values(|u: usize| u as int),
            stack: self.stack@.map_values(|u: usize| u as int),
        }
    }
}

impl TocBuilder {
    pub open spec fn wf(self) -> bool {
        self@.wf()
    }

    pub fn new() -> (b: TocBuilder)
        ensures
            b@ == empty_builder(),
            b.wf(),
    {
        let b = TocBuilder { arena: Vec::new(), stack: Vec::new(), root_indices: Vec::new() };
        proof {
            assert(b.arena@.map_values(|t: TocToken| t@) =~= Seq::<NodeV>::empty());
            assert(b.root_indices@.map_values(|u: usize| u as int) =~= Seq::<int>::empty());
            assert(b.stack@.map_values(|u: usize| u as int) =~= Seq::<int>::empty());
        }
        b
    }

    /// Open a heading: append a fresh node, close every open heading of equal
    /// or deeper level, attach the node under the nearest remaining open
    /// ancestor (or make it a root), and mark it as the innermost open
    /// heading.  Returns the new node's arena index.
    pub fn add_token(&mut self, id: String, level: u16) -> (idx: usize)
        requires
            old(self).wf(),
        ensures
            final(self)@ == add_spec(old(self)@, id@, level),
            final(self).wf(),
            idx == old(self)@.arena.len(),
    {
        proof {
            lemma_add_spec_wf(old(self)@, id@, level);
        }
        let ghost b0 = self@;
        let ghost idv = id@;
        let idx = self.arena.len();
        let token = TocToken::new(id, level);
        self.arena.push(token);
        let ghost node = NodeV {
            id: idv,
            name: Seq::<char>::empty(),
            level,
            children: Seq::<int>::empty(),
        };
        let ghost arena1 = b0.arena.push(node);
        proof {
            assert(self.arena@.map_values(|t: TocToken| t@) =~= arena1);
            assert forall|i: int| 0 <= i < self.stack@.len() implies (
            #[trigger] self.stack@[i] as int) < arena1.len() by {
                assert(b0.stack[i] == self.stack@[i] as int);
                assert(0 <= b0.stack[i] < b0.arena.len());
            }
        }

        while self.stack.len() > 0 && self.arena[self.stack[self.stack.len() - 1]].level >= level
            invariant
                self.arena@.map_values(|t: TocToken| t@) == arena1,
                self.root_indices@.map_values(|u: usize| u as int) == b0.roots,
                forall|i: int|
                    0 <= i < self.stack@.len() ==> (#[trigger] self.stack@[i] as int)
                        < arena1.len(),
                pruned(arena1, self.stack@.map_values(|u: usize| u as int), level) == pruned(
                    arena1,
                    b0.stack,
                    level,
                ),
            decreases self.stack@.len(),
        {
            let ghost stv = self.stack@.map_values(|u: usize| u as int);
            proof {
                assert(stv.last() == self.stack@[self.stack@.len() - 1] as int);
                assert(arena1[stv.last()].level >= level);
                assert(pruned(arena1, stv, level) == pruned(arena1, stv.drop_last(), level));
            }
            self.stack.pop();
            proof {
                assert(self.stack@.map_values(|u: usize| u as int) =~= stv.drop_last());
            }
        }

        let ghost st = pruned(arena1, b0.stack, level);
        proof {
            assert(self.stack@.map_values(|u: usize| u as int) == st) by {
                let stv = self.stack@.map_values(|u: usize| u as int);
                if self.stack@.len() == 0 {
                    assert(stv.len() == 0);
                    assert(pruned(arena1, stv, level) == stv);
                } else {
                    assert(arena1[stv.last()].level < level);
                    assert(pruned(arena1, stv, level) == stv);
                }
            }
            lemma_pruned_prefix(arena1, b0.stack, level);
        }

        if self.stack.len() > 0 {
            let parent = self.stack[self.stack.len() - 1];
            let ghost pre = self.arena@;
            let node_ref = &mut self.arena[parent];
            node_ref.child_indices.push(idx);
            self.stack.push(idx);
            proof {
                let p = st.last();
                assert(p == parent as int);
                let parent_node = arena1[p];
                let linked = NodeV { children: parent_node.children.push(idx as int), ..parent_node };
                assert(self.arena@[parent as int]@.children =~= parent_node.children.push(
                    idx as int,
                ));
                assert(self.arena@[parent as int]@ == linked);
                assert(self.arena@.map_values(|t: TocToken| t@) =~= arena1.update(p, linked));
                assert(self.stack@.map_values(|u: usize| u as int) =~= st.push(idx as int));
                assert(self@ == add_spec(b0, idv, level));
            }
        } else {
            self.root_indices.push(idx);
            self.stack.push(idx);
            proof {
                assert(self.root_indices@.map_values(|u: usize| u as int) =~= b0.roots.push(
                    idx as int,
                ));
                assert(self.stack@.map_values(|u: usize| u as int) =~= st.push(idx as int));
                assert(self@ == add_spec(b0, idv, level));
            }
        }
        idx
    }

    /// Assign a node's final heading text, once all of its fragments have
    /// been accumulated.
    pub fn set_name(&mut self, idx: usize, name: String)
        requires
            old(self).wf(),
            idx < old(self)@.arena.len(),
        ensures
            final(self)@ == rename_spec(old(self)@, idx as int, name@),
            final(self).wf(),
    {
        proof {
            lemma_rename_spec_wf(old(self)@, idx as int, name@);
        }
        let ghost b0 = self@;
        let ghost namev = name@;
        let node_ref = &mut self.arena[idx];
        node_ref.name = name;
        proof {
            assert(self.arena@[idx as int]@ == (NodeV { name: namev, ..b0.arena[idx as int] }));
            assert(self.arena@.map_values(|t: TocToken| t@) =~= b0.arena.update(
                idx as int,
                NodeV { name: namev, ..b0.arena[idx as int] },
            ));
            assert(self@ == rename_spec(b0, idx as int, namev));
        }
    }
}

} // verus!
