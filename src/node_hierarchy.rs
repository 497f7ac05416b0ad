use vstd::prelude::*;

use std::collections::HashMap;

verus! {

/// A mirrored UI node: its entity id, its name if it has one, and its children in order.
#[derive(Debug)]
pub struct NodeHierarchy {
    pub name: Option<String>,
    pub entity: u64,
    pub children: Vec<NodeHierarchy>,
}

proof fn lemma_forest_shrinks(f: Seq<NodeHierarchy>)
    requires
        f.len() > 0,
    ensures
        decreases_to!(f => f[0].children@),
        decreases_to!(f => f.subrange(1, f.len() as int)),
{
    assert(decreases_to!(f => f[0]));
    assert(decreases_to!(f[0].children => f[0].children@));
    assert(decreases_to!(f => f.subrange(1, f.len() as int)));
}

#[via_fn]
proof fn forest_decreases(f: Seq<NodeHierarchy>, e: u64) {
    if f.len() > 0 {
        lemma_forest_shrinks(f);
    }
}

#[via_fn]
proof fn forest_decreases_find(f: Seq<NodeHierarchy>, e: u64) {
    if f.len() > 0 {
        lemma_forest_shrinks(f);
    }
}

/// Whether a node of entity `e` stands anywhere in the forest.
pub open spec fn forest_contains(f: Seq<NodeHierarchy>, e: u64) -> bool
    decreases f,
    via forest_decreases
{
    if f.len() == 0 {
        false
    } else {
        f[0].entity == e || forest_contains(f[0].children@, e) || forest_contains(
            f.subrange(1, f.len() as int),
            e,
        )
    }
}

/// The first node of entity `e` in the forest, roots in order and each tree parent first.
pub open spec fn forest_find(f: Seq<NodeHierarchy>, e: u64) -> Option<NodeHierarchy>
    decreases f,
    via forest_decreases_find
{
    if f.len() == 0 {
        None
    } else if f[0].entity == e {
        Some(f[0])
    } else {
        match forest_find(f[0].children@, e) {
            Some(n) => Some(n),
            None => forest_find(f.subrange(1, f.len() as int), e),
        }
    }
}

/// `g` is the forest `f` without the first node of entity `e` (and the subtree under it).
pub open spec fn forest_removed(f: Seq<NodeHierarchy>, g: Seq<NodeHierarchy>, e: u64) -> bool
    decreases f,
    via forest_decreases_removed
{
    if f.len() == 0 {
        g.len() == 0
    } else if f[0].entity == e {
        g == f.subrange(1, f.len() as int)
    } else if forest_contains(f[0].children@, e) {
        &&& g.len() == f.len()
        &&& g[0].entity == f[0].entity
        &&& g[0].name == f[0].name
        &&& forest_removed(f[0].children@, g[0].children@, e)
        &&& g.subrange(1, g.len() as int) == f.subrange(1, f.len() as int)
    } else {
        &&& g.len() > 0
        &&& g[0] == f[0]
        &&& forest_removed(f.subrange(1, f.len() as int), g.subrange(1, g.len() as int), e)
    }
}

/// `g` is the forest `f` where the first node of entity `e` has the children `c` instead.
pub open spec fn forest_children_replaced(
    f: Seq<NodeHierarchy>,
    g: Seq<NodeHierarchy>,
    e: u64,
    c: Seq<NodeHierarchy>,
) -> bool
    decreases f,
    via forest_decreases_replace
{
    if f.len() == 0 {
        g.len() == 0
    } else if f[0].entity == e {
        &&& g.len() == f.len()
        &&& g[0].entity == f[0].entity
        &&& g[0].name == f[0].name
        &&& g[0].children@ == c
        &&& g.subrange(1, g.len() as int) == f.subrange(1, f.len() as int)
    } else if forest_contains(f[0].children@, e) {
        &&& g.len() == f.len()
        &&& g[0].entity == f[0].entity
        &&& g[0].name == f[0].name
        &&& forest_children_replaced(f[0].children@, g[0].children@, e, c)
        &&& g.subrange(1, g.len() as int) == f.subrange(1, f.len() as int)
    } else {
        &&& g.len() > 0
        &&& g[0] == f[0]
        &&& forest_children_replaced(
            f.subrange(1, f.len() as int),
            g.subrange(1, g.len() as int),
            e,
            c,
        )
    }
}

#[via_fn]
proof fn forest_decreases_replace(
    f: Seq<NodeHierarchy>,
    g: Seq<NodeHierarchy>,
    e: u64,
    c: Seq<NodeHierarchy>,
) {
    if f.len() > 0 {
        lemma_forest_shrinks(f);
    }
}

#[via_fn]
proof fn forest_decreases_removed(f: Seq<NodeHierarchy>, g: Seq<NodeHierarchy>, e: u64) {
    if f.len() > 0 {
        lemma_forest_shrinks(f);
    }
}

/// The first node of entity `entity` in `nodes`, roots in order and each tree parent first.
pub fn find_in_forest(nodes: &Vec<NodeHierarchy>, entity: u64) -> (r: Option<&NodeHierarchy>)
    ensures
        match r {
            Some(n) => forest_find(nodes@, entity) == Some(*n),
            None => forest_find(nodes@, entity) is None,
        },
    decreases nodes@,
{
    let mut i: usize = 0;
    assert(nodes@.subrange(0, nodes.len() as int) == nodes@);
    while i < nodes.len()
        invariant
            i <= nodes.len(),
            forest_find(nodes@, entity) == forest_find(
                nodes@.subrange(i as int, nodes.len() as int),
                entity,
            ),
        decreases nodes.len() - i,
    {
        let ghost rest = nodes@.subrange(i as int, nodes.len() as int);
        assert(rest[0] == nodes@[i as int]);
        assert(rest.subrange(1, rest.len() as int) == nodes@.subrange(
            i + 1,
            nodes.len() as int,
        ));
        let node = &nodes[i];
        if node.entity == entity {
            return Some(node);
        }
        proof {
            assert(decreases_to!(nodes@ => nodes@[i as int]));
            assert(decreases_to!(nodes@[i as int].children => nodes@[i as int].children@));
        }
        let found = find_in_forest(&node.children, entity);
        if found.is_some() {
            return found;
        }
        i = i + 1;
    }
    None
}

/// The node of entity `entity` in the tree under `node`, the node itself first.
pub fn find_node(node: &NodeHierarchy, entity: u64) -> (r: Option<&NodeHierarchy>)
    ensures
        match r {
            Some(n) => forest_find(seq![*node], entity) == Some(*n),
            None => forest_find(seq![*node], entity) is None,
        },
{
    let ghost f = seq![*node];
    assert(f.subrange(1, f.len() as int) == Seq::<NodeHierarchy>::empty());
    assert(forest_find(Seq::<NodeHierarchy>::empty(), entity) is None);
    assert(f[0] == *node);
    if node.entity == entity {
        Some(node)
    } else {
        find_in_forest(&node.children, entity)
    }
}

/// Whether a node of entity `entity` stands anywhere in `nodes`.
pub fn contains_in_forest(nodes: &Vec<NodeHierarchy>, entity: u64) -> (r: bool)
    ensures
        r == forest_contains(nodes@, entity),
    decreases nodes@,
{
    let mut i: usize = 0;
    assert(nodes@.subrange(0, nodes.len() as int) == nodes@);
    while i < nodes.len()
        invariant
            i <= nodes.len(),
            forest_contains(nodes@, entity) == forest_contains(
                nodes@.subrange(i as int, nodes.len() as int),
                entity,
            ),
        decreases nodes.len() - i,
    {
        let ghost rest = nodes@.subrange(i as int, nodes.len() as int);
        assert(rest[0] == nodes@[i as int]);
        assert(rest.subrange(1, rest.len() as int) == nodes@.subrange(
            i + 1,
            nodes.len() as int,
        ));
        let node = &nodes[i];
        if node.entity == entity {
            return true;
        }
        proof {
            assert(decreases_to!(nodes@ => nodes@[i as int]));
            assert(decreases_to!(nodes@[i as int].children => nodes@[i as int].children@));
        }
        if contains_in_forest(&node.children, entity) {
            return true;
        }
        i = i + 1;
    }
    false
}

fn remove_from_forest(nodes: Vec<NodeHierarchy>, entity: u64) -> (r: (
    Vec<NodeHierarchy>,
    bool,
))
    ensures
        r.1 == forest_contains(nodes@, entity),
        forest_removed(nodes@, r.0@, entity),
    decreases nodes@,
{
    let mut nodes = nodes;
    if nodes.len() == 0 {
        return (nodes, false);
    }
    let ghost f = nodes@;
    let first = nodes.remove(0);
    assert(nodes@ == f.subrange(1, f.len() as int));
    if first.entity == entity {
        return (nodes, true);
    }
    proof {
        lemma_forest_shrinks(f);
    }
    if contains_in_forest(&first.children, entity) {
        let NodeHierarchy { name, entity: first_entity, children } = first;
        let (children, _) = remove_from_forest(children, entity);
        nodes.insert(0, NodeHierarchy { name, entity: first_entity, children });
        assert(nodes@.subrange(1, nodes@.len() as int) == f.subrange(1, f.len() as int));
        return (nodes, true);
    }
    let (mut rest, found) = remove_from_forest(nodes, entity);
    let ghost g = rest@;
    rest.insert(0, first);
    assert(rest@.subrange(1, rest@.len() as int) == g);
    (rest, found)
}

fn replace_children_in_forest(
    nodes: Vec<NodeHierarchy>,
    entity: u64,
    children: Vec<NodeHierarchy>,
) -> (r: (Vec<NodeHierarchy>, bool))
    ensures
        r.1 == forest_contains(nodes@, entity),
        forest_children_replaced(nodes@, r.0@, entity, children@),
    decreases nodes@,
{
    let mut nodes = nodes;
    if nodes.len() == 0 {
        return (nodes, false);
    }
    let ghost f = nodes@;
    let first = nodes.remove(0);
    assert(nodes@ == f.subrange(1, f.len() as int));
    proof {
        lemma_forest_shrinks(f);
    }
    if first.entity == entity {
        let NodeHierarchy { name, entity: first_entity, children: _ } = first;
        nodes.insert(0, NodeHierarchy { name, entity: first_entity, children });
        assert(nodes@.subrange(1, nodes@.len() as int) == f.subrange(1, f.len() as int));
        return (nodes, true);
    }
    if contains_in_forest(&first.children, entity) {
        let NodeHierarchy { name, entity: first_entity, children: old_children } = first;
        let (new_children, _) = replace_children_in_forest(old_children, entity, children);
        nodes.insert(0, NodeHierarchy { name, entity: first_entity, children: new_children });
        assert(nodes@.subrange(1, nodes@.len() as int) == f.subrange(1, f.len() as int));
        return (nodes, true);
    }
    let (mut rest, found) = replace_children_in_forest(nodes, entity, children);
    let ghost g = rest@;
    rest.insert(0, first);
    assert(rest@.subrange(1, rest@.len() as int) == g);
    (rest, found)
}

/// Removing an entity that the forest does not hold leaves the forest as it was.
pub proof fn lemma_removed_absent(f: Seq<NodeHierarchy>, g: Seq<NodeHierarchy>, e: u64)
    requires
        !forest_contains(f, e),
        forest_removed(f, g, e),
    ensures
        g == f,
    decreases f.len(),
{
    if f.len() == 0 {
        assert(g =~= f);
    } else {
        lemma_removed_absent(f.subrange(1, f.len() as int), g.subrange(1, g.len() as int), e);
        assert(g =~= seq![g[0]] + g.subrange(1, g.len() as int));
        assert(f =~= seq![f[0]] + f.subrange(1, f.len() as int));
    }
}

/// What the scene holds of one UI entity: its name, if any, and its children in order.
#[derive(Debug)]
pub struct SceneEntry {
    pub name: Option<String>,
    pub children: Vec<u64>,
}

/// The characters of a name, if there is one.
pub open spec fn name_view(n: Option<String>) -> Option<Seq<char>> {
    match n {
        Some(s) => Some(s@),
        None => None,
    }
}

/// `ts` mirrors the entities `ids` of `scene`, in order: ids the scene does not hold are
/// left out, and each mirrored node has the entity's name and mirrors its children, down
/// to `depth` levels below.
pub open spec fn mirrors(
    scene: Map<u64, SceneEntry>,
    ids: Seq<u64>,
    depth: nat,
    ts: Seq<NodeHierarchy>,
) -> bool
    decreases depth, ids.len(),
{
    if ids.len() == 0 {
        ts.len() == 0
    } else if !scene.contains_key(ids[0]) {
        mirrors(scene, ids.subrange(1, ids.len() as int), depth, ts)
    } else {
        &&& ts.len() > 0
        &&& ts[0].entity == ids[0]
        &&& name_view(ts[0].name) == name_view(scene[ids[0]].name)
        &&& if depth == 0 {
            ts[0].children@.len() == 0
        } else {
            mirrors(scene, scene[ids[0]].children@, (depth - 1) as nat, ts[0].children@)
        }
        &&& mirrors(scene, ids.subrange(1, ids.len() as int), depth, ts.subrange(1, ts.len() as int))
    }
}

fn clone_name(name: &Option<String>) -> (r: Option<String>)
    ensures
        name_view(r) == name_view(*name),
{
    match name {
        Some(s) => Some(s.clone()),
        None => None,
    }
}

fn mirror_from(scene: &HashMap<u64, SceneEntry>, ids: &Vec<u64>, start: usize, depth: usize) -> (r:
    Vec<NodeHierarchy>)
    requires
        start <= ids@.len(),
    ensures
        mirrors(scene@, ids@.subrange(start as int, ids@.len() as int), depth as nat, r@),
    decreases depth, ids@.len() - start,
{
    broadcast use vstd::std_specs::hash::group_hash_axioms;

    let ghost rest = ids@.subrange(start as int, ids@.len() as int);
    if start == ids.len() {
        return Vec::new();
    }
    assert(rest[0] == ids@[start as int]);
    assert(rest.subrange(1, rest.len() as int) == ids@.subrange(start + 1, ids@.len() as int));
    let id = ids[start];
    let mut later = mirror_from(scene, ids, start + 1, depth);
    match scene.get(&id) {
        None => later,
        Some(entry) => {
            let children = if depth == 0 {
                Vec::new()
            } else {
                mirror_from(scene, &entry.children, 0, depth - 1)
            };
            assert(entry.children@.subrange(0, entry.children@.len() as int) == entry.children@);
            let ghost tail = later@;
            later.insert(0, NodeHierarchy { name: clone_name(&entry.name), entity: id, children });
            assert(later@.subrange(1, later@.len() as int) == tail);
            later
        },
    }
}

/// The mirror of the subtree under `entity` in `scene`, or nothing when the scene does not
/// hold the entity. The walk goes at most as many levels deep as the scene has entries,
/// which is enough in any hierarchy.
pub fn mirror_subtree(scene: &HashMap<u64, SceneEntry>, entity: u64) -> (r: Option<NodeHierarchy>)
    ensures
        match r {
            Some(t) => mirrors(scene@, seq![entity], scene@.len(), seq![t]),
            None => !scene@.contains_key(entity),
        },
{
    broadcast use vstd::std_specs::hash::group_hash_axioms;

    let mut ids: Vec<u64> = Vec::new();
    ids.push(entity);
    assert(ids@.subrange(0, 1) == seq![entity]);
    let depth = scene.len();
    assert(depth == scene@.len());
    let mut trees = mirror_from(scene, &ids, 0, depth);
    assert(seq![entity].subrange(1, 1) == Seq::<u64>::empty());
    let ghost all = trees@;
    if trees.len() == 0 {
        None
    } else {
        proof {
            let one = seq![entity];
            assert(one[0] == entity);
            assert(one.subrange(1, 1) =~= Seq::<u64>::empty());
            assert(mirrors(scene@, one, scene@.len(), all));
            if !scene@.contains_key(entity) {
                assert(mirrors(scene@, Seq::<u64>::empty(), scene@.len(), all));
            }
        }
        assert(mirrors(scene@, Seq::<u64>::empty(), scene@.len(), all.subrange(1, all.len() as int)));
        assert(all.subrange(1, all.len() as int).len() == 0);
        let t = trees.remove(0);
        assert(all =~= seq![t]);
        Some(t)
    }
}

/// The mirrors of the children of `entity` in `scene`, in order; nothing when the scene
/// does not hold the entity.
pub fn mirror_children(scene: &HashMap<u64, SceneEntry>, entity: u64) -> (r: Vec<NodeHierarchy>)
    ensures
        scene@.contains_key(entity) ==> mirrors(
            scene@,
            scene@[entity].children@,
            scene@.len(),
            r@,
        ),
        !scene@.contains_key(entity) ==> r@.len() == 0,
{
    broadcast use vstd::std_specs::hash::group_hash_axioms;

    match scene.get(&entity) {
        None => Vec::new(),
        Some(entry) => {
            assert(entry.children@.subrange(0, entry.children@.len() as int) == entry.children@);
            let depth = scene.len();
            assert(depth == scene@.len());
            mirror_from(scene, &entry.children, 0, depth)
        },
    }
}

/// The mirrored trees, one for each UI root, in the order the roots were found.
#[derive(Debug)]
pub struct Roots {
    pub roots: Vec<NodeHierarchy>,
}

impl Roots {
    pub fn new() -> (r: Self)
        ensures
            r.roots@.len() == 0,
    {
        Roots { roots: Vec::new() }
    }

    /// A UI root appeared: its mirrored tree goes after the others.
    pub fn add_root(&mut self, root: NodeHierarchy)
        ensures
            final(self).roots@ == old(self).roots@.push(root),
    {
        self.roots.push(root);
    }

    /// New UI roots appeared: the mirror of each one that `scene` holds goes after the
    /// trees already there, in the order given.
    pub fn add_roots_from_scene(&mut self, scene: &HashMap<u64, SceneEntry>, new_roots: &Vec<u64>)
        ensures
            exists|ts: Seq<NodeHierarchy>|
                mirrors(scene@, new_roots@, scene@.len(), ts) && final(self).roots@ == old(
                    self,
                ).roots@ + ts,
    {
        broadcast use vstd::std_specs::hash::group_hash_axioms;

        let depth = scene.len();
        assert(depth == scene@.len());
        let mut trees = mirror_from(scene, new_roots, 0, depth);
        assert(new_roots@.subrange(0, new_roots@.len() as int) == new_roots@);
        let ghost ts = trees@;
        self.roots.append(&mut trees);
        assert(mirrors(scene@, new_roots@, scene@.len(), ts));
    }

    /// The children of `entity` changed in the scene: its first mirrored node gets the
    /// mirrors of its children as `scene` now holds them (none if the scene no longer holds
    /// the entity). Tells whether the entity was mirrored.
    pub fn refresh_children(&mut self, scene: &HashMap<u64, SceneEntry>, entity: u64) -> (r: bool)
        ensures
            r == forest_contains(old(self).roots@, entity),
            exists|cs: Seq<NodeHierarchy>|
                {
                    &&& scene@.contains_key(entity) ==> mirrors(
                        scene@,
                        scene@[entity].children@,
                        scene@.len(),
                        cs,
                    )
                    &&& !scene@.contains_key(entity) ==> cs.len() == 0
                    &&& forest_children_replaced(old(self).roots@, final(self).roots@, entity, cs)
                },
    {
        let children = mirror_children(scene, entity);
        let ghost cs = children@;
        let r = self.replace_children(entity, children);
        assert(forest_children_replaced(old(self).roots@, self.roots@, entity, cs));
        assert(scene@.contains_key(entity) ==> mirrors(
            scene@,
            scene@[entity].children@,
            scene@.len(),
            cs,
        ));
        assert(!scene@.contains_key(entity) ==> cs.len() == 0);
        r
    }

    /// The first tree whose root is `entity`; nodes below the roots are not looked at.
    pub fn root(&self, entity: u64) -> (r: Option<&NodeHierarchy>)
        ensures
            match r {
                Some(n) => exists|i: int|
                    0 <= i < self.roots@.len() && self.roots@[i] == *n && n.entity == entity
                        && forall|j: int| 0 <= j < i ==> #[trigger] self.roots@[j].entity != entity,
                None => forall|i: int|
                    0 <= i < self.roots@.len() ==> #[trigger] self.roots@[i].entity != entity,
            },
    {
        let mut i: usize = 0;
        while i < self.roots.len()
            invariant
                i <= self.roots@.len(),
                forall|j: int| 0 <= j < i ==> #[trigger] self.roots@[j].entity != entity,
            decreases self.roots.len() - i,
        {
            if self.roots[i].entity == entity {
                return Some(&self.roots[i]);
            }
            i = i + 1;
        }
        None
    }

    /// The first mirrored node of `entity`, roots in order and each tree parent first.
    pub fn find(&self, entity: u64) -> (r: Option<&NodeHierarchy>)
        ensures
            match r {
                Some(n) => forest_find(self.roots@, entity) == Some(*n),
                None => forest_find(self.roots@, entity) is None,
            },
    {
        find_in_forest(&self.roots, entity)
    }

    /// The children of `entity` changed in the scene: its first mirrored node gets
    /// `children`, mirrored anew. Tells whether the entity was found.
    pub fn replace_children(&mut self, entity: u64, children: Vec<NodeHierarchy>) -> (r: bool)
        ensures
            r == forest_contains(old(self).roots@, entity),
            forest_children_replaced(old(self).roots@, final(self).roots@, entity, children@),
    {
        let mut roots: Vec<NodeHierarchy> = Vec::new();
        std::mem::swap(&mut roots, &mut self.roots);
        let (roots, found) = replace_children_in_forest(roots, entity, children);
        self.roots = roots;
        found
    }
}

/// A UI node was despawned: its first mirrored node leaves the hierarchy, with the
/// subtree under it. Tells whether it was found.
pub fn remove_node_from_hierarchy_stack(target_entity: u64, roots: &mut Roots) -> (r: bool)
    ensures
        r == forest_contains(old(roots).roots@, target_entity),
        forest_removed(old(roots).roots@, final(roots).roots@, target_entity),
{
    let mut taken: Vec<NodeHierarchy> = Vec::new();
    std::mem::swap(&mut taken, &mut roots.roots);
    let (rest, found) = remove_from_forest(taken, target_entity);
    roots.roots = rest;
    found
}

/// Open or closed state of the mirrored nodes whose state has been set.
#[derive(Debug)]
pub struct OpenedNodes {
    nodes: HashMap<u64, bool>,
}

/// Whether a node is shown open: a node never toggled counts as open.
pub open spec fn is_open_in(m: Map<u64, bool>, e: u64) -> bool {
    if m.contains_key(e) {
        m[e]
    } else {
        true
    }
}

impl View for OpenedNodes {
    type V = Map<u64, bool>;

    closed spec fn view(&self) -> Map<u64, bool> {
        self.nodes@
    }
}

impl OpenedNodes {
    pub fn new() -> (r: Self)
        ensures
            r@ == Map::<u64, bool>::empty(),
    {
        OpenedNodes { nodes: HashMap::new() }
    }

    /// Records the state of a node.
    pub fn set(&mut self, entity: u64, open: bool)
        ensures
            final(self)@ == old(self)@.insert(entity, open),
    {
        broadcast use vstd::std_specs::hash::group_hash_axioms;

        self.nodes.insert(entity, open);
    }

    /// Whether the node is shown open.
    pub fn is_open(&self, entity: u64) -> (r: bool)
        ensures
            r == is_open_in(self@, entity),
    {
        broadcast use vstd::std_specs::hash::group_hash_axioms;

        match self.nodes.get(&entity) {
            Some(open) => *open,
            None => true,
        }
    }

    /// The chevron of a node was pressed: the node flips between open and closed.
    /// Returns the new state.
    pub fn toggle(&mut self, entity: u64) -> (r: bool)
        ensures
            r == !is_open_in(old(self)@, entity),
            final(self)@ == old(self)@.insert(entity, r),
    {
        let open = !self.is_open(entity);
        self.set(entity, open);
        open
    }
}

/// Pressing a chevron twice brings the node back to the state it was shown in.
pub proof fn lemma_toggle_twice(m: Map<u64, bool>, e: u64)
    ensures
        ({
            let once = m.insert(e, !is_open_in(m, e));
            let twice = once.insert(e, !is_open_in(once, e));
            is_open_in(twice, e) == is_open_in(m, e)
        }),
{
}

} // verus!
