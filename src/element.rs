use vstd::prelude::*;

verus! {

/// Components waiting to be attached to an entity, each under the key of its type.
/// A key stands at most once; the entries keep the order in which their keys came.
pub struct Components<C> {
    map: Vec<(u64, C)>,
}

/// No key stands twice in `s`.
pub open spec fn keys_unique<C>(s: Seq<(u64, C)>) -> bool {
    forall|i: int, j: int| 0 <= i < j < s.len() ==> #[trigger] s[i].0 != #[trigger] s[j].0
}

impl<C> View for Components<C> {
    type V = Seq<(u64, C)>;

    closed spec fn view(&self) -> Seq<(u64, C)> {
        self.map@
    }
}

impl<C> Components<C> {
    #[verifier::type_invariant]
    spec fn unique(self) -> bool {
        keys_unique(self.map@)
    }

    pub fn new() -> (r: Self)
        ensures
            r@ == Seq::<(u64, C)>::empty(),
    {
        Components { map: Vec::new() }
    }

    /// Adds `thing` under `key`; a component already under that key is replaced in place.
    pub fn add(self, key: u64, thing: C) -> (r: Self)
        ensures
            forall|i: int|
                0 <= i < self@.len() && #[trigger] self@[i].0 == key ==> r@ == self@.update(
                    i,
                    (key, thing),
                ),
            (forall|i: int| 0 <= i < self@.len() ==> #[trigger] self@[i].0 != key) ==> r@
                == self@.push((key, thing)),
            keys_unique(r@),
    {
        proof {
            use_type_invariant(&self);
        }
        let Components { map } = self;
        let mut map = map;
        let mut i: usize = 0;
        while i < map.len()
            invariant
                i <= map.len(),
                map@ == self@,
                keys_unique(self@),
                forall|j: int| 0 <= j < i ==> #[trigger] map@[j].0 != key,
            decreases map.len() - i,
        {
            if map[i].0 == key {
                let ghost before = map@;
                map.set(i, (key, thing));
                assert(map@ == before.update(i as int, (key, thing)));
                assert(keys_unique(map@));
                return Components { map };
            }
            i = i + 1;
        }
        map.push((key, thing));
        assert(keys_unique(map@));
        Components { map }
    }

    /// Takes the entries out, in order.
    pub fn into_entries(self) -> (r: Vec<(u64, C)>)
        ensures
            r@ == self@,
    {
        let Components { map } = self;
        map
    }
}

/// What stands under an element: another element, a text with its style and the
/// components for the text's own entity, or nothing.
pub enum ElementChildren<N, C, S> {
    Element(Element<N, C, S>),
    Text(String, S, Option<Components<C>>),
    Empty,
}

/// A UI tree described before any of it exists: the node of its root, the components to
/// attach to that root, and what stands under it, in order.
pub struct Element<N, C, S> {
    pub node: N,
    pub components: Components<C>,
    pub children: Vec<ElementChildren<N, C, S>>,
}

/// Children handed to a UI-building function: each one an element.
pub struct ComponentArgs<N, C, S> {
    pub children: Vec<ElementChildren<N, C, S>>,
}

impl<N, C, S> ComponentArgs<N, C, S> {
    pub fn from_elements(elements: Vec<Element<N, C, S>>) -> (r: Self)
        ensures
            r.children@.len() == elements@.len(),
            forall|i: int|
                0 <= i < elements@.len() ==> #[trigger] r.children@[i] == ElementChildren::Element(
                    elements@[i],
                ),
    {
        let mut children: Vec<ElementChildren<N, C, S>> = Vec::new();
        let mut rest = elements;
        let ghost all = rest@;
        let total = rest.len();
        assert(all.len() == total);
        while rest.len() > 0
            invariant
                children@.len() + rest@.len() == all.len(),
                all.len() <= usize::MAX,
                rest@ == all.subrange(children@.len() as int, all.len() as int),
                forall|i: int|
                    0 <= i < children@.len() ==> #[trigger] children@[i] == ElementChildren::Element(
                        all[i],
                    ),
            decreases rest.len(),
        {
            let e = rest.remove(0);
            children.push(ElementChildren::Element(e));
            assert(rest@ =~= all.subrange(children@.len() as int, all.len() as int));
        }
        ComponentArgs { children }
    }
}

/// One step of bringing an element tree into the scene. `Node` and `Text` create an
/// entity, which becomes the last child of the innermost entity still open (the first one
/// goes under the parent given for the whole tree) and stays open until its `End`.
/// `Component` attaches to the innermost open entity.
pub enum SpawnOp<N, C, S> {
    Node(N),
    Text(String, S),
    Component(u64, C),
    End,
}

/// The steps that attach the given components, in order.
pub open spec fn component_ops<N, C, S>(c: Seq<(u64, C)>) -> Seq<SpawnOp<N, C, S>> {
    Seq::new(c.len(), |i: int| SpawnOp::Component(c[i].0, c[i].1))
}

/// The steps that bring `e` into the scene: its node, its components, what stands under
/// it, then the end of it.
pub open spec fn element_ops<N, C, S>(e: Element<N, C, S>) -> Seq<SpawnOp<N, C, S>>
    decreases e,
    via element_ops_decreases::<N, C, S>
{
    seq![SpawnOp::Node(e.node)] + component_ops(e.components@) + children_ops(e.children@)
        + seq![SpawnOp::End]
}

/// The steps for the children, one after the other: a text gets its own entity with its
/// components; an empty child brings nothing.
pub open spec fn children_ops<N, C, S>(cs: Seq<ElementChildren<N, C, S>>) -> Seq<
    SpawnOp<N, C, S>,
>
    decreases cs,
    via children_ops_decreases::<N, C, S>
{
    if cs.len() == 0 {
        Seq::empty()
    } else {
        let first = match cs[0] {
            ElementChildren::Element(e) => element_ops(e),
            ElementChildren::Text(t, s, c) => seq![SpawnOp::Text(t, s)] + match c {
                Some(c) => component_ops(c@),
                None => Seq::empty(),
            } + seq![SpawnOp::End],
            ElementChildren::Empty => Seq::empty(),
        };
        first + children_ops(cs.subrange(1, cs.len() as int))
    }
}

#[via_fn]
proof fn element_ops_decreases<N, C, S>(e: Element<N, C, S>) {
    assert(decreases_to!(e.children => e.children@));
}

#[via_fn]
proof fn children_ops_decreases<N, C, S>(cs: Seq<ElementChildren<N, C, S>>) {
    if cs.len() > 0 {
        assert(decreases_to!(cs => cs[0]));
        assert(decreases_to!(cs => cs.subrange(1, cs.len() as int)));
    }
}

fn push_components<N, C, S>(c: Components<C>, ops: &mut Vec<SpawnOp<N, C, S>>)
    ensures
        final(ops)@ == old(ops)@ + component_ops::<N, C, S>(c@),
{
    let ghost all = c@;
    let mut entries = c.into_entries();
    let mut taken: usize = 0;
    let total = entries.len();
    assert(all.len() == total);
    while entries.len() > 0
        invariant
            taken + entries@.len() == all.len(),
            all.len() <= usize::MAX,
            entries@ == all.subrange(taken as int, all.len() as int),
            ops@ == old(ops)@ + component_ops::<N, C, S>(all.subrange(0, taken as int)),
        decreases entries.len(),
    {
        let (key, thing) = entries.remove(0);
        let ghost before = ops@;
        ops.push(SpawnOp::Component(key, thing));
        assert(all.subrange(0, taken + 1) == all.subrange(0, taken as int).push((key, thing)));
        assert(component_ops::<N, C, S>(all.subrange(0, taken + 1)) =~= component_ops::<N, C, S>(
            all.subrange(0, taken as int),
        ).push(SpawnOp::Component(key, thing)));
        taken = taken + 1;
        assert(entries@ =~= all.subrange(taken as int, all.len() as int));
    }
    assert(all.subrange(0, all.len() as int) == all);
}

fn push_element_ops<N, C, S>(e: Element<N, C, S>, ops: &mut Vec<SpawnOp<N, C, S>>)
    ensures
        final(ops)@ == old(ops)@ + element_ops(e),
    decreases e,
{
    let ghost whole = e;
    let Element { node, components, children } = e;
    ops.push(SpawnOp::Node(node));
    push_components(components, ops);
    proof {
        assert(decreases_to!(whole.children => whole.children@));
    }
    push_children_ops(children, ops);
    ops.push(SpawnOp::End);
    assert(ops@ =~= old(ops)@ + element_ops(whole));
}

fn push_children_ops<N, C, S>(cs: Vec<ElementChildren<N, C, S>>, ops: &mut Vec<SpawnOp<N, C, S>>)
    ensures
        final(ops)@ == old(ops)@ + children_ops(cs@),
    decreases cs@,
{
    let ghost all = cs@;
    let mut rest = cs;
    let mut taken: usize = 0;
    let total = rest.len();
    assert(all.len() == total);
    assert(all.subrange(0, all.len() as int) == all);
    while rest.len() > 0
        invariant
            taken + rest@.len() == all.len(),
            all.len() <= usize::MAX,
            all == cs@,
            rest@ == all.subrange(taken as int, all.len() as int),
            old(ops)@ + children_ops(all) == ops@ + children_ops(rest@),
        decreases rest.len(),
    {
        let ghost r = rest@;
        let child = rest.remove(0);
        assert(rest@ == r.subrange(1, r.len() as int));
        assert(r[0] == all[taken as int]);
        match child {
            ElementChildren::Element(e) => {
                proof {
                    assert(decreases_to!(all => all[taken as int]));
                    assert(decreases_to!(all[taken as int] => e));
                }
                push_element_ops(e, ops);
            },
            ElementChildren::Text(t, s, c) => {
                ops.push(SpawnOp::Text(t, s));
                match c {
                    Some(c) => push_components(c, ops),
                    None => {},
                }
                ops.push(SpawnOp::End);
            },
            ElementChildren::Empty => {},
        }
        taken = taken + 1;
        assert(rest@ == all.subrange(taken as int, all.len() as int));
        assert(old(ops)@ + children_ops(all) =~= ops@ + children_ops(rest@));
    }
    assert(children_ops(rest@) =~= Seq::<SpawnOp<N, C, S>>::empty());
}

impl<N, C, S> Element<N, C, S> {
    /// An element with the given node, no components and nothing under it.
    pub fn new(node: N) -> (r: Self)
        ensures
            r.node == node,
            r.components@.len() == 0,
            r.children@.len() == 0,
    {
        Element { node, components: Components::new(), children: Vec::new() }
    }

    /// Makes the given text, in the given style, the only thing under the root.
    pub fn text_with_style(node: N, text: String, style: S) -> (r: Self)
        ensures
            r.node == node,
            r.components@.len() == 0,
            r.children@.len() == 1,
            r.children@[0] == ElementChildren::<N, C, S>::Text(text, style, None),
    {
        Element::new(node).with_text(text, style)
    }

    /// Adds a component to the root, under the key of its type.
    pub fn add_component(self, key: u64, thing: C) -> (r: Self)
        ensures
            r.node == self.node,
            r.children == self.children,
            forall|i: int|
                0 <= i < self.components@.len() && #[trigger] self.components@[i].0 == key
                    ==> r.components@ == self.components@.update(i, (key, thing)),
            (forall|i: int|
                0 <= i < self.components@.len() ==> #[trigger] self.components@[i].0 != key)
                ==> r.components@ == self.components@.push((key, thing)),
    {
        let Element { node, components, children } = self;
        Element { node, components: components.add(key, thing), children }
    }

    /// Appends the elements under the root, after what stands there already.
    pub fn add_child_elements(self, children: Vec<Element<N, C, S>>) -> (r: Self)
        ensures
            r.node == self.node,
            r.components == self.components,
            r.children@.len() == self.children@.len() + children@.len(),
            r.children@.subrange(0, self.children@.len() as int) == self.children@,
            forall|i: int|
                0 <= i < children@.len() ==> #[trigger] r.children@[self.children@.len() + i]
                    == ElementChildren::Element(children@[i]),
    {
        let Element { node, components, children: mine } = self;
        let mut mine = mine;
        let mut rest = children;
        let ghost start = mine@;
        let ghost all = rest@;
        let mut taken: usize = 0;
        let total = rest.len();
        assert(all.len() == total);
        while rest.len() > 0
            invariant
                taken + rest@.len() == all.len(),
                all.len() <= usize::MAX,
                rest@ == all.subrange(taken as int, all.len() as int),
                mine@.len() == start.len() + taken,
                mine@.subrange(0, start.len() as int) == start,
                forall|i: int|
                    0 <= i < taken ==> #[trigger] mine@[start.len() + i] == ElementChildren::Element(
                        all[i],
                    ),
            decreases rest.len(),
        {
            let ghost r = rest@;
            let e = rest.remove(0);
            assert(e == all[taken as int]);
            mine.push(ElementChildren::Element(e));
            taken = taken + 1;
            assert(rest@ =~= all.subrange(taken as int, all.len() as int));
        }
        Element { node, components, children: mine }
    }

    /// Makes a text, in the given style, the only thing under the root.
    pub fn with_text(self, text: String, style: S) -> (r: Self)
        ensures
            r.node == self.node,
            r.components == self.components,
            r.children@.len() == 1,
            r.children@[0] == ElementChildren::<N, C, S>::Text(text, style, None),
    {
        let Element { node, components, children: _ } = self;
        let mut children = Vec::new();
        children.push(ElementChildren::Text(text, style, None));
        Element { node, components, children }
    }

    /// Makes a text, in the given style and with components for its own entity, the only
    /// thing under the root.
    pub fn with_text_and_components(self, text: String, style: S, components: Components<C>) -> (r:
        Self)
        ensures
            r.node == self.node,
            r.components == self.components,
            r.children@.len() == 1,
            r.children@[0] == ElementChildren::<N, C, S>::Text(text, style, Some(components)),
    {
        let Element { node, components: mine, children: _ } = self;
        let mut children = Vec::new();
        children.push(ElementChildren::Text(text, style, Some(components)));
        Element { node, components: mine, children }
    }

    /// The steps that bring this tree into the scene, parents before their children.
    pub fn into_spawn_ops(self) -> (r: Vec<SpawnOp<N, C, S>>)
        ensures
            r@ == element_ops(self),
    {
        let mut ops: Vec<SpawnOp<N, C, S>> = Vec::new();
        push_element_ops(self, &mut ops);
        assert(ops@ =~= element_ops(self));
        ops
    }
}

} // verus!
