use vstd::prelude::*;

use std::collections::HashMap;

verus! {

/// The node chosen for inspection, and the node whose header the pointer is over.
#[derive(Clone, Copy, Debug, PartialEq, Eq, Structural)]
pub struct RestorePreviousResource {
    pub selected: Option<u64>,
    pub hovered: Option<u64>,
}

/// The node whose layout the editing panel shows.
#[derive(Clone, Copy, Debug, PartialEq, Eq, Structural)]
pub struct ActiveStyleInspection {
    pub entity: Option<u64>,
}

/// Whether the next click on the scene picks a node.
#[derive(Clone, Copy, Debug, PartialEq, Eq, Structural)]
pub struct PickingUiNode {
    pub is_picking: bool,
}

impl RestorePreviousResource {
    pub fn new() -> (r: Self)
        ensures
            r.selected is None,
            r.hovered is None,
    {
        RestorePreviousResource { selected: None, hovered: None }
    }
}

impl ActiveStyleInspection {
    pub fn new() -> (r: Self)
        ensures
            r.entity is None,
    {
        ActiveStyleInspection { entity: None }
    }
}

impl PickingUiNode {
    pub fn new() -> (r: Self)
        ensures
            !r.is_picking,
    {
        PickingUiNode { is_picking: false }
    }
}

/// `i` is the first position of `hits` whose stacking index is the greatest.
pub open spec fn is_topmost_at(hits: Seq<(u64, u32)>, i: int) -> bool {
    &&& 0 <= i < hits.len()
    &&& forall|j: int| 0 <= j < hits.len() ==> #[trigger] hits[j].1 <= hits[i].1
    &&& forall|j: int| 0 <= j < i ==> #[trigger] hits[j].1 < hits[i].1
}

/// Of the nodes under the pointer, given as entity and stacking index, the one drawn on
/// top; among equal indices the first one given.
pub fn topmost(hits: &Vec<(u64, u32)>) -> (r: Option<u64>)
    ensures
        match r {
            Some(e) => exists|i: int| is_topmost_at(hits@, i) && hits@[i].0 == e,
            None => hits@.len() == 0,
        },
{
    if hits.len() == 0 {
        return None;
    }
    let mut best: usize = 0;
    let mut i: usize = 1;
    while i < hits.len()
        invariant
            1 <= i <= hits.len(),
            best < i,
            forall|j: int| 0 <= j < i ==> #[trigger] hits@[j].1 <= hits@[best as int].1,
            forall|j: int| 0 <= j < best ==> #[trigger] hits@[j].1 < hits@[best as int].1,
        decreases hits.len() - i,
    {
        if hits[i].1 > hits[best].1 {
            best = i;
        }
        i = i + 1;
    }
    assert(is_topmost_at(hits@, best as int));
    Some(hits[best].0)
}

/// There is a single topmost position.
pub proof fn lemma_topmost_unique(hits: Seq<(u64, u32)>, i: int, k: int)
    requires
        is_topmost_at(hits, i),
        is_topmost_at(hits, k),
    ensures
        i == k,
{
    if i < k {
        assert(hits[i].1 < hits[k].1);
        assert(hits[i].1 <= hits[k].1 && hits[k].1 <= hits[i].1);
    } else if k < i {
        assert(hits[k].1 < hits[i].1);
        assert(hits[k].1 <= hits[i].1 && hits[i].1 <= hits[k].1);
    }
}

/// Makes `entity` the inspected node.
pub fn select(
    previous: &mut RestorePreviousResource,
    inspection: &mut ActiveStyleInspection,
    entity: u64,
)
    ensures
        final(previous).selected == Some(entity),
        final(previous).hovered == old(previous).hovered,
        final(inspection).entity == Some(entity),
{
    previous.selected = Some(entity);
    inspection.entity = Some(entity);
}

/// One frame of the scene-side picking. `hits` are the nodes under the pointer (entity and
/// stacking index), or nothing when the pointer is outside the window; `clicked` tells
/// whether the left button went down this frame. Returns the node to outline.
///
/// While picking, the topmost node under the pointer is outlined and a click selects it.
/// Otherwise the outlined node is the hovered header's node, else the selected one.
/// A click ends picking.
pub fn hit_test_step(
    previous: &mut RestorePreviousResource,
    inspection: &mut ActiveStyleInspection,
    picking: &mut PickingUiNode,
    hits: Option<&Vec<(u64, u32)>>,
    clicked: bool,
) -> (r: Option<u64>)
    ensures
        final(picking).is_picking == (old(picking).is_picking && !clicked),
        old(picking).is_picking ==> match hits {
            None => {
                &&& r is None
                &&& *final(previous) == *old(previous)
                &&& *final(inspection) == *old(inspection)
            },
            Some(h) => match r {
                None => {
                    &&& h@.len() == 0
                    &&& *final(previous) == *old(previous)
                    &&& *final(inspection) == *old(inspection)
                },
                Some(e) => {
                    &&& exists|i: int| is_topmost_at(h@, i) && h@[i].0 == e
                    &&& clicked ==> *final(previous) == (RestorePreviousResource {
                        selected: Some(e),
                        hovered: None,
                    }) && final(inspection).entity == Some(e)
                    &&& !clicked ==> *final(previous) == *old(previous) && *final(inspection)
                        == *old(inspection)
                },
            },
        },
        !old(picking).is_picking ==> {
            &&& r == match old(previous).hovered {
                Some(h) => Some(h),
                None => old(previous).selected,
            }
            &&& *final(previous) == *old(previous)
            &&& *final(inspection) == *old(inspection)
        },
{
    let r = if picking.is_picking {
        match hits {
            None => None,
            Some(h) => {
                let top = topmost(h);
                if let Some(e) = top {
                    if clicked {
                        select(previous, inspection, e);
                        previous.hovered = None;
                    }
                }
                top
            },
        }
    } else {
        match previous.hovered {
            Some(h) => Some(h),
            None => previous.selected,
        }
    };
    if clicked {
        picking.is_picking = false;
    }
    r
}

/// Remembers the selection seen last frame. When the selection changed, returns the new
/// selection, whose ancestors the hierarchy view then opens; otherwise nothing.
pub fn track_selection(last_seen: &mut Option<u64>, selected: Option<u64>) -> (r: Option<u64>)
    ensures
        *final(last_seen) == selected,
        r == if *old(last_seen) != selected {
            selected
        } else {
            None
        },
{
    if *last_seen != selected {
        *last_seen = selected;
        selected
    } else {
        None
    }
}

/// What the collapse and expand buttons ask of every header this frame: collapse wins
/// over expand, and with neither the headers keep their state.
pub fn collapse_request(collapse_clicked: bool, expand_clicked: bool) -> (r: Option<bool>)
    ensures
        r == if collapse_clicked {
            Some(false)
        } else if expand_clicked {
            Some(true)
        } else {
            None
        },
{
    if collapse_clicked {
        Some(false)
    } else if expand_clicked {
        Some(true)
    } else {
        None
    }
}

/// The state forced on the header of `child` this frame, if any: a collapse or expand
/// request first; else, when the selection just changed, the headers on the path to the
/// selected node open and the others close.
pub fn header_open(
    collapse_all: Option<bool>,
    open_on_change: Option<u64>,
    parents_of_selected: &Vec<u64>,
    child: u64,
) -> (r: Option<bool>)
    ensures
        r == match collapse_all {
            Some(b) => Some(b),
            None => match open_on_change {
                Some(_) => Some(parents_of_selected@.contains(child)),
                None => None,
            },
        },
{
    match collapse_all {
        Some(b) => Some(b),
        None => match open_on_change {
            Some(_) => {
                let mut i: usize = 0;
                while i < parents_of_selected.len()
                    invariant
                        collapse_all is None,
                        open_on_change is Some,
                        i <= parents_of_selected.len(),
                        forall|j: int| 0 <= j < i ==> parents_of_selected@[j] != child,
                    decreases parents_of_selected.len() - i,
                {
                    if parents_of_selected[i] == child {
                        assert(parents_of_selected@[i as int] == child);
                        assert(parents_of_selected@.contains(child));
                        return Some(true);
                    }
                    i = i + 1;
                }
                Some(false)
            },
            None => None,
        },
    }
}

/// The node `e` followed by its ancestors, nearest first, following `parents` at most
/// `fuel` times.
pub open spec fn ancestor_chain(parents: Map<u64, u64>, e: u64, fuel: nat) -> Seq<u64>
    decreases fuel,
{
    if fuel > 0 && parents.contains_key(e) {
        seq![e] + ancestor_chain(parents, parents[e], (fuel - 1) as nat)
    } else {
        seq![e]
    }
}

/// The selected node and its ancestors, nearest first, where `parents` maps each node
/// to its parent. The walk takes at most as many steps as `parents` has entries, which
/// is enough in any hierarchy.
pub fn parents_of_selected(selected: Option<u64>, parents: &HashMap<u64, u64>) -> (r: Vec<u64>)
    ensures
        r@ == match selected {
            Some(s) => ancestor_chain(parents@, s, parents@.len()),
            None => Seq::<u64>::empty(),
        },
{
    broadcast use vstd::std_specs::hash::group_hash_axioms;

    let mut chain: Vec<u64> = Vec::new();
    match selected {
        None => {
            assert(chain@ =~= Seq::<u64>::empty());
            chain
        },
        Some(s) => {
            let mut current = s;
            let mut fuel: usize = parents.len();
            chain.push(current);
            assert(chain@.drop_last() =~= Seq::<u64>::empty());
            assert(Seq::<u64>::empty() + ancestor_chain(parents@, current, fuel as nat)
                =~= ancestor_chain(parents@, s, parents@.len()));
            while fuel > 0
                invariant
                    selected == Some(s),
                    chain@.len() > 0,
                    chain@.last() == current,
                    fuel <= parents@.len(),
                    chain@.drop_last() + ancestor_chain(parents@, current, fuel as nat)
                        == ancestor_chain(parents@, s, parents@.len()),
                ensures
                    chain@.len() > 0,
                    chain@.last() == current,
                    chain@.drop_last() + seq![current] == ancestor_chain(
                        parents@,
                        s,
                        parents@.len(),
                    ),
                decreases fuel,
            {
                match parents.get(&current) {
                    Some(p) => {
                        let ghost before = chain@;
                        let next = *p;
                        chain.push(next);
                        assert(ancestor_chain(parents@, current, fuel as nat) == seq![current]
                            + ancestor_chain(parents@, next, (fuel - 1) as nat));
                        assert(chain@.drop_last() =~= before);
                        assert(before.drop_last() + seq![current] =~= before);
                        current = next;
                        fuel = fuel - 1;
                    },
                    None => {
                        assert(!parents@.contains_key(current));
                        break;
                    },
                }
            }
            assert(chain@.drop_last() + seq![current] =~= chain@);
            chain
        },
    }
}

} // verus!
