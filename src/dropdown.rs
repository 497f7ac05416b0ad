use vstd::prelude::*;

verus! {

/// How the pointer currently relates to a widget.
#[derive(Clone, Copy, Debug, PartialEq, Eq, Structural)]
pub enum Interaction {
    Pressed,
    Hovered,
    Idle,
}

/// Whether a widget in this state is drawn with the hover colours.
pub open spec fn is_highlighted(i: Interaction) -> bool {
    i is Pressed || i is Hovered
}

/// Picks between the normal and the hover colours of a widget.
pub fn highlighted(interaction: Interaction) -> (r: bool)
    ensures
        r == is_highlighted(interaction),
{
    match interaction {
        Interaction::Pressed => true,
        Interaction::Hovered => true,
        Interaction::Idle => false,
    }
}

/// One choice of a dropdown: the text shown and the value it stands for.
#[derive(Debug)]
pub struct DropdownItem {
    pub label: String,
    pub value: usize,
}

/// State of a dropdown: whether its list is shown, and the position of the chosen item.
#[derive(Clone, Copy, Debug, PartialEq, Eq, Structural)]
pub struct Dropdown {
    pub open: bool,
    pub selected: usize,
}

/// What a press on a dropdown's header asks of the scene besides the state change.
#[derive(Clone, Copy, Debug, PartialEq, Eq, Structural)]
pub struct HeaderReaction {
    /// Draw the header with the hover colours.
    pub highlight: bool,
    /// Put a full-screen catcher behind the list, so that a click elsewhere closes it.
    pub spawn_backdrop: bool,
}

/// Position of the last occurrence of `e` in `s`, if any.
pub open spec fn last_position(s: Seq<u64>, e: u64) -> Option<nat>
    decreases s.len(),
{
    if s.len() == 0 {
        None
    } else if s.last() == e {
        Some((s.len() - 1) as nat)
    } else {
        last_position(s.drop_last(), e)
    }
}

/// The position found is that of the last occurrence.
pub proof fn lemma_last_position(s: Seq<u64>, e: u64)
    ensures
        match last_position(s, e) {
            Some(i) => i < s.len() && s[i as int] == e && forall|j: int|
                i < j < s.len() ==> s[j] != e,
            None => forall|j: int| 0 <= j < s.len() ==> s[j] != e,
        },
    decreases s.len(),
{
    if s.len() > 0 {
        lemma_last_position(s.drop_last(), e);
        assert(forall|j: int| 0 <= j < s.len() - 1 ==> s.drop_last()[j] == s[j]);
    }
}

impl Dropdown {
    pub fn new(selected: usize) -> (r: Self)
        ensures
            r == (Dropdown { open: false, selected }),
    {
        Dropdown { open: false, selected }
    }

    /// The header changed its interaction state: a press toggles the list.
    pub fn interact(&mut self, interaction: Interaction) -> (r: HeaderReaction)
        ensures
            r.highlight == is_highlighted(interaction),
            r.spawn_backdrop == (interaction is Pressed),
            final(self).selected == old(self).selected,
            final(self).open == if interaction is Pressed {
                !old(self).open
            } else {
                old(self).open
            },
    {
        let pressed = interaction == Interaction::Pressed;
        if pressed {
            self.open = !self.open;
        }
        HeaderReaction { highlight: highlighted(interaction), spawn_backdrop: pressed }
    }

    /// A click landed outside the open list.
    pub fn close(&mut self)
        ensures
            *final(self) == (Dropdown { open: false, selected: old(self).selected }),
    {
        self.open = false;
    }

    /// The item `pressed` was clicked; `items` are the dropdown's items in the order they
    /// stand under it. The clicked item becomes the selection and the list closes.
    pub fn select_item(&mut self, items: &Vec<u64>, pressed: u64)
        ensures
            final(self).open == false,
            final(self).selected == match last_position(items@, pressed) {
                Some(i) => i as usize,
                None => old(self).selected,
            },
    {
        let mut i: usize = 0;
        let mut found: Option<usize> = None;
        while i < items.len()
            invariant
                i <= items.len(),
                found == match last_position(items@.subrange(0, i as int), pressed) {
                    Some(k) => Some(k as usize),
                    None => None::<usize>,
                },
                forall|k: nat| #[trigger] last_position(items@.subrange(0, i as int), pressed) == Some(k) ==> k < i,
            decreases items.len() - i,
        {
            let ghost prev = items@.subrange(0, i as int);
            assert(items@.subrange(0, i + 1).drop_last() == prev);
            if items[i] == pressed {
                found = Some(i);
            }
            i = i + 1;
        }
        assert(items@.subrange(0, items.len() as int) == items@);
        if let Some(k) = found {
            self.selected = k;
        }
        self.open = false;
    }

    /// Text of the chosen item, where `labels` are the item labels in order.
    pub fn selected_label(&self, labels: &Vec<String>) -> (r: Option<String>)
        ensures
            match r {
                Some(s) => self.selected < labels.len() && s@ == labels@[self.selected as int]@,
                None => self.selected >= labels.len(),
            },
    {
        if self.selected < labels.len() {
            Some(labels[self.selected].clone())
        } else {
            None
        }
    }
}

} // verus!
