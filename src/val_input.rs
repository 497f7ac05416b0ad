use vstd::prelude::*;

use crate::dropdown::DropdownItem;

verus! {

/// The kinds of length a layout value can have.
#[derive(Clone, Copy, Debug, PartialEq, Eq, Structural)]
pub enum ValTypes {
    Auto,
    Px,
    Percent,
    Vw,
    Vh,
    VMin,
    VMax,
}

impl Default for ValTypes {
    fn default() -> (r: Self)
        ensures
            r == ValTypes::Auto,
    {
        ValTypes::Auto
    }
}

/// Position of a kind in the unit dropdown of a value input.
pub open spec fn dropdown_value_of(v: ValTypes) -> nat {
    match v {
        ValTypes::Auto => 0,
        ValTypes::Px => 1,
        ValTypes::Percent => 2,
        ValTypes::Vw => 3,
        ValTypes::Vh => 4,
        ValTypes::VMin => 5,
        ValTypes::VMax => 6,
    }
}

/// The kind selected by a dropdown position; positions past the list mean `Auto`.
pub open spec fn val_type_at(i: int) -> ValTypes {
    if i == 1 {
        ValTypes::Px
    } else if i == 2 {
        ValTypes::Percent
    } else if i == 3 {
        ValTypes::Vw
    } else if i == 4 {
        ValTypes::Vh
    } else if i == 5 {
        ValTypes::VMin
    } else if i == 6 {
        ValTypes::VMax
    } else {
        ValTypes::Auto
    }
}

pub fn get_dropdown_value_for_val_type(val: ValTypes) -> (r: usize)
    ensures
        r == dropdown_value_of(val),
{
    match val {
        ValTypes::Auto => 0,
        ValTypes::Px => 1,
        ValTypes::Percent => 2,
        ValTypes::Vw => 3,
        ValTypes::Vh => 4,
        ValTypes::VMin => 5,
        ValTypes::VMax => 6,
    }
}

pub fn get_val_type_for_dropdown_value(i: usize) -> (r: ValTypes)
    ensures
        r == val_type_at(i as int),
{
    match i {
        1 => ValTypes::Px,
        2 => ValTypes::Percent,
        3 => ValTypes::Vw,
        4 => ValTypes::Vh,
        5 => ValTypes::VMin,
        6 => ValTypes::VMax,
        _ => ValTypes::Auto,
    }
}

/// Reading back the position of a kind gives the kind again.
pub proof fn lemma_dropdown_value_round_trip(v: ValTypes)
    ensures
        val_type_at(dropdown_value_of(v) as int) == v,
        dropdown_value_of(v) < 7,
{
}

/// Every position within the list is the position of the kind it selects.
pub proof fn lemma_dropdown_position_round_trip(i: int)
    requires
        0 <= i < 7,
    ensures
        dropdown_value_of(val_type_at(i)) == i,
{
}

/// Short unit text of a kind.
pub open spec fn spec_label(v: ValTypes) -> Seq<char> {
    match v {
        ValTypes::Auto => "a"@,
        ValTypes::Px => "px"@,
        ValTypes::Percent => "%"@,
        ValTypes::Vw => "vw"@,
        ValTypes::Vh => "vh"@,
        ValTypes::VMin => "vmin"@,
        ValTypes::VMax => "vmax"@,
    }
}

/// Text of a kind in the unit dropdown: as the short text, but `Auto` is spelled out.
pub open spec fn spec_option_label(v: ValTypes) -> Seq<char> {
    if v is Auto {
        "auto"@
    } else {
        spec_label(v)
    }
}

impl ValTypes {
    /// The short unit text, as shown beside a number.
    pub fn label(&self) -> (r: &'static str)
        ensures
            r@ == spec_label(*self),
    {
        match self {
            ValTypes::Auto => "a",
            ValTypes::Px => "px",
            ValTypes::Percent => "%",
            ValTypes::Vw => "vw",
            ValTypes::Vh => "vh",
            ValTypes::VMin => "vmin",
            ValTypes::VMax => "vmax",
        }
    }

    /// The text of this kind in the unit dropdown.
    pub fn option_label(&self) -> (r: &'static str)
        ensures
            r@ == spec_option_label(*self),
    {
        match self {
            ValTypes::Auto => "auto",
            _ => self.label(),
        }
    }

    /// Whether the number being edited is carried over when the value has this kind;
    /// for the other kinds the editor starts from zero.
    pub fn keeps_number(&self) -> (r: bool)
        ensures
            r == (*self is Px || *self is Percent),
    {
        match self {
            ValTypes::Px => true,
            ValTypes::Percent => true,
            _ => false,
        }
    }
}

/// The unit dropdown's items: every kind in dropdown order, each with its position as value.
pub fn val_type_options() -> (r: Vec<DropdownItem>)
    ensures
        r.len() == 7,
        forall|i: int|
            #![trigger r@[i]]
            0 <= i < 7 ==> {
                &&& r@[i].value == i
                &&& r@[i].label@ == spec_option_label(val_type_at(i))
            },
{
    let mut r: Vec<DropdownItem> = Vec::new();
    let mut i: usize = 0;
    while i < 7
        invariant
            i <= 7,
            r.len() == i,
            forall|k: int|
                #![trigger r@[k]]
                0 <= k < i ==> {
                    &&& r@[k].value == k
                    &&& r@[k].label@ == spec_option_label(val_type_at(k))
                },
        decreases 7 - i,
    {
        let t = get_val_type_for_dropdown_value(i);
        r.push(DropdownItem { label: String::from_str(t.option_label()), value: i });
        i = i + 1;
    }
    r
}

/// Widths in pixels of the unit dropdown and of the number field of a value input.
pub open spec fn spec_val_input_widths(selected: int) -> (u32, u32) {
    if val_type_at(selected) is Auto {
        (55, 0)
    } else {
        (30, 26)
    }
}

/// Lays out a value input after its unit changed: with `Auto` there is no number to edit,
/// so the number field is hidden and the dropdown takes the room.
pub fn val_input_widths(selected: usize) -> (r: (u32, u32))
    ensures
        r == spec_val_input_widths(selected as int),
{
    let t = get_val_type_for_dropdown_value(selected);
    if t == ValTypes::Auto {
        (55, 0)
    } else {
        (30, 26)
    }
}

} // verus!
