//! The closed, ordered set of instruction categories.
//!
//! A category is reported to callers as its position in [`category_order`];
//! [`get_instruction_categories`] hands out the names in that same order, so
//! a position can always be turned back into a name.

use vstd::prelude::*;

verus! {

/// The functional kind of an instruction.
#[derive(Clone, Copy, Debug, PartialEq, Eq, Structural)]
pub enum InstructionCategory {
    Arithmetic,
    Logic,
    Shift,
    Branch,
    Memory,
    Atomic,
    Barrier,
    Privileged,
    FloatingPoint,
    Miscellaneous,
}

/// Every category, in the canonical order.
pub open spec fn category_order() -> Seq<InstructionCategory> {
    seq![
        InstructionCategory::Arithmetic,
        InstructionCategory::Logic,
        InstructionCategory::Shift,
        InstructionCategory::Branch,
        InstructionCategory::Memory,
        InstructionCategory::Atomic,
        InstructionCategory::Barrier,
        InstructionCategory::Privileged,
        InstructionCategory::FloatingPoint,
        InstructionCategory::Miscellaneous,
    ]
}

/// The names of all categories, in the canonical order.
pub open spec fn category_names() -> Seq<Seq<char>> {
    category_order().map_values(|c: InstructionCategory| c.spec_name())
}

impl InstructionCategory {
    /// The position of this category in the canonical order.
    pub open spec fn spec_index(self) -> nat {
        match self {
            InstructionCategory::Arithmetic => 0,
            InstructionCategory::Logic => 1,
            InstructionCategory::Shift => 2,
            InstructionCategory::Branch => 3,
            InstructionCategory::Memory => 4,
            InstructionCategory::Atomic => 5,
            InstructionCategory::Barrier => 6,
            InstructionCategory::Privileged => 7,
            InstructionCategory::FloatingPoint => 8,
            InstructionCategory::Miscellaneous => 9,
        }
    }

    /// The name of this category.
    pub open spec fn spec_name(self) -> Seq<char> {
        match self {
            InstructionCategory::Arithmetic => "Arithmetic"@,
            InstructionCategory::Logic => "Logic"@,
            InstructionCategory::Shift => "Shift"@,
            InstructionCategory::Branch => "Branch"@,
            InstructionCategory::Memory => "Memory"@,
            InstructionCategory::Atomic => "Atomic"@,
            InstructionCategory::Barrier => "Barrier"@,
            InstructionCategory::Privileged => "Privileged"@,
            InstructionCategory::FloatingPoint => "FloatingPoint"@,
            InstructionCategory::Miscellaneous => "Miscellaneous"@,
        }
    }

    /// The position of this category in the canonical order, as callers
    /// receive it.
    pub fn index(self) -> (i: u8)
        ensures
            i == self.spec_index(),
            (i as int) < category_order().len(),
            category_order()[i as int] == self,
    {
        match self {
            InstructionCategory::Arithmetic => 0,
            InstructionCategory::Logic => 1,
            InstructionCategory::Shift => 2,
            InstructionCategory::Branch => 3,
            InstructionCategory::Memory => 4,
            InstructionCategory::Atomic => 5,
            InstructionCategory::Barrier => 6,
            InstructionCategory::Privileged => 7,
            InstructionCategory::FloatingPoint => 8,
            InstructionCategory::Miscellaneous => 9,
        }
    }

    /// The category at position `index`, if there is one.
    pub fn from_index(index: u8) -> (c: Option<InstructionCategory>)
        ensures
            (index as int) < category_order().len() ==> c == Some(category_order()[index as int]),
            (index as int) >= category_order().len() ==> c is None,
    {
        match index {
            0 => Some(InstructionCategory::Arithmetic),
            1 => Some(InstructionCategory::Logic),
            2 => Some(InstructionCategory::Shift),
            3 => Some(InstructionCategory::Branch),
            4 => Some(InstructionCategory::Memory),
            5 => Some(InstructionCategory::Atomic),
            6 => Some(InstructionCategory::Barrier),
            7 => Some(InstructionCategory::Privileged),
            8 => Some(InstructionCategory::FloatingPoint),
            9 => Some(InstructionCategory::Miscellaneous),
            _ => None,
        }
    }

    /// The name of this category.
    pub fn name(self) -> (s: &'static str)
        ensures
            s@ == self.spec_name(),
    {
        match self {
            InstructionCategory::Arithmetic => "Arithmetic",
            InstructionCategory::Logic => "Logic",
            InstructionCategory::Shift => "Shift",
            InstructionCategory::Branch => "Branch",
            InstructionCategory::Memory => "Memory",
            InstructionCategory::Atomic => "Atomic",
            InstructionCategory::Barrier => "Barrier",
            InstructionCategory::Privileged => "Privileged",
            InstructionCategory::FloatingPoint => "FloatingPoint",
            InstructionCategory::Miscellaneous => "Miscellaneous",
        }
    }
}

/// The names of all categories, in the canonical order. The entry at position
/// `i` names the category whose [`InstructionCategory::index`] is `i`.
pub fn get_instruction_categories() -> (names: Vec<String>)
    ensures
        names.len() == category_names().len(),
        names.len() > 0,
        forall|i: int| 0 <= i < names.len() ==> (#[trigger] names[i])@ == category_names()[i],
{
    let mut names: Vec<String> = Vec::new();
    let mut index: u8 = 0;
    while index < 10
        invariant
            index <= 10,
            category_order().len() == 10,
            names.len() == index,
            forall|i: int| 0 <= i < names.len() ==> (#[trigger] names[i])@ == category_names()[i],
        decreases 10 - index,
    {
        match InstructionCategory::from_index(index) {
            Some(category) => {
                names.push(category.name().to_owned());
            },
            None => {},
        }
        index = index + 1;
    }
    names
}

/// Each category sits in the canonical order at its own index, so an index
/// handed to a caller always selects that category's name.
pub proof fn lemma_index_selects_name(category: InstructionCategory)
    ensures
        category.spec_index() < category_names().len(),
        category_order()[category.spec_index() as int] == category,
        category_names()[category.spec_index() as int] == category.spec_name(),
{
}

/// The canonical order lists no category twice: two positions that hold the
/// same category are the same position.
pub proof fn lemma_order_has_no_repeats(i: int, j: int)
    requires
        0 <= i < category_order().len(),
        0 <= j < category_order().len(),
        category_order()[i] == category_order()[j],
    ensures
        i == j,
{
}

} // verus!
