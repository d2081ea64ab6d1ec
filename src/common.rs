//! Common modifier classes shared by many components.
use vstd::prelude::*;

verus! {

/// Common alignment classes.
#[derive(Clone, Copy, Debug, PartialEq, Eq, Structural)]
pub enum Alignment {
    Left,
    Centered,
    Right,
}

/// The CSS class that an alignment stands for.
pub open spec fn alignment_class(a: Alignment) -> Seq<char> {
    match a {
        Alignment::Left => "is-left"@,
        Alignment::Centered => "is-centered"@,
        Alignment::Right => "is-right"@,
    }
}

impl Alignment {
    /// The CSS class of this alignment.
    pub fn class_name(&self) -> (r: String)
        ensures
            r@ == alignment_class(*self),
    {
        match self {
            Alignment::Left => String::from_str("is-left"),
            Alignment::Centered => String::from_str("is-centered"),
            Alignment::Right => String::from_str("is-right"),
        }
    }
}

/// Common size classes.
#[derive(Clone, Copy, Debug, PartialEq, Eq, Structural)]
pub enum Size {
    Small,
    Normal,
    Medium,
    Large,
}

/// The CSS class that a size stands for.
pub open spec fn size_class(s: Size) -> Seq<char> {
    match s {
        Size::Small => "is-small"@,
        Size::Normal => "is-normal"@,
        Size::Medium => "is-medium"@,
        Size::Large => "is-large"@,
    }
}

impl Size {
    /// The CSS class of this size.
    pub fn class_name(&self) -> (r: String)
        ensures
            r@ == size_class(*self),
    {
        match self {
            Size::Small => String::from_str("is-small"),
            Size::Normal => String::from_str("is-normal"),
            Size::Medium => String::from_str("is-medium"),
            Size::Large => String::from_str("is-large"),
        }
    }

    /// The value this size takes as a `class` property: its CSS class.
    pub fn into_prop_value(self) -> (r: String)
        ensures
            r@ == size_class(self),
    {
        self.class_name()
    }
}

} // verus!
