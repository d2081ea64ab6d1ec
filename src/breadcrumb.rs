//! Modifier classes of the breadcrumb.
use vstd::prelude::*;
use crate::common::{alignment_class, Alignment};

verus! {

/// The sizes of a breadcrumb.
#[derive(Clone, Copy, Debug, PartialEq, Eq, Structural)]
pub enum BreadcrumbSize {
    Small,
    Medium,
    Large,
}

/// The CSS class of a breadcrumb size.
pub open spec fn size_class(s: BreadcrumbSize) -> Seq<char> {
    match s {
        BreadcrumbSize::Small => "are-small"@,
        BreadcrumbSize::Medium => "are-medium"@,
        BreadcrumbSize::Large => "are-large"@,
    }
}

impl BreadcrumbSize {
    /// The CSS class of this size.
    pub fn class_name(&self) -> (r: String)
        ensures
            r@ == size_class(*self),
    {
        match self {
            BreadcrumbSize::Small => String::from_str("are-small"),
            BreadcrumbSize::Medium => String::from_str("are-medium"),
            BreadcrumbSize::Large => String::from_str("are-large"),
        }
    }
}

/// The separators between breadcrumb segments, besides the default one.
#[derive(Clone, Copy, Debug, PartialEq, Eq, Structural)]
pub enum BreadcrumbSeparator {
    Arrow,
    Bullet,
    Dot,
    Succeeds,
}

/// The CSS class of a breadcrumb separator.
pub open spec fn separator_class(s: BreadcrumbSeparator) -> Seq<char> {
    match s {
        BreadcrumbSeparator::Arrow => "has-arrow-separator"@,
        BreadcrumbSeparator::Bullet => "has-bullet-separator"@,
        BreadcrumbSeparator::Dot => "has-dot-separator"@,
        BreadcrumbSeparator::Succeeds => "has-succeeds-separator"@,
    }
}

impl BreadcrumbSeparator {
    /// The CSS class of this separator.
    pub fn class_name(&self) -> (r: String)
        ensures
            r@ == separator_class(*self),
    {
        match self {
            BreadcrumbSeparator::Arrow => String::from_str("has-arrow-separator"),
            BreadcrumbSeparator::Bullet => String::from_str("has-bullet-separator"),
            BreadcrumbSeparator::Dot => String::from_str("has-dot-separator"),
            BreadcrumbSeparator::Succeeds => String::from_str("has-succeeds-separator"),
        }
    }
}

/// The classes of a breadcrumb: `breadcrumb`, then each modifier given, in
/// the order size, alignment, separator.
pub open spec fn breadcrumb_class_list(
    size: Option<BreadcrumbSize>,
    alignment: Option<Alignment>,
    separator: Option<BreadcrumbSeparator>,
) -> Seq<Seq<char>> {
    let s0 = seq!["breadcrumb"@];
    let s1 = match size {
        Some(z) => s0.push(size_class(z)),
        None => s0,
    };
    let s2 = match alignment {
        Some(a) => s1.push(alignment_class(a)),
        None => s1,
    };
    match separator {
        Some(p) => s2.push(separator_class(p)),
        None => s2,
    }
}

/// The modifier classes of a breadcrumb, besides the caller's own classes.
pub fn breadcrumb_classes(
    size: Option<BreadcrumbSize>,
    alignment: Option<Alignment>,
    separator: Option<BreadcrumbSeparator>,
) -> (r: Vec<String>)
    ensures
        r@.map_values(|t: String| t@) == breadcrumb_class_list(size, alignment, separator),
{
    let mut r: Vec<String> = Vec::new();
    r.push(String::from_str("breadcrumb"));
    if let Some(z) = size {
        r.push(z.class_name());
    }
    if let Some(a) = alignment {
        r.push(a.class_name());
    }
    if let Some(p) = separator {
        r.push(p.class_name());
    }
    assert(r@.map_values(|t: String| t@) =~= breadcrumb_class_list(size, alignment, separator));
    r
}

} // verus!
