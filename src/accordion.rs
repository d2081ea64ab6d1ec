//! The accordion binding: sections under one container, toggled by the
//! external accordion script once it is attached to the container.
use vstd::prelude::*;
use crate::binding::WidgetBinding;

verus! {

/// The classes of one accordion section.
pub open spec fn item_class(open: bool) -> Seq<char> {
    if open {
        "accordion is-active"@
    } else {
        "accordion"@
    }
}

/// The classes of one accordion section, open or closed.
pub fn accordion_item_class(open: bool) -> (r: String)
    ensures
        r@ == item_class(open),
{
    if open {
        String::from_str("accordion is-active")
    } else {
        String::from_str("accordion")
    }
}

/// The accordion container's state.
pub struct Accordions {
    pub binding: WidgetBinding,
}

impl Accordions {
    /// An accordion container anchored at `id`; not yet bound.
    pub fn create(id: &str) -> (r: Accordions)
        ensures
            r.binding.id@ == id@,
            r.binding.handle is None,
    {
        Accordions { binding: WidgetBinding::new(id) }
    }
}

} // verus!
