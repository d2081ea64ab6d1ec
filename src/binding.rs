//! The binding of one component instance to one external widget: attached
//! after the first paint, left alone on later paints, detached on teardown.
use vstd::prelude::*;
use crate::registry::{attach_step, detach_step, Attach, WidgetRegistry};

verus! {

/// A component's binding to the external widget anchored at `id`.
pub struct WidgetBinding {
    /// The document-unique id of the anchor node.
    pub id: String,
    /// The handle of the bound instance; `None` while unbound.
    pub handle: Option<u64>,
}

impl WidgetBinding {
    /// An unbound binding for the anchor `id`.
    pub fn new(id: &str) -> (r: WidgetBinding)
        ensures
            r.id@ == id@,
            r.handle is None,
    {
        WidgetBinding { id: String::from_str(id), handle: None }
    }

    /// Whether the binding is bound.
    pub fn is_bound(&self) -> (r: bool)
        ensures
            r == self.handle is Some,
    {
        self.handle.is_some()
    }

    /// Called after each paint of the owning component. On the first paint
    /// the widget is attached (an instance already bound to the id is kept);
    /// on later paints nothing happens.
    pub fn rendered(&mut self, registry: &mut WidgetRegistry, first_render: bool) -> (r: Option<Attach>)
        requires
            old(registry).inv(),
            old(registry)@.issued < u64::MAX,
        ensures
            final(registry).inv(),
            final(self).id == old(self).id,
            if first_render {
                &&& r matches Some(a)
                &&& (final(registry)@, a) == attach_step(old(registry)@, old(self).id@)
                &&& final(self).handle == Some(a.spec_handle())
            } else {
                &&& r is None
                &&& final(registry)@ == old(registry)@
                &&& final(self).handle == old(self).handle
            },
    {
        if first_render {
            let a = registry.attach(self.id.as_str());
            self.handle = Some(a.handle());
            Some(a)
        } else {
            None
        }
    }

    /// Called before the owning component unmounts: the registry entry of
    /// the id goes, and the binding is unbound.
    pub fn destroy(&mut self, registry: &mut WidgetRegistry)
        requires
            old(registry).inv(),
        ensures
            final(registry).inv(),
            final(registry)@ == detach_step(old(registry)@, old(self).id@),
            final(self).id == old(self).id,
            final(self).handle is None,
    {
        registry.detach(self.id.as_str());
        self.handle = None;
    }
}

} // verus!
