//! The named close bus and the open/closed state of modals.
//!
//! A bus scope holds one current value, overwritten by every dispatch. The
//! value `"<id>-close"` asks the modal `<id>` to close; any other value only
//! names a modal, which lets that modal's trigger open it.
use vstd::prelude::*;

verus! {

/// What follows a modal's id in a request to close it.
pub const CLOSE_SUFFIX: &'static str = "-close";

/// Elements whose id starts so do not close a modal card when clicked.
pub const IGNORE_PREFIX: &'static str = "modal-ignore-";

/// The bus value that asks the modal `id` to close.
pub open spec fn close_value(id: Seq<char>) -> Seq<char> {
    id + CLOSE_SUFFIX@
}

/// Whether a bus value has the shape of a close request.
pub open spec fn is_close(v: Seq<char>) -> bool {
    v.len() >= CLOSE_SUFFIX@.len() && v.subrange(v.len() - CLOSE_SUFFIX@.len(), v.len() as int)
        == CLOSE_SUFFIX@
}

/// The id that a bus value names.
pub open spec fn bus_target(v: Seq<char>) -> Seq<char> {
    if is_close(v) {
        v.subrange(0, v.len() - CLOSE_SUFFIX@.len())
    } else {
        v
    }
}

/// Whether the bus value asks the modal `id` to close.
pub open spec fn bus_closes(v: Seq<char>, id: Seq<char>) -> bool {
    is_close(v) && bus_target(v) == id
}

/// Whether the element id `e` is one that background clicks ignore.
pub open spec fn is_ignored(e: Seq<char>) -> bool {
    e.len() >= IGNORE_PREFIX@.len() && e.subrange(0, IGNORE_PREFIX@.len() as int) == IGNORE_PREFIX@
}

/// The current value of a close bus scope.
pub struct ModalCloseMsg(pub String);

impl ModalCloseMsg {
    /// The value a scope starts with: the id of its owner.
    pub fn new(owner_id: &str) -> (r: ModalCloseMsg)
        ensures
            r.0@ == owner_id@,
    {
        ModalCloseMsg(String::from_str(owner_id))
    }

    /// A dispatch: the new value replaces the old one, whatever it was.
    pub fn reduce(self, action: String) -> (r: ModalCloseMsg)
        ensures
            r.0 == action,
    {
        ModalCloseMsg(action)
    }
}

/// The bus value that asks the modal `id` to close.
pub fn close_request(id: &str) -> (r: String)
    ensures
        r@ == close_value(id@),
{
    String::from_str(id).concat(CLOSE_SUFFIX)
}

/// What a bus value says.
pub struct CloseSignal {
    /// The id it names.
    pub target: String,
    /// Whether it asks that modal to close.
    pub close: bool,
}

/// Reads a bus value.
pub fn decode(value: &str) -> (r: CloseSignal)
    ensures
        r.target@ == bus_target(value@),
        r.close == is_close(value@),
{
    let n = value.unicode_len();
    let k = CLOSE_SUFFIX.unicode_len();
    if n >= k {
        let tail = String::from_str(value.substring_char(n - k, n));
        if tail == String::from_str(CLOSE_SUFFIX) {
            return CloseSignal { target: String::from_str(value.substring_char(0, n - k)), close: true };
        }
    }
    CloseSignal { target: String::from_str(value), close: false }
}

/// Whether the element id `element_id` starts with the ignore prefix.
pub fn ignores_click(element_id: &str) -> (r: bool)
    ensures
        r == is_ignored(element_id@),
{
    let n = element_id.unicode_len();
    let k = IGNORE_PREFIX.unicode_len();
    if n >= k {
        String::from_str(element_id.substring_char(0, k)) == String::from_str(IGNORE_PREFIX)
    } else {
        false
    }
}

/// The visibility that a modal has after the bus value `bus` reached it.
pub open spec fn after_bus(active: bool, id: Seq<char>, bus: Seq<char>) -> bool {
    active && !bus_closes(bus, id)
}

/// The state of one modal instance.
pub struct ModalState {
    /// The modal's id, which bus values name.
    pub id: String,
    /// Whether it is open.
    pub active: bool,
}

impl ModalState {
    /// A closed modal with the id `id`.
    pub fn new(id: &str) -> (r: ModalState)
        ensures
            r.id@ == id@,
            !r.active,
    {
        ModalState { id: String::from_str(id), active: false }
    }

    /// Whether the modal is shown: its own visibility, which no bus value
    /// that names another modal can change.
    pub fn is_shown(&self) -> (r: bool)
        ensures
            r == self.active,
    {
        self.active
    }

    /// A click on the modal's trigger: it opens where the bus names it, so
    /// that one modal's trigger cannot open another in the same scope.
    pub fn open(&mut self, bus: &str)
        ensures
            final(self).id == old(self).id,
            final(self).active == (old(self).active || bus_target(bus@) == old(self).id@),
    {
        if decode(bus).target == self.id {
            self.active = true;
        }
    }

    /// A click on the close button or on a footer close action closes the
    /// modal.
    pub fn close(&mut self)
        ensures
            final(self).id == old(self).id,
            !final(self).active,
    {
        self.active = false;
    }

    /// A click on the background, which started at the element `clicked`:
    /// one that started at an ignored element leaves the modal as it is and
    /// is stopped there (`true`); any other closes the modal.
    pub fn background_click(&mut self, clicked: Option<&str>) -> (stop: bool)
        ensures
            final(self).id == old(self).id,
            ({
                let ignored = match clicked {
                    Some(e) => is_ignored(e@),
                    None => false,
                };
                &&& stop == ignored
                &&& final(self).active == (old(self).active && ignored)
            }),
    {
        let ignored = match clicked {
            Some(e) => ignores_click(e),
            None => false,
        };
        if !ignored {
            self.active = false;
        }
        ignored
    }

    /// The bus value `bus` reached the modal. A request to close this modal
    /// closes it, and its id is handed back to be dispatched as the
    /// acknowledgment; any other value changes nothing.
    pub fn on_bus(&mut self, bus: &str) -> (ack: Option<String>)
        ensures
            final(self).id == old(self).id,
            final(self).active == after_bus(old(self).active, old(self).id@, bus@),
            if bus_closes(bus@, old(self).id@) {
                ack == Some(old(self).id)
            } else {
                ack is None && *final(self) == *old(self)
            },
    {
        let signal = decode(bus);
        if signal.close && signal.target == self.id {
            self.active = false;
            Some(self.id.clone())
        } else {
            None
        }
    }
}

/// A request to close `a` names `a` and asks it to close.
pub proof fn lemma_close_value_decodes(a: Seq<char>)
    ensures
        is_close(close_value(a)),
        bus_target(close_value(a)) == a,
{
    let v = close_value(a);
    assert(v.subrange(v.len() - CLOSE_SUFFIX@.len(), v.len() as int) =~= CLOSE_SUFFIX@);
    assert(v.subrange(0, v.len() - CLOSE_SUFFIX@.len()) =~= a);
}

/// Two modals on one bus scope, with the ids `a` and `b`: a request to close
/// `a` closes `a`, and leaves the visibility of `b` as it was.
pub proof fn lemma_close_isolated(a: Seq<char>, a_active: bool, b: Seq<char>, b_active: bool)
    requires
        a != b,
    ensures
        !after_bus(a_active, a, close_value(a)),
        after_bus(b_active, b, close_value(a)) == b_active,
{
    lemma_close_value_decodes(a);
}

/// The acknowledgment that a closed modal dispatches, its own id, is never
/// read as a request to close that modal again.
pub proof fn lemma_ack_inert(id: Seq<char>)
    ensures
        !bus_closes(id, id),
{
    reveal_strlit("-close");
    if is_close(id) {
        assert(bus_target(id).len() < id.len());
    }
}

} // verus!
