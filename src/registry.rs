//! The registry of live external widgets, keyed by the DOM id they are
//! attached to.
//!
//! `attach` inserts only where no entry exists for the id, `detach` removes
//! only where one does, and every instance the registry creates gets a handle
//! that was never issued before.
use vstd::prelude::*;

verus! {

/// The abstract state of a registry: the live bindings, and how many
/// instances were ever created (the next handle to issue).
pub struct RegistryModel {
    pub bindings: Map<Seq<char>, u64>,
    pub issued: nat,
}

impl RegistryModel {
    /// Every live handle was issued before.
    pub open spec fn wf(self) -> bool {
        forall|k: Seq<char>| #[trigger] self.bindings.contains_key(k) ==> (self.bindings[k] as nat) < self.issued
    }

    /// The number of live bindings for `id`: a map holds at most one.
    pub open spec fn count_of(self, id: Seq<char>) -> nat {
        if self.bindings.contains_key(id) {
            1
        } else {
            0
        }
    }
}

/// What an attach did.
#[derive(Clone, Copy, Debug, PartialEq, Eq, Structural)]
pub enum Attach {
    /// A new external instance was created under this handle.
    Created(u64),
    /// An instance was already bound to the id; nothing was created.
    Existing(u64),
}

impl Attach {
    pub open spec fn spec_handle(self) -> u64 {
        match self {
            Attach::Created(h) => h,
            Attach::Existing(h) => h,
        }
    }

    /// The handle of the instance bound after the attach.
    pub fn handle(&self) -> (r: u64)
        ensures
            r == self.spec_handle(),
    {
        match self {
            Attach::Created(h) => *h,
            Attach::Existing(h) => *h,
        }
    }

    /// Whether the attach created a new external instance.
    pub fn is_created(&self) -> (r: bool)
        ensures
            r == (*self is Created),
    {
        match self {
            Attach::Created(_) => true,
            Attach::Existing(_) => false,
        }
    }
}

/// Attaching `id` to a registry in state `m`: the new state and the outcome.
pub open spec fn attach_step(m: RegistryModel, id: Seq<char>) -> (RegistryModel, Attach) {
    if m.bindings.contains_key(id) {
        (m, Attach::Existing(m.bindings[id]))
    } else {
        (
            RegistryModel { bindings: m.bindings.insert(id, m.issued as u64), issued: m.issued + 1 },
            Attach::Created(m.issued as u64),
        )
    }
}

/// Detaching `id` from a registry in state `m`.
pub open spec fn detach_step(m: RegistryModel, id: Seq<char>) -> RegistryModel {
    RegistryModel { bindings: m.bindings.remove(id), issued: m.issued }
}

struct Binding {
    id: String,
    handle: u64,
}

/// The id to handle registry of live external widget instances.
pub struct WidgetRegistry {
    entries: Vec<Binding>,
    issued: u64,
    bound: Ghost<Map<Seq<char>, u64>>,
}

impl View for WidgetRegistry {
    type V = RegistryModel;

    closed spec fn view(&self) -> RegistryModel {
        RegistryModel { bindings: self.bound@, issued: self.issued as nat }
    }
}

impl WidgetRegistry {
    /// The registry's internal invariant: the entries list each bound id
    /// once, with its handle, and nothing else.
    pub closed spec fn inv(&self) -> bool {
        &&& entries_match(self.entries@, self.bound@)
        &&& self@.wf()
    }

    /// An empty registry that has created nothing yet.
    pub fn new() -> (r: WidgetRegistry)
        ensures
            r.inv(),
            r@.wf(),
            r@.bindings == Map::<Seq<char>, u64>::empty(),
            r@.issued == 0,
    {
        WidgetRegistry { entries: Vec::new(), issued: 0, bound: Ghost(Map::empty()) }
    }

    /// The position of `id` among the entries, if it is bound.
    fn position(&self, id: &String) -> (r: Option<usize>)
        requires
            self.inv(),
        ensures
            match r {
                Some(i) => i < self.entries@.len() && self.entries@[i as int].id@ == id@,
                None => !self@.bindings.contains_key(id@),
            },
    {
        let mut i: usize = 0;
        while i < self.entries.len()
            invariant
                self.inv(),
                i <= self.entries@.len(),
                forall|j: int| 0 <= j < i ==> self.entries@[j].id@ != id@,
            decreases self.entries@.len() - i,
        {
            if self.entries[i].id == *id {
                return Some(i);
            }
            i = i + 1;
        }
        proof {
            if self.bound@.contains_key(id@) {
                let j = choose|j: int| 0 <= j < self.entries@.len() && #[trigger] self.entries@[j].id@ == id@;
                assert(self.entries@[j].id@ == id@);
            }
        }
        None
    }

    /// A registry that keeps its invariant has every live handle below the
    /// count of issued ones.
    pub proof fn lemma_inv_wf(&self)
        requires
            self.inv(),
        ensures
            self@.wf(),
    {
    }

    /// How many instances were created so far.
    pub fn issued(&self) -> (r: u64)
        ensures
            r as nat == self@.issued,
    {
        self.issued
    }

    /// Whether an instance is bound to `id`.
    pub fn contains(&self, id: &str) -> (r: bool)
        requires
            self.inv(),
        ensures
            r == self@.bindings.contains_key(id@),
    {
        let key = String::from_str(id);
        match self.position(&key) {
            Some(i) => {
                assert(self.bound@.contains_key(self.entries@[i as int].id@));
                true
            },
            None => false,
        }
    }

    /// The handle bound to `id`, if any.
    pub fn handle_of(&self, id: &str) -> (r: Option<u64>)
        requires
            self.inv(),
        ensures
            r == (if self@.bindings.contains_key(id@) {
                Some(self@.bindings[id@])
            } else {
                None::<u64>
            }),
    {
        let key = String::from_str(id);
        match self.position(&key) {
            Some(i) => {
                assert(self.bound@.contains_key(self.entries@[i as int].id@));
                Some(self.entries[i].handle)
            },
            None => None,
        }
    }

    /// Binds a new external instance to `id`, unless one is bound already:
    /// then nothing changes and the bound handle is returned.
    pub fn attach(&mut self, id: &str) -> (r: Attach)
        requires
            old(self).inv(),
            old(self)@.issued < u64::MAX,
        ensures
            final(self).inv(),
            final(self)@.wf(),
            (final(self)@, r) == attach_step(old(self)@, id@),
    {
        let key = String::from_str(id);
        match self.position(&key) {
            Some(i) => {
                assert(self.bound@.contains_key(self.entries@[i as int].id@));
                Attach::Existing(self.entries[i].handle)
            },
            None => {
                let h = self.issued;
                let ghost old_entries = self.entries@;
                let ghost old_bound = self.bound@;
                let ghost old_model = self@;
                let added = Binding { id: key, handle: h };
                let ghost gadded = added;
                self.entries.push(added);
                self.issued = h + 1;
                self.bound = Ghost(old_bound.insert(id@, h));
                proof {
                    lemma_push_match(old_entries, old_bound, gadded);
                    assert forall|k: Seq<char>| #[trigger] self@.bindings.contains_key(k) implies (
                    self@.bindings[k] as nat) < self@.issued by {
                        if k != id@ {
                            assert(old_model.bindings.contains_key(k));
                        }
                    }
                }
                Attach::Created(h)
            },
        }
    }

    /// Removes the binding of `id`; a no-op where none exists.
    pub fn detach(&mut self, id: &str)
        requires
            old(self).inv(),
        ensures
            final(self).inv(),
            final(self)@.wf(),
            final(self)@ == detach_step(old(self)@, id@),
    {
        let key = String::from_str(id);
        match self.position(&key) {
            Some(i) => {
                let ghost old_entries = self.entries@;
                let ghost old_bound = self.bound@;
                let ghost old_model = self@;
                let _removed = self.entries.remove(i);
                self.bound = Ghost(old_bound.remove(id@));
                proof {
                    lemma_remove_match(old_entries, old_bound, i as int);
                    assert forall|k: Seq<char>| #[trigger] self@.bindings.contains_key(k) implies (
                    self@.bindings[k] as nat) < self@.issued by {
                        assert(old_model.bindings.contains_key(k));
                    }
                }
            },
            None => {
                assert(self@.bindings.remove(id@) =~= self@.bindings);
            },
        }
    }
}

/// `e` lists each key of `b` once, with its value, and nothing else.
spec fn entries_match(e: Seq<Binding>, b: Map<Seq<char>, u64>) -> bool {
    &&& forall|i: int|
        0 <= i < e.len() ==> {
            &&& #[trigger] b.contains_key(e[i].id@)
            &&& b[e[i].id@] == e[i].handle
        }
    &&& forall|k: Seq<char>| #[trigger] b.contains_key(k) ==> exists|i: int| 0 <= i < e.len() && #[trigger] e[i].id@ == k
    &&& forall|i: int, j: int|
        0 <= i < e.len() && 0 <= j < e.len() && i != j ==> #[trigger] e[i].id@ != #[trigger] e[j].id@
}

proof fn lemma_push_match(e: Seq<Binding>, b: Map<Seq<char>, u64>, x: Binding)
    requires
        entries_match(e, b),
        !b.contains_key(x.id@),
    ensures
        entries_match(e.push(x), b.insert(x.id@, x.handle)),
{
    let e2 = e.push(x);
    let b2 = b.insert(x.id@, x.handle);
    let n = e.len() as int;
    assert(e2[n] == x);
    assert forall|i: int| 0 <= i < e2.len() implies {
        &&& #[trigger] b2.contains_key(e2[i].id@)
        &&& b2[e2[i].id@] == e2[i].handle
    } by {
        if i < n {
            assert(e2[i] == e[i]);
            assert(b.contains_key(e[i].id@));
        }
    }
    assert forall|k: Seq<char>| #[trigger] b2.contains_key(k) implies exists|i: int|
        0 <= i < e2.len() && #[trigger] e2[i].id@ == k by {
        if k == x.id@ {
            assert(e2[n].id@ == k);
        } else {
            assert(b.contains_key(k));
            let j = choose|j: int| 0 <= j < e.len() && #[trigger] e[j].id@ == k;
            assert(e2[j] == e[j]);
        }
    }
    assert forall|i: int, j: int| 0 <= i < e2.len() && 0 <= j < e2.len() && i != j implies #[trigger] e2[i].id@
        != #[trigger] e2[j].id@ by {
        if i < n && j < n {
            assert(e2[i] == e[i]);
            assert(e2[j] == e[j]);
        } else if i < n {
            assert(e2[i] == e[i]);
            assert(b.contains_key(e[i].id@));
        } else {
            assert(e2[j] == e[j]);
            assert(b.contains_key(e[j].id@));
        }
    }
}

proof fn lemma_remove_match(e: Seq<Binding>, b: Map<Seq<char>, u64>, p: int)
    requires
        entries_match(e, b),
        0 <= p < e.len(),
    ensures
        entries_match(e.remove(p), b.remove(e[p].id@)),
{
    let e2 = e.remove(p);
    let b2 = b.remove(e[p].id@);
    assert forall|a: int| 0 <= a < e2.len() implies {
        &&& #[trigger] b2.contains_key(e2[a].id@)
        &&& b2[e2[a].id@] == e2[a].handle
    } by {
        let c = if a < p {
            a
        } else {
            a + 1
        };
        assert(e2[a] == e[c]);
        assert(b.contains_key(e[c].id@));
        assert(e[c].id@ != e[p].id@);
    }
    assert forall|k: Seq<char>| #[trigger] b2.contains_key(k) implies exists|a: int|
        0 <= a < e2.len() && #[trigger] e2[a].id@ == k by {
        assert(b.contains_key(k));
        let j = choose|j: int| 0 <= j < e.len() && #[trigger] e[j].id@ == k;
        if j < p {
            assert(e2[j] == e[j]);
        } else {
            assert(j != p);
            assert(e2[j - 1] == e[j]);
        }
    }
    assert forall|a: int, c: int| 0 <= a < e2.len() && 0 <= c < e2.len() && a != c implies #[trigger] e2[a].id@
        != #[trigger] e2[c].id@ by {
        let a0 = if a < p {
            a
        } else {
            a + 1
        };
        let c0 = if c < p {
            c
        } else {
            c + 1
        };
        assert(e2[a] == e[a0]);
        assert(e2[c] == e[c0]);
    }
}

/// Attaching an id twice in a row, with no detach between, leaves exactly
/// one binding for it, and at most one instance is created over the two
/// calls: exactly one where the id was not bound before. The second call
/// changes nothing and reports the instance that the first one bound.
pub proof fn lemma_attach_idempotent(m: RegistryModel, id: Seq<char>)
    requires
        m.wf(),
        m.issued < u64::MAX,
    ensures
        ({
            let (m1, r1) = attach_step(m, id);
            let (m2, r2) = attach_step(m1, id);
            &&& m2 == m1
            &&& r2 == Attach::Existing(r1.spec_handle())
            &&& m2.count_of(id) == 1
            &&& m2.issued == m.issued + (if m.bindings.contains_key(id) { 0nat } else { 1nat })
            &&& m2.wf()
        }),
{
    lemma_attach_wf(m, id);
}

/// Attaching keeps every live handle below the count of issued ones.
pub proof fn lemma_attach_wf(m: RegistryModel, id: Seq<char>)
    requires
        m.wf(),
        m.issued < u64::MAX,
    ensures
        attach_step(m, id).0.wf(),
{
    let m1 = attach_step(m, id).0;
    assert forall|k: Seq<char>| #[trigger] m1.bindings.contains_key(k) implies (m1.bindings[k] as nat)
        < m1.issued by {
        if k != id {
            assert(m.bindings.contains_key(k));
        }
    }
}

/// A detach followed by an attach of the same id creates a fresh instance:
/// its handle was never issued before, so it differs from every handle that
/// was live before the detach, the detached one included.
pub proof fn lemma_detach_then_attach_fresh(m: RegistryModel, id: Seq<char>)
    requires
        m.wf(),
        m.issued < u64::MAX,
    ensures
        ({
            let m1 = detach_step(m, id);
            let (m2, r) = attach_step(m1, id);
            &&& r is Created
            &&& r.spec_handle() as nat == m.issued
            &&& forall|k: Seq<char>| #[trigger] m.bindings.contains_key(k) ==> m.bindings[k] != r.spec_handle()
            &&& m2.bindings.contains_key(id)
            &&& m2.bindings[id] == r.spec_handle()
            &&& m2.count_of(id) == 1
            &&& m2.wf()
        }),
{
    let m1 = detach_step(m, id);
    assert(m1.wf()) by {
        assert forall|k: Seq<char>| #[trigger] m1.bindings.contains_key(k) implies (m1.bindings[k] as nat)
            < m1.issued by {
            assert(m.bindings.contains_key(k));
        }
    }
    lemma_attach_wf(m1, id);
}

} // verus!
