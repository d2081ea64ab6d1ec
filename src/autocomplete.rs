//! The tag input binding: a static list of allowed tags, or suggestions
//! fetched from a remote source as the user types.
use vstd::prelude::*;
use crate::binding::WidgetBinding;
use crate::bridge::{parse_command, command_event, BridgeError, EventView, WidgetEvent};

verus! {

/// The characters of each string, in order.
pub open spec fn texts(s: Seq<String>) -> Seq<Seq<char>> {
    s.map_values(|t: String| t@)
}

/// No text stands twice.
pub open spec fn no_repeats(s: Seq<Seq<char>>) -> bool {
    forall|i: int, j: int| 0 <= i < s.len() && 0 <= j < s.len() && i != j ==> s[i] != s[j]
}

/// `s` without any occurrence of `v`, order kept.
pub open spec fn without(s: Seq<Seq<char>>, v: Seq<char>) -> Seq<Seq<char>>
    decreases s.len(),
{
    if s.len() == 0 {
        s
    } else {
        let rest = without(s.drop_last(), v);
        if s.last() == v {
            rest
        } else {
            rest.push(s.last())
        }
    }
}

/// The tags held after an event: an added tag goes at the end unless it is
/// held already, a removed one goes wherever it stands.
pub open spec fn apply_event(tags: Seq<Seq<char>>, e: EventView) -> Seq<Seq<char>> {
    match e {
        EventView::Added(v) => if tags.contains(v) {
            tags
        } else {
            tags.push(v)
        },
        EventView::Removed(v) => without(tags, v),
        EventView::Changed(_) => tags,
    }
}

/// The tags that a consumer of a tag input holds, in order of addition.
pub struct TagSelection {
    pub tags: Vec<String>,
}

fn holds(tags: &Vec<String>, v: &String) -> (r: bool)
    ensures
        r == texts(tags@).contains(v@),
{
    let mut i: usize = 0;
    while i < tags.len()
        invariant
            i <= tags@.len(),
            forall|j: int| 0 <= j < i ==> tags@[j]@ != v@,
        decreases tags@.len() - i,
    {
        if tags[i] == *v {
            assert(texts(tags@)[i as int] == v@);
            return true;
        }
        i = i + 1;
    }
    proof {
        if texts(tags@).contains(v@) {
            let j = choose|j: int| 0 <= j < texts(tags@).len() && texts(tags@)[j] == v@;
            assert(tags@[j]@ == v@);
        }
    }
    false
}

fn remove_all(tags: &Vec<String>, v: &String) -> (r: Vec<String>)
    ensures
        texts(r@) == without(texts(tags@), v@),
{
    let mut out: Vec<String> = Vec::new();
    let mut i: usize = 0;
    while i < tags.len()
        invariant
            i <= tags@.len(),
            texts(out@) == without(texts(tags@.subrange(0, i as int)), v@),
        decreases tags@.len() - i,
    {
        let ghost before = tags@.subrange(0, i as int);
        let ghost after = tags@.subrange(0, i as int + 1);
        assert(texts(after).drop_last() =~= texts(before));
        assert(texts(after).last() == tags@[i as int]@);
        if tags[i] != *v {
            let t = tags[i].clone();
            out.push(t);
            assert(texts(out@) =~= without(texts(before), v@).push(tags@[i as int]@));
        }
        i = i + 1;
    }
    assert(tags@.subrange(0, tags@.len() as int) =~= tags@);
    out
}

impl TagSelection {
    /// No tag held.
    pub fn new() -> (r: TagSelection)
        ensures
            r.tags@.len() == 0,
    {
        TagSelection { tags: Vec::new() }
    }

    /// Takes an event of the tag input.
    pub fn apply(&mut self, e: &WidgetEvent)
        ensures
            texts(final(self).tags@) == apply_event(texts(old(self).tags@), e@),
    {
        match e {
            WidgetEvent::Added(v) => {
                if !holds(&self.tags, v) {
                    self.tags.push(v.clone());
                    assert(texts(self.tags@) =~= texts(old(self).tags@).push(v@));
                }
            },
            WidgetEvent::Removed(v) => {
                self.tags = remove_all(&self.tags, v);
            },
            WidgetEvent::Changed(_) => {},
        }
    }

    /// Bridges a native command payload and takes the event; a payload that
    /// is no command changes nothing and gives its error.
    pub fn receive(&mut self, payload: &str) -> (r: Result<(), BridgeError>)
        ensures
            match command_event(payload@) {
                Ok(e) => r is Ok && texts(final(self).tags@) == apply_event(texts(old(self).tags@), e),
                Err(x) => r == Err::<(), BridgeError>(x) && final(self).tags@ == old(self).tags@,
            },
    {
        match parse_command(payload) {
            Ok(e) => {
                self.apply(&e);
                Ok(())
            },
            Err(x) => Err(x),
        }
    }
}

proof fn lemma_without(s: Seq<Seq<char>>, v: Seq<char>)
    ensures
        !without(s, v).contains(v),
        forall|x: Seq<char>| #[trigger] without(s, v).contains(x) <==> (s.contains(x) && x != v),
        no_repeats(s) ==> no_repeats(without(s, v)),
    decreases s.len(),
{
    if s.len() > 0 {
        let init = s.drop_last();
        lemma_without(init, v);
        let rest = without(init, v);
        assert forall|x: Seq<char>| s.contains(x) <==> (init.contains(x) || x == s.last()) by {
            if s.contains(x) {
                let k = choose|k: int| 0 <= k < s.len() && s[k] == x;
                if k < s.len() - 1 {
                    assert(init[k] == x);
                }
            }
            if init.contains(x) {
                let k = choose|k: int| 0 <= k < init.len() && init[k] == x;
                assert(s[k] == x);
            }
            if x == s.last() {
                assert(s[s.len() - 1] == x);
            }
        }
        if s.last() != v {
            let r = rest.push(s.last());
            assert forall|x: Seq<char>| r.contains(x) <==> (rest.contains(x) || x == s.last()) by {
                if r.contains(x) {
                    let k = choose|k: int| 0 <= k < r.len() && r[k] == x;
                    if k < rest.len() {
                        assert(rest[k] == x);
                    }
                }
                if rest.contains(x) {
                    let k = choose|k: int| 0 <= k < rest.len() && rest[k] == x;
                    assert(r[k] == x);
                }
                if x == s.last() {
                    assert(r[r.len() - 1] == x);
                }
            }
            if no_repeats(s) {
                assert(no_repeats(init)) by {
                    assert forall|i: int, j: int|
                        0 <= i < init.len() && 0 <= j < init.len() && i != j implies init[i] != init[j] by {
                        assert(init[i] == s[i] && init[j] == s[j]);
                    }
                }
                assert(!init.contains(s.last())) by {
                    if init.contains(s.last()) {
                        let k = choose|k: int| 0 <= k < init.len() && init[k] == s.last();
                        assert(s[k] == s[s.len() - 1]);
                    }
                }
                assert forall|i: int, j: int|
                    0 <= i < r.len() && 0 <= j < r.len() && i != j implies r[i] != r[j] by {
                    if i < rest.len() && j < rest.len() {
                        assert(r[i] == rest[i] && r[j] == rest[j]);
                    } else if i < rest.len() {
                        assert(rest.contains(r[i]));
                    } else {
                        assert(rest.contains(r[j]));
                    }
                }
            }
        } else {
            if no_repeats(s) {
                assert forall|i: int, j: int|
                    0 <= i < init.len() && 0 <= j < init.len() && i != j implies init[i] != init[j] by {
                    assert(init[i] == s[i] && init[j] == s[j]);
                }
            }
        }
    }
}

/// An added tag is then held exactly once, and after its removal it is not
/// held at all; a selection without repeats keeps none.
pub proof fn lemma_add_then_remove(tags: Seq<Seq<char>>, v: Seq<char>)
    requires
        no_repeats(tags),
    ensures
        ({
            let added = apply_event(tags, EventView::Added(v));
            let removed = apply_event(added, EventView::Removed(v));
            &&& added.contains(v)
            &&& no_repeats(added)
            &&& forall|i: int, j: int| 0 <= i < added.len() && 0 <= j < added.len() && added[i] == v && added[j] == v ==> i == j
            &&& !removed.contains(v)
            &&& no_repeats(removed)
        }),
{
    let added = apply_event(tags, EventView::Added(v));
    if !tags.contains(v) {
        assert(added[added.len() - 1] == v);
        assert forall|i: int, j: int| 0 <= i < added.len() && 0 <= j < added.len() && i != j implies added[i]
            != added[j] by {
            if i < tags.len() && j < tags.len() {
                assert(added[i] == tags[i] && added[j] == tags[j]);
            } else if i < tags.len() {
                assert(added[i] == tags[i]);
            } else {
                assert(added[j] == tags[j]);
            }
        }
    }
    lemma_without(added, v);
}

/// The remote suggestions currently shown by a dynamic tag input.
pub struct Suggestions<T> {
    pub items: Vec<T>,
}

/// The suggestions shown after a fetch answered with `status` and, where
/// its body could be read, `body`: the body on status 200, else the list as
/// it was.
pub open spec fn after_response<T>(items: Seq<T>, status: u16, body: Option<Seq<T>>) -> Seq<T> {
    if status == STATUS_OK && body is Some {
        body->0
    } else {
        items
    }
}

/// A fetch that fails, by its status or by an unreadable body, leaves the
/// shown suggestions exactly as they were.
pub proof fn lemma_failed_fetch_keeps_list<T>(items: Seq<T>, status: u16, body: Option<Seq<T>>)
    requires
        status != STATUS_OK || body is None,
    ensures
        after_response(items, status, body) == items,
{
}

/// The only status a fetch succeeds with.
pub const STATUS_OK: u16 = 200;

impl<T> Suggestions<T> {
    /// No suggestion shown.
    pub fn new() -> (r: Suggestions<T>)
        ensures
            r.items@.len() == 0,
    {
        Suggestions { items: Vec::new() }
    }

    /// Takes the outcome of one fetch: a response with status 200 and a
    /// readable body replaces the list; any other outcome leaves it as it
    /// was. Returns whether the fetch succeeded.
    pub fn on_response(&mut self, status: u16, body: Option<Vec<T>>) -> (r: bool)
        ensures
            r == (status == STATUS_OK && body is Some),
            final(self).items@ == after_response(
                old(self).items@,
                status,
                match body {
                    Some(v) => Some(v@),
                    None => None,
                },
            ),
            r ==> final(self).items == body->0,
            !r ==> final(self).items == old(self).items,
    {
        if status == STATUS_OK {
            match body {
                Some(items) => {
                    self.items = items;
                    true
                },
                None => false,
            }
        } else {
            false
        }
    }
}

/// The address fetched for the text typed so far: the base followed by it.
pub fn suggestion_url(base: &str, input: &str) -> (r: String)
    ensures
        r@ == base@ + input@,
{
    String::from_str(base).concat(input)
}

/// Where the allowed tags come from.
#[derive(Clone, Copy, Debug, PartialEq, Eq, Structural)]
pub enum SourceMode {
    /// The list given up front.
    Static,
    /// Fetched from the remote source as the user types.
    Dynamic,
}

/// A tag input fetches from the remote source exactly where it was given
/// an address for it.
pub fn source_mode(url_for_fetch: &str) -> (r: SourceMode)
    ensures
        r == (if url_for_fetch@.len() == 0 {
            SourceMode::Static
        } else {
            SourceMode::Dynamic
        }),
{
    if url_for_fetch.unicode_len() == 0 {
        SourceMode::Static
    } else {
        SourceMode::Dynamic
    }
}

/// How a tag input's anchor element is rendered.
#[derive(Clone, Copy, Debug, PartialEq, Eq, Structural)]
pub enum RenderMode {
    /// A `select` of the given items.
    Select,
    /// A text input whose items are objects, with a text and a value key.
    KeyedInput,
    /// A plain text input.
    PlainInput,
}

/// The anchor element to render: a `select` where items are given and no
/// item keys, a keyed input where both keys are given, else a plain input.
pub fn render_mode(item_count: usize, data_item_text: &str, data_item_value: &str) -> (r: RenderMode)
    ensures
        r == (if item_count > 0 && data_item_text@.len() == 0 && data_item_value@.len() == 0 {
            RenderMode::Select
        } else if data_item_text@.len() > 0 && data_item_value@.len() > 0 {
            RenderMode::KeyedInput
        } else {
            RenderMode::PlainInput
        }),
{
    let text_len = data_item_text.unicode_len();
    let value_len = data_item_value.unicode_len();
    if item_count > 0 && text_len == 0 && value_len == 0 {
        RenderMode::Select
    } else if text_len > 0 && value_len > 0 {
        RenderMode::KeyedInput
    } else {
        RenderMode::PlainInput
    }
}

/// The initial value of a keyed input: `{"<key>":"<current>"}`, or `{}`
/// where nothing is selected.
pub open spec fn keyed_value(key: Seq<char>, current: Seq<char>) -> Seq<char> {
    if current.len() == 0 {
        "{}"@
    } else {
        "{\""@ + key + "\":\""@ + current + "\"}"@
    }
}

/// The initial value of a keyed input for the selected item `current`.
pub fn keyed_input_value(key: &str, current: &str) -> (r: String)
    ensures
        r@ == keyed_value(key@, current@),
{
    if current.unicode_len() == 0 {
        String::from_str("{}")
    } else {
        String::from_str("{\"").concat(key).concat("\":\"").concat(current).concat("\"}")
    }
}

/// Whether `item` is the selected option.
pub fn is_selected(item: &str, current: &str) -> (r: bool)
    ensures
        r == (item@ == current@),
{
    String::from_str(item) == String::from_str(current)
}

/// The tag input component's state.
pub struct AutoComplete {
    pub binding: WidgetBinding,
}

impl AutoComplete {
    /// A tag input anchored at `id`; not yet bound.
    pub fn create(id: &str) -> (r: AutoComplete)
        ensures
            r.binding.id@ == id@,
            r.binding.handle is None,
    {
        AutoComplete { binding: WidgetBinding::new(id) }
    }

    /// The event that a native command payload stands for.
    pub fn bridge(payload: &str) -> (r: Result<WidgetEvent, BridgeError>)
        ensures
            match r {
                Ok(e) => command_event(payload@) == Ok::<EventView, BridgeError>(e@),
                Err(x) => command_event(payload@) == Err::<EventView, BridgeError>(x),
            },
    {
        parse_command(payload)
    }
}

} // verus!
