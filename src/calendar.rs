//! The calendar binding: a single-value date/time picker whose native
//! callback hands over the current value, empty when it was cleared.
use vstd::prelude::*;
use crate::binding::WidgetBinding;
use crate::bridge::{value_event, EventView, WidgetEvent};
use crate::registry::{attach_step, Attach, WidgetRegistry};

verus! {

/// The date pattern used where none is given.
pub const DEFAULT_DATE_FORMAT: &'static str = "yyyy-MM-dd";

/// The time pattern used where none is given.
pub const DEFAULT_TIME_FORMAT: &'static str = "HH:mm";

/// Whether `c` has the Unicode property White_Space.
pub open spec fn is_white(c: char) -> bool {
    let u = c as u32;
    (0x9 <= u && u <= 0xd) || u == 0x20 || u == 0x85 || u == 0xa0 || u == 0x1680 || (0x2000 <= u && u
        <= 0x200a) || u == 0x2028 || u == 0x2029 || u == 0x202f || u == 0x205f || u == 0x3000
}

/// How many characters at the start of `s` are whitespace.
pub open spec fn white_prefix(s: Seq<char>) -> nat
    decreases s.len(),
{
    if s.len() > 0 && is_white(s[0]) {
        1 + white_prefix(s.drop_first())
    } else {
        0
    }
}

/// How many characters at the end of `s` are whitespace.
pub open spec fn white_suffix(s: Seq<char>) -> nat
    decreases s.len(),
{
    if s.len() > 0 && is_white(s.last()) {
        1 + white_suffix(s.drop_last())
    } else {
        0
    }
}

/// `s` without its leading and trailing whitespace; empty where it is all
/// whitespace.
pub open spec fn trimmed(s: Seq<char>) -> Seq<char> {
    if white_prefix(s) >= s.len() {
        Seq::empty()
    } else {
        s.subrange(white_prefix(s) as int, s.len() - white_suffix(s))
    }
}

/// Relies on `str::trim`: the text without its leading and trailing
/// whitespace, whitespace being the characters with the Unicode property
/// White_Space.
#[verifier::external_body]
fn trim_text(s: &str) -> (r: &str)
    ensures
        r@ == trimmed(s@),
{
    s.trim()
}

/// The pattern that a trimmed pattern property stands for: itself, or
/// `fallback` where it is empty.
pub fn pattern_or(trimmed_pattern: &str, fallback: &str) -> (r: String)
    ensures
        r@ == (if trimmed_pattern@.len() == 0 {
            fallback@
        } else {
            trimmed_pattern@
        }),
{
    if trimmed_pattern.unicode_len() == 0 {
        String::from_str(fallback)
    } else {
        String::from_str(trimmed_pattern)
    }
}

/// The pattern handed to the widget for the property `raw`: `raw` trimmed,
/// or `fallback` where nothing is left of it.
pub fn resolve_pattern(raw: &str, fallback: &str) -> (r: String)
    ensures
        r@ == (if trimmed(raw@).len() == 0 {
            fallback@
        } else {
            trimmed(raw@)
        }),
{
    pattern_or(trim_text(raw), fallback)
}

/// The value a consumer stores for what the widget reports: none for an
/// empty (cleared) value.
pub open spec fn stored_date(v: Seq<char>) -> Option<Seq<char>> {
    if v.len() == 0 {
        None
    } else {
        Some(v)
    }
}

/// The characters that an optional string holds.
pub open spec fn date_view(o: Option<String>) -> Option<Seq<char>> {
    match o {
        Some(t) => Some(t@),
        None => None,
    }
}

/// The stored value for a value the widget reports: `None` where it is empty.
pub fn date_from_value(value: String) -> (r: Option<String>)
    ensures
        date_view(r) == stored_date(value@),
{
    if value.as_str().unicode_len() == 0 {
        None
    } else {
        Some(value)
    }
}

/// What the widget is configured with when it is attached.
pub struct CalendarConfig {
    pub date_format: String,
    pub time_format: String,
    /// The value pushed into the widget on every attach; empty for none.
    pub seed: String,
}

/// The calendar component's state.
pub struct Calendar {
    pub binding: WidgetBinding,
    /// The current value; `None` while unset or cleared.
    pub date: Option<String>,
}

impl Calendar {
    /// A calendar anchored at `id`, holding `date`; not yet bound.
    pub fn create(id: &str, date: Option<String>) -> (r: Calendar)
        ensures
            r.binding.id@ == id@,
            r.binding.handle is None,
            r.date == date,
    {
        Calendar { binding: WidgetBinding::new(id), date }
    }

    /// The configuration for the widget: the patterns resolved against their
    /// defaults, and the current value as the seed.
    pub fn config(&self, date_format: &str, time_format: &str) -> (r: CalendarConfig)
        ensures
            r.date_format@ == (if trimmed(date_format@).len() == 0 {
                DEFAULT_DATE_FORMAT@
            } else {
                trimmed(date_format@)
            }),
            r.time_format@ == (if trimmed(time_format@).len() == 0 {
                DEFAULT_TIME_FORMAT@
            } else {
                trimmed(time_format@)
            }),
            r.seed@ == (match self.date {
                Some(d) => d@,
                None => Seq::<char>::empty(),
            }),
    {
        let seed = match &self.date {
            Some(d) => d.clone(),
            None => String::new(),
        };
        CalendarConfig {
            date_format: resolve_pattern(date_format, DEFAULT_DATE_FORMAT),
            time_format: resolve_pattern(time_format, DEFAULT_TIME_FORMAT),
            seed,
        }
    }

    /// New properties carry the value `date`: it is stored, and handed back
    /// as the value to push into the bound widget (empty for none), without
    /// any detach or new attach.
    pub fn changed(&mut self, date: Option<String>) -> (seed: String)
        ensures
            final(self).binding == old(self).binding,
            final(self).date == date,
            seed@ == (match date {
                Some(d) => d@,
                None => Seq::<char>::empty(),
            }),
    {
        let seed = match &date {
            Some(d) => d.clone(),
            None => String::new(),
        };
        self.date = date;
        seed
    }

    /// After each paint: binds the widget on the first one.
    pub fn rendered(&mut self, registry: &mut WidgetRegistry, first_render: bool) -> (r: Option<Attach>)
        requires
            old(registry).inv(),
            old(registry)@.issued < u64::MAX,
        ensures
            final(registry).inv(),
            final(self).date == old(self).date,
            final(self).binding.id == old(self).binding.id,
            if first_render {
                &&& r matches Some(a)
                &&& (final(registry)@, a) == attach_step(old(registry)@, old(self).binding.id@)
                &&& final(self).binding.handle == Some(a.spec_handle())
            } else {
                &&& r is None
                &&& final(registry)@ == old(registry)@
            },
    {
        self.binding.rendered(registry, first_render)
    }

    /// The event that the widget's native callback reports for `value`.
    pub fn bridge(value: String) -> (r: WidgetEvent)
        ensures
            r@ == EventView::Changed(value@),
    {
        value_event(value)
    }

    /// Takes an event of the widget: a changed value is stored, `None` where
    /// it is empty, and handed back to be passed on to the parent.
    pub fn update(&mut self, event: WidgetEvent) -> (r: Option<String>)
        ensures
            final(self).binding == old(self).binding,
            match event@ {
                EventView::Changed(v) => {
                    &&& date_view(final(self).date) == stored_date(v)
                    &&& r matches Some(e) && e@ == v
                },
                _ => final(self).date == old(self).date && r is None,
            },
    {
        match event {
            WidgetEvent::Changed(v) => {
                let passed = v.clone();
                self.date = date_from_value(v);
                Some(passed)
            },
            _ => None,
        }
    }
}

} // verus!
