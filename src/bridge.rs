//! The event bridge: what an external widget's native callback hands over,
//! turned into typed widget events.
//!
//! Tag-style widgets send a command object such as
//! `{"op":"add","value":"Rust"}`; single-value widgets (the calendar) send
//! the bare value, where an empty string means that the value was cleared.
//!
//! A command is a flat JSON object whose members are all strings: blanks
//! (space, tab, line feed, carriage return) may stand between tokens, the
//! escapes `\" \\ \/ \b \f \n \r \t` and `\uXXXX` are read (a surrogate pair
//! stands for one character; a lone surrogate is refused), and a key given
//! twice keeps its last value. Anything else is refused.
use vstd::prelude::*;

verus! {

/// A typed event of an external widget.
#[derive(Clone, Debug, PartialEq, Eq)]
pub enum WidgetEvent {
    /// A tag was added.
    Added(String),
    /// A tag was removed.
    Removed(String),
    /// The value of a single-value widget changed; empty when cleared.
    Changed(String),
}

/// The value of a [`WidgetEvent`].
pub enum EventView {
    Added(Seq<char>),
    Removed(Seq<char>),
    Changed(Seq<char>),
}

impl View for WidgetEvent {
    type V = EventView;

    open spec fn view(&self) -> EventView {
        match self {
            WidgetEvent::Added(v) => EventView::Added(v@),
            WidgetEvent::Removed(v) => EventView::Removed(v@),
            WidgetEvent::Changed(v) => EventView::Changed(v@),
        }
    }
}

/// Why a command payload could not be bridged.
#[derive(Clone, Copy, Debug, PartialEq, Eq, Structural)]
pub enum BridgeError {
    /// The payload is not a command object.
    Unparsable,
    /// The object has no `op` member.
    MissingOp,
    /// The object has no `value` member.
    MissingValue,
    /// `op` is neither `add` nor `remove`.
    UnknownOp,
}

/// Relies on `String::push`: the character is appended at the end.
#[verifier::external_body]
pub(crate) fn push_char(s: &mut String, c: char)
    ensures
        final(s)@ == old(s)@.push(c),
{
    s.push(c)
}

/// The blanks that may stand between tokens.
pub open spec fn is_blank(c: char) -> bool {
    c == ' ' || c == '\t' || c == '\n' || c == '\r'
}

/// The first index from `i` on that holds no blank.
pub open spec fn skip_blanks(s: Seq<char>, i: int) -> int
    decreases s.len() - i,
{
    if 0 <= i < s.len() && is_blank(s[i]) {
        skip_blanks(s, i + 1)
    } else {
        i
    }
}

/// The character that an escape `\c` stands for.
pub open spec fn unescape(c: char) -> Option<char> {
    if c == '"' {
        Some('"')
    } else if c == '\\' {
        Some('\\')
    } else if c == '/' {
        Some('/')
    } else if c == 'b' {
        Some('\u{8}')
    } else if c == 'f' {
        Some('\u{c}')
    } else if c == 'n' {
        Some('\n')
    } else if c == 'r' {
        Some('\r')
    } else if c == 't' {
        Some('\t')
    } else {
        None
    }
}

/// The value of a hexadecimal digit.
pub open spec fn hex_digit(c: char) -> Option<int> {
    if '0' <= c && c <= '9' {
        Some(c as int - '0' as int)
    } else if 'a' <= c && c <= 'f' {
        Some(c as int - 'a' as int + 10)
    } else if 'A' <= c && c <= 'F' {
        Some(c as int - 'A' as int + 10)
    } else {
        None
    }
}

/// The number written by the four hexadecimal digits from `i`.
pub open spec fn hex4(s: Seq<char>, i: int) -> Option<int> {
    if 0 <= i && i + 4 <= s.len() && hex_digit(s[i]) is Some && hex_digit(s[i + 1]) is Some && hex_digit(
        s[i + 2],
    ) is Some && hex_digit(s[i + 3]) is Some {
        Some(
            hex_digit(s[i])->0 * 4096 + hex_digit(s[i + 1])->0 * 256 + hex_digit(s[i + 2])->0 * 16
                + hex_digit(s[i + 3])->0,
        )
    } else {
        None
    }
}

/// The scalar value of a character.
pub open spec fn code_of(c: char) -> int {
    c as int
}

/// The character whose scalar value is `v`.
pub open spec fn scalar_of(v: int) -> char {
    choose|c: char| #[trigger] code_of(c) == v
}

/// The escape `\uXXXX` at `i`, or a surrogate pair of two such escapes:
/// the character it stands for and the index after it.
pub open spec fn unicode_escape(s: Seq<char>, i: int) -> Option<(char, int)> {
    match hex4(s, i + 2) {
        None => None,
        Some(u) => if u < 0xD800 || 0xE000 <= u {
            Some((scalar_of(u), i + 6))
        } else if u < 0xDC00 {
            if s.len() - i > 7 && s[i + 6] == '\\' && s[i + 7] == 'u' {
                match hex4(s, i + 8) {
                    Some(l) => if 0xDC00 <= l && l < 0xE000 {
                        Some((scalar_of(0x10000 + (u - 0xD800) * 0x400 + (l - 0xDC00)), i + 12))
                    } else {
                        None
                    },
                    None => None,
                }
            } else {
                None
            }
        } else {
            None
        },
    }
}

/// The rest of a string literal from `i`, just after its opening quote: the
/// characters it stands for and the index after its closing quote.
pub open spec fn string_rest(s: Seq<char>, i: int) -> Option<(Seq<char>, int)>
    decreases s.len() - i,
{
    if i < 0 || i >= s.len() {
        None
    } else if s[i] == '"' {
        Some((Seq::empty(), i + 1))
    } else if s[i] == '\\' {
        if i + 1 < s.len() && s[i + 1] == 'u' {
            match unicode_escape(s, i) {
                Some(e) => if i < e.1 <= s.len() {
                    match string_rest(s, e.1) {
                        Some(p) => Some((seq![e.0] + p.0, p.1)),
                        None => None,
                    }
                } else {
                    None
                },
                None => None,
            }
        } else if i + 1 < s.len() && unescape(s[i + 1]) is Some {
            match string_rest(s, i + 2) {
                Some(p) => Some((seq![unescape(s[i + 1])->0] + p.0, p.1)),
                None => None,
            }
        } else {
            None
        }
    } else if (s[i] as u32) < 0x20 {
        None
    } else {
        match string_rest(s, i + 1) {
            Some(p) => Some((seq![s[i]] + p.0, p.1)),
            None => None,
        }
    }
}

/// The members of an object from `i`, where a member's key opens, added to
/// `acc`; with the index after the closing brace.
pub open spec fn members(s: Seq<char>, i: int, acc: Map<Seq<char>, Seq<char>>) -> Option<
    (Map<Seq<char>, Seq<char>>, int),
>
    decreases s.len() - i,
{
    if i < 0 || i >= s.len() || s[i] != '"' {
        None
    } else {
        match string_rest(s, i + 1) {
            None => None,
            Some(kp) => {
                let j = skip_blanks(s, kp.1);
                if j < s.len() && s[j] == ':' {
                    let k = skip_blanks(s, j + 1);
                    if k < s.len() && s[k] == '"' {
                        match string_rest(s, k + 1) {
                            None => None,
                            Some(vp) => {
                                let l = skip_blanks(s, vp.1);
                                let m = acc.insert(kp.0, vp.0);
                                if l < s.len() && s[l] == ',' {
                                    let n = skip_blanks(s, l + 1);
                                    if i < n <= s.len() {
                                        members(s, n, m)
                                    } else {
                                        None
                                    }
                                } else if l < s.len() && s[l] == '}' {
                                    Some((m, l + 1))
                                } else {
                                    None
                                }
                            },
                        }
                    } else {
                        None
                    }
                } else {
                    None
                }
            },
        }
    }
}

/// The members of `s` read as a whole object, or `None` where `s` is no
/// object of string members.
pub open spec fn parse_object(s: Seq<char>) -> Option<Map<Seq<char>, Seq<char>>> {
    let i = skip_blanks(s, 0);
    if i < s.len() && s[i] == '{' {
        let j = skip_blanks(s, i + 1);
        let body = if j < s.len() && s[j] == '}' {
            Some((Map::<Seq<char>, Seq<char>>::empty(), j + 1))
        } else {
            members(s, j, Map::empty())
        };
        match body {
            Some(p) => if skip_blanks(s, p.1) == s.len() {
                Some(p.0)
            } else {
                None
            },
            None => None,
        }
    } else {
        None
    }
}

/// The event that a tag command payload stands for.
pub open spec fn command_event(s: Seq<char>) -> Result<EventView, BridgeError> {
    match parse_object(s) {
        None => Err(BridgeError::Unparsable),
        Some(m) => if !m.contains_key("op"@) {
            Err(BridgeError::MissingOp)
        } else if !m.contains_key("value"@) {
            Err(BridgeError::MissingValue)
        } else if m["op"@] == "add"@ {
            Ok(EventView::Added(m["value"@]))
        } else if m["op"@] == "remove"@ {
            Ok(EventView::Removed(m["value"@]))
        } else {
            Err(BridgeError::UnknownOp)
        },
    }
}

fn chars_of(s: &str) -> (r: Vec<char>)
    ensures
        r@ == s@,
{
    let n = s.unicode_len();
    let mut r: Vec<char> = Vec::new();
    let mut i: usize = 0;
    while i < n
        invariant
            n == s@.len(),
            i <= n,
            r@ == s@.subrange(0, i as int),
        decreases n - i,
    {
        r.push(s.get_char(i));
        i = i + 1;
    }
    assert(r@ =~= s@);
    r
}

fn skip_blanks_from(s: &Vec<char>, i: usize) -> (r: usize)
    requires
        i <= s@.len(),
    ensures
        r as int == skip_blanks(s@, i as int),
        i <= r <= s@.len(),
{
    let mut j = i;
    while j < s.len() && (s[j] == ' ' || s[j] == '\t' || s[j] == '\n' || s[j] == '\r')
        invariant
            i <= j <= s@.len(),
            skip_blanks(s@, i as int) == skip_blanks(s@, j as int),
        decreases s@.len() - j,
    {
        j = j + 1;
    }
    j
}

/// `r` with `acc` put before the characters it holds.
pub open spec fn prefixed(acc: Seq<char>, r: Option<(Seq<char>, int)>) -> Option<(Seq<char>, int)> {
    match r {
        Some(p) => Some((acc + p.0, p.1)),
        None => None,
    }
}

fn unescape_char(c: char) -> (r: Option<char>)
    ensures
        r == unescape(c),
{
    if c == '"' {
        Some('"')
    } else if c == '\\' {
        Some('\\')
    } else if c == '/' {
        Some('/')
    } else if c == 'b' {
        Some('\u{8}')
    } else if c == 'f' {
        Some('\u{c}')
    } else if c == 'n' {
        Some('\n')
    } else if c == 'r' {
        Some('\r')
    } else if c == 't' {
        Some('\t')
    } else {
        None
    }
}

/// Relies on `char::from_u32`: the character whose scalar value is `v`,
/// which exists exactly below 0xD800 and from 0xE000 up to 0x10FFFF.
#[verifier::external_body]
fn char_from(v: u32) -> (r: Option<char>)
    ensures
        r is Some <==> (v < 0xD800 || (0xE000 <= v && v < 0x110000)),
        r matches Some(c) ==> c as u32 == v,
{
    char::from_u32(v)
}

fn hex_digit_of(c: char) -> (r: Option<u32>)
    ensures
        match hex_digit(c) {
            Some(d) => r matches Some(x) && x as int == d,
            None => r is None,
        },
{
    if '0' <= c && c <= '9' {
        Some(c as u32 - '0' as u32)
    } else if 'a' <= c && c <= 'f' {
        Some(c as u32 - 'a' as u32 + 10)
    } else if 'A' <= c && c <= 'F' {
        Some(c as u32 - 'A' as u32 + 10)
    } else {
        None
    }
}

fn hex4_at(s: &Vec<char>, i: usize) -> (r: Option<u32>)
    ensures
        match hex4(s@, i as int) {
            Some(v) => r matches Some(x) && x as int == v && v < 0x10000 && i + 4 <= s@.len(),
            None => r is None,
        },
{
    if i > s.len() || s.len() - i < 4 {
        return None;
    }
    let d0 = match hex_digit_of(s[i]) {
        Some(d) => d,
        None => return None,
    };
    let d1 = match hex_digit_of(s[i + 1]) {
        Some(d) => d,
        None => return None,
    };
    let d2 = match hex_digit_of(s[i + 2]) {
        Some(d) => d,
        None => return None,
    };
    let d3 = match hex_digit_of(s[i + 3]) {
        Some(d) => d,
        None => return None,
    };
    Some(d0 * 4096 + d1 * 256 + d2 * 16 + d3)
}

proof fn lemma_scalar_of(c: char, v: u32)
    requires
        c as u32 == v,
    ensures
        scalar_of(v as int) == c,
{
    assert(code_of(c) == v as int);
    let d = scalar_of(v as int);
    assert(code_of(d) == v as int);
    assert(d as u32 == c as u32);
}

fn read_unicode_escape(s: &Vec<char>, i: usize) -> (r: Option<(char, usize)>)
    requires
        i + 1 < s@.len(),
    ensures
        match unicode_escape(s@, i as int) {
            Some(e) => r matches Some(t) && t.0 == e.0 && t.1 as int == e.1 && i < t.1 <= s@.len(),
            None => r is None,
        },
{
    let n = s.len();
    let u = match hex4_at(s, i + 2) {
        Some(u) => u,
        None => return None,
    };
    if u < 0xD800 || 0xE000 <= u {
        let c = match char_from(u) {
            Some(c) => c,
            None => return None,
        };
        proof {
            lemma_scalar_of(c, u);
        }
        Some((c, i + 6))
    } else if u < 0xDC00 {
        if s.len() - i > 7 && s[i + 6] == '\\' && s[i + 7] == 'u' {
            let l = match hex4_at(s, i + 8) {
                Some(l) => l,
                None => return None,
            };
            if 0xDC00 <= l && l < 0xE000 {
                assert((u - 0xD800) * 0x400 <= 0x3FF * 0x400) by (nonlinear_arith)
                    requires
                        u - 0xD800 <= 0x3FF,
                ;
                let v = 0x10000 + (u - 0xD800) * 0x400 + (l - 0xDC00);
                let c = match char_from(v) {
                    Some(c) => c,
                    None => return None,
                };
                proof {
                    lemma_scalar_of(c, v);
                }
                Some((c, i + 12))
            } else {
                None
            }
        } else {
            None
        }
    } else {
        None
    }
}

fn read_string(s: &Vec<char>, i: usize) -> (r: Option<(String, usize)>)
    requires
        i <= s@.len(),
    ensures
        match r {
            Some((t, j)) => string_rest(s@, i as int) == Some((t@, j as int)) && i < j <= s@.len(),
            None => string_rest(s@, i as int) is None,
        },
{
    let mut acc = String::new();
    let mut j = i;
    loop
        invariant
            i <= j <= s@.len(),
            string_rest(s@, i as int) == prefixed(acc@, string_rest(s@, j as int)),
        decreases s@.len() - j,
    {
        if j >= s.len() {
            return None;
        }
        let c = s[j];
        if c == '"' {
            assert(acc@ + Seq::<char>::empty() =~= acc@);
            return Some((acc, j + 1));
        } else if c == '\\' {
            if j + 1 >= s.len() {
                return None;
            }
            if s[j + 1] == 'u' {
                match read_unicode_escape(s, j) {
                    None => {
                        return None;
                    },
                    Some((e, next)) => {
                        proof {
                            let ghost old_acc = acc@;
                            match string_rest(s@, next as int) {
                                Some(p) => {
                                    assert(old_acc + (seq![e] + p.0) =~= old_acc.push(e) + p.0);
                                },
                                None => {},
                            }
                        }
                        push_char(&mut acc, e);
                        j = next;
                        continue;
                    },
                }
            }
            match unescape_char(s[j + 1]) {
                None => {
                    return None;
                },
                Some(e) => {
                    proof {
                        let ghost old_acc = acc@;
                        match string_rest(s@, j + 2) {
                            Some(p) => {
                                assert(old_acc + (seq![e] + p.0) =~= old_acc.push(e) + p.0);
                            },
                            None => {},
                        }
                    }
                    push_char(&mut acc, e);
                    j = j + 2;
                },
            }
        } else if (c as u32) < 0x20 {
            return None;
        } else {
            proof {
                let ghost old_acc = acc@;
                match string_rest(s@, j + 1) {
                    Some(p) => {
                        assert(old_acc + (seq![c] + p.0) =~= old_acc.push(c) + p.0);
                    },
                    None => {},
                }
            }
            push_char(&mut acc, c);
            j = j + 1;
        }
    }
}

/// The value of `k` in `m`, if any.
pub open spec fn lookup(m: Map<Seq<char>, Seq<char>>, k: Seq<char>) -> Option<Seq<char>> {
    if m.contains_key(k) {
        Some(m[k])
    } else {
        None
    }
}

/// The characters that an optional string holds.
pub open spec fn opt_view(o: Option<String>) -> Option<Seq<char>> {
    match o {
        Some(t) => Some(t@),
        None => None,
    }
}

/// The `op` and `value` members of an object whose members open at `i`,
/// with the index after its closing brace.
fn read_members(s: &Vec<char>, i: usize) -> (r: Option<(Option<String>, Option<String>, usize)>)
    requires
        i <= s@.len(),
    ensures
        match members(s@, i as int, Map::empty()) {
            Some(p) => r matches Some(t) && opt_view(t.0) == lookup(p.0, "op"@) && opt_view(t.1)
                == lookup(p.0, "value"@) && t.2 as int == p.1 && t.2 <= s@.len(),
            None => r is None,
        },
{
    let op_key = String::from_str("op");
    let value_key = String::from_str("value");
    let mut op: Option<String> = None;
    let mut value: Option<String> = None;
    let ghost mut acc: Map<Seq<char>, Seq<char>> = Map::empty();
    let mut j = i;
    loop
        invariant
            i <= j <= s@.len(),
            op_key@ == "op"@,
            value_key@ == "value"@,
            members(s@, i as int, Map::empty()) == members(s@, j as int, acc),
            opt_view(op) == lookup(acc, "op"@),
            opt_view(value) == lookup(acc, "value"@),
        decreases s@.len() - j,
    {
        if j >= s.len() || s[j] != '"' {
            return None;
        }
        let (key, a) = match read_string(s, j + 1) {
            Some(t) => t,
            None => {
                return None;
            },
        };
        let b = skip_blanks_from(s, a);
        if !(b < s.len() && s[b] == ':') {
            return None;
        }
        let c = skip_blanks_from(s, b + 1);
        if !(c < s.len() && s[c] == '"') {
            return None;
        }
        let (val, d) = match read_string(s, c + 1) {
            Some(t) => t,
            None => {
                return None;
            },
        };
        let e = skip_blanks_from(s, d);
        proof {
            acc = acc.insert(key@, val@);
        }
        if key == op_key {
            op = Some(val.clone());
        }
        if key == value_key {
            value = Some(val);
        }
        if e < s.len() && s[e] == ',' {
            let n = skip_blanks_from(s, e + 1);
            j = n;
        } else if e < s.len() && s[e] == '}' {
            return Some((op, value, e + 1));
        } else {
            return None;
        }
    }
}

/// Reads a tag command payload, `{"op":"add","value":"Rust"}` or one with
/// `"op":"remove"`, into the event it stands for.
pub fn parse_command(payload: &str) -> (r: Result<WidgetEvent, BridgeError>)
    ensures
        match r {
            Ok(e) => command_event(payload@) == Ok::<EventView, BridgeError>(e@),
            Err(x) => command_event(payload@) == Err::<EventView, BridgeError>(x),
        },
{
    let s = chars_of(payload);
    let i = skip_blanks_from(&s, 0);
    if !(i < s.len() && s[i] == '{') {
        return Err(BridgeError::Unparsable);
    }
    let j = skip_blanks_from(&s, i + 1);
    let (op, value, end) = if j < s.len() && s[j] == '}' {
        (None, None, j + 1)
    } else {
        match read_members(&s, j) {
            Some(t) => t,
            None => {
                return Err(BridgeError::Unparsable);
            },
        }
    };
    if skip_blanks_from(&s, end) != s.len() {
        return Err(BridgeError::Unparsable);
    }
    match op {
        None => Err(BridgeError::MissingOp),
        Some(op) => match value {
            None => Err(BridgeError::MissingValue),
            Some(v) => {
                let add = String::from_str("add");
                let remove = String::from_str("remove");
                if op == add {
                    Ok(WidgetEvent::Added(v))
                } else if op == remove {
                    Ok(WidgetEvent::Removed(v))
                } else {
                    Err(BridgeError::UnknownOp)
                }
            },
        },
    }
}

/// The event of a single-value widget: its current value, empty when the
/// value was cleared.
pub fn value_event(value: String) -> (r: WidgetEvent)
    ensures
        r@ == EventView::Changed(value@),
{
    WidgetEvent::Changed(value)
}

/// Text in which nothing needs an escape inside a string literal.
pub open spec fn is_plain(v: Seq<char>) -> bool {
    forall|i: int| 0 <= i < v.len() ==> v[i] != '"' && v[i] != '\\' && (v[i] as u32) >= 0x20
}

/// The payload that a tag widget sends: `{"op":"<op>","value":"<value>"}`.
pub open spec fn command_text(op: Seq<char>, value: Seq<char>) -> Seq<char> {
    "{\"op\":\""@ + op + "\",\"value\":\""@ + value + "\"}"@
}

proof fn lemma_plain_string(s: Seq<char>, i: int, v: Seq<char>)
    requires
        0 <= i,
        i + v.len() < s.len(),
        s.subrange(i, i + v.len()) == v,
        is_plain(v),
        s[i + v.len()] == '"',
    ensures
        string_rest(s, i) == Some((v, i + v.len() + 1)),
    decreases v.len(),
{
    if v.len() > 0 {
        let w = v.subrange(1, v.len() as int);
        assert(s.subrange(i + 1, i + 1 + w.len()) =~= w) by {
            assert forall|k: int| 0 <= k < w.len() implies s.subrange(i + 1, i + 1 + w.len())[k] == w[k] by {
                assert(s.subrange(i, i + v.len())[k + 1] == s[i + 1 + k]);
            }
        }
        assert(s.subrange(i, i + v.len())[0] == s[i]);
        lemma_plain_string(s, i + 1, w);
        assert(seq![s[i]] + w =~= v);
    }
}

proof fn lemma_keys()
    ensures
        "op"@.len() == 2,
        "value"@.len() == 5,
        is_plain("op"@),
        is_plain("value"@),
        "op"@ != "value"@,
{
    reveal_strlit("op");
    reveal_strlit("value");
}

proof fn lemma_command_shape(op: Seq<char>, value: Seq<char>)
    ensures
        ({
            let s = command_text(op, value);
            let ol = op.len() as int;
            let vl = value.len() as int;
            &&& s.len() == 20 + ol + vl
            &&& s[0] == '{'
            &&& s[1] == '"'
            &&& s.subrange(2, 4) == "op"@
            &&& s[4] == '"'
            &&& s[5] == ':'
            &&& s[6] == '"'
            &&& s.subrange(7, 7 + ol) == op
            &&& s[7 + ol] == '"'
            &&& s[8 + ol] == ','
            &&& s[9 + ol] == '"'
            &&& s.subrange(10 + ol, 15 + ol) == "value"@
            &&& s[15 + ol] == '"'
            &&& s[16 + ol] == ':'
            &&& s[17 + ol] == '"'
            &&& s.subrange(18 + ol, 18 + ol + vl) == value
            &&& s[18 + ol + vl] == '"'
            &&& s[19 + ol + vl] == '}'
        }),
{
    reveal_strlit("{\"op\":\"");
    reveal_strlit("\",\"value\":\"");
    reveal_strlit("\"}");
    reveal_strlit("op");
    reveal_strlit("value");
    let a = "{\"op\":\""@;
    let b = "\",\"value\":\""@;
    let c = "\"}"@;
    let s = command_text(op, value);
    let ol = op.len() as int;
    let vl = value.len() as int;
    let p1 = a + op;
    let p2 = p1 + b;
    let p3 = p2 + value;
    assert(s == p3 + c);
    assert(s.subrange(0, 7) =~= a);
    assert(s.subrange(7, 7 + ol) =~= op);
    assert(s.subrange(7 + ol, 18 + ol) =~= b);
    assert(s.subrange(18 + ol, 18 + ol + vl) =~= value);
    assert(s.subrange(18 + ol + vl, 20 + ol + vl) =~= c);
    assert(s.subrange(2, 4) =~= "op"@);
    assert(s.subrange(10 + ol, 15 + ol) =~= "value"@);
}

/// A command whose op and value need no escapes is read back as what it
/// says: `add` gives the added value, `remove` the removed one, and any
/// other op is refused.
#[verifier::spinoff_prover]
#[verifier::rlimit(60)]
pub proof fn lemma_command_round_trip(op: Seq<char>, value: Seq<char>)
    requires
        is_plain(op),
        is_plain(value),
    ensures
        command_event(command_text(op, value)) == (if op == "add"@ {
            Ok::<EventView, BridgeError>(EventView::Added(value))
        } else if op == "remove"@ {
            Ok::<EventView, BridgeError>(EventView::Removed(value))
        } else {
            Err::<EventView, BridgeError>(BridgeError::UnknownOp)
        }),
{
    let s = command_text(op, value);
    let ol = op.len() as int;
    let vl = value.len() as int;
    lemma_keys();
    lemma_command_shape(op, value);
    lemma_plain_string(s, 2, "op"@);
    lemma_plain_string(s, 7, op);
    lemma_plain_string(s, 10 + ol, "value"@);
    lemma_plain_string(s, 18 + ol, value);
    let m1 = Map::<Seq<char>, Seq<char>>::empty().insert("op"@, op);
    let m2 = m1.insert("value"@, value);
    assert(members(s, 9 + ol, m1) == Some((m2, 20 + ol + vl))) by {
        assert(skip_blanks(s, 16 + ol) == 16 + ol);
        assert(skip_blanks(s, 17 + ol) == 17 + ol);
        assert(skip_blanks(s, 19 + ol + vl) == 19 + ol + vl);
    }
    assert(members(s, 1, Map::empty()) == Some((m2, 20 + ol + vl))) by {
        assert(skip_blanks(s, 5) == 5);
        assert(skip_blanks(s, 6) == 6);
        assert(skip_blanks(s, 8 + ol) == 8 + ol);
        assert(skip_blanks(s, 9 + ol) == 9 + ol);
    }
    assert(parse_object(s) == Some(m2)) by {
        assert(skip_blanks(s, 0) == 0);
        assert(skip_blanks(s, 1) == 1);
        assert(skip_blanks(s, 20 + ol + vl) == 20 + ol + vl);
    }
    assert(m2["op"@] == op);
    assert(m2["value"@] == value);
}

} // verus!
