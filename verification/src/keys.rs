//! Key expressions: the textual form of a key binding (`"j"`, `"Enter"`,
//! `"Ctrl+d"`) and the key events it stands for.
use vstd::prelude::*;

use crate::text::{chars_of, lemma_split_nonempty, split_chars, split_on, str_eq, string_from_chars};

verus! {

/// Modifier keys held while a key is pressed.
#[derive(Clone, Copy, Debug, PartialEq, Eq, Structural)]
pub struct KeyModifiers {
    /// Shift is held.
    pub shift: bool,
    /// Control is held.
    pub control: bool,
    /// Alt is held.
    pub alt: bool,
    /// Any modifier that bindings cannot name (super, hyper, meta) is held.
    pub other: bool,
}

impl KeyModifiers {
    /// No modifier held.
    pub open spec fn none_spec() -> KeyModifiers {
        KeyModifiers { shift: false, control: false, alt: false, other: false }
    }

    /// No modifier held.
    pub fn none() -> (r: KeyModifiers)
        ensures
            r == KeyModifiers::none_spec(),
    {
        KeyModifiers { shift: false, control: false, alt: false, other: false }
    }
}

/// The key that was pressed.
#[derive(Clone, Copy, Debug, PartialEq, Eq, Structural)]
pub enum KeyCode {
    /// A character key.
    Char(char),
    Enter,
    Esc,
    Backspace,
    Left,
    Right,
    Up,
    Down,
    Home,
    End,
    PageUp,
    PageDown,
    Tab,
    Delete,
    Insert,
    /// Any key that no key expression names (function keys, media keys, ...).
    Other,
}

/// A key press: a key and the modifiers held with it.
#[derive(Clone, Copy, Debug, PartialEq, Eq, Structural)]
pub struct KeyEvent {
    pub code: KeyCode,
    pub modifiers: KeyModifiers,
}

impl KeyEvent {
    /// A key event from its parts.
    pub fn new(code: KeyCode, modifiers: KeyModifiers) -> (r: KeyEvent)
        ensures
            r.code == code,
            r.modifiers == modifiers,
    {
        KeyEvent { code, modifiers }
    }
}

/// Why a key expression could not be read.
#[derive(Debug)]
pub enum KeyParseError {
    /// A part before the last `+` is not `Ctrl`, `Control`, `Alt` or `Shift`.
    UnknownModifier(String),
    /// The part after the last `+` names no key.
    UnknownKey(String),
}

/// The view of a [`KeyParseError`].
pub enum KeyParseErrorView {
    UnknownModifier(Seq<char>),
    UnknownKey(Seq<char>),
}

impl View for KeyParseError {
    type V = KeyParseErrorView;

    open spec fn view(&self) -> KeyParseErrorView {
        match self {
            KeyParseError::UnknownModifier(m) => KeyParseErrorView::UnknownModifier(m@),
            KeyParseError::UnknownKey(k) => KeyParseErrorView::UnknownKey(k@),
        }
    }
}

impl KeyParseError {
    /// A human-readable description.
    pub fn message(&self) -> (r: String)
        ensures
            r@ == match self@ {
                KeyParseErrorView::UnknownModifier(m) => "Unknown modifier: "@ + m,
                KeyParseErrorView::UnknownKey(k) => "Unknown key: "@ + k,
            },
    {
        match self {
            KeyParseError::UnknownModifier(m) => crate::text::concat2("Unknown modifier: ", m.as_str()),
            KeyParseError::UnknownKey(k) => crate::text::concat2("Unknown key: ", k.as_str()),
        }
    }
}

// ---------------------------------------------------------------------------
// Specification
// ---------------------------------------------------------------------------

/// The key a key name denotes: one of the named keys, or a single ASCII
/// character (one byte in UTF-8) standing for itself.
pub open spec fn spec_key_code(s: Seq<char>) -> Option<KeyCode> {
    if s == "Enter"@ {
        Some(KeyCode::Enter)
    } else if s == "Esc"@ {
        Some(KeyCode::Esc)
    } else if s == "Backspace"@ {
        Some(KeyCode::Backspace)
    } else if s == "Left"@ {
        Some(KeyCode::Left)
    } else if s == "Right"@ {
        Some(KeyCode::Right)
    } else if s == "Up"@ {
        Some(KeyCode::Up)
    } else if s == "Down"@ {
        Some(KeyCode::Down)
    } else if s == "Home"@ {
        Some(KeyCode::Home)
    } else if s == "End"@ {
        Some(KeyCode::End)
    } else if s == "PageUp"@ {
        Some(KeyCode::PageUp)
    } else if s == "PageDown"@ {
        Some(KeyCode::PageDown)
    } else if s == "Tab"@ {
        Some(KeyCode::Tab)
    } else if s == "Delete"@ {
        Some(KeyCode::Delete)
    } else if s == "Insert"@ {
        Some(KeyCode::Insert)
    } else if s.len() == 1 && (s[0] as u32) < 0x80 {
        Some(KeyCode::Char(s[0]))
    } else {
        None
    }
}

/// `m` with the modifier named `name` added, if `name` names one.
pub open spec fn spec_add_modifier(m: KeyModifiers, name: Seq<char>) -> Option<KeyModifiers> {
    if name == "Ctrl"@ || name == "Control"@ {
        Some(KeyModifiers { control: true, ..m })
    } else if name == "Alt"@ {
        Some(KeyModifiers { alt: true, ..m })
    } else if name == "Shift"@ {
        Some(KeyModifiers { shift: true, ..m })
    } else {
        None
    }
}

/// The modifiers named by the first `n` parts, or the first part that names
/// no modifier.
pub open spec fn spec_modifiers(parts: Seq<Seq<char>>, n: int) -> Result<KeyModifiers, Seq<char>>
    decreases n,
{
    if n <= 0 {
        Ok(KeyModifiers::none_spec())
    } else {
        match spec_modifiers(parts, n - 1) {
            Err(e) => Err(e),
            Ok(m) => match spec_add_modifier(m, parts[n - 1]) {
                Some(m2) => Ok(m2),
                None => Err(parts[n - 1]),
            },
        }
    }
}

/// What a key expression denotes: it is split at `+`; every part but the last
/// names a modifier, the last names the key.
pub open spec fn spec_parse_key(s: Seq<char>) -> Result<KeyEvent, KeyParseErrorView> {
    let parts = split_on(s, '+');
    let n = parts.len() as int;
    match spec_modifiers(parts, n - 1) {
        Err(m) => Err(KeyParseErrorView::UnknownModifier(m)),
        Ok(mods) => match spec_key_code(parts[n - 1]) {
            Some(code) => Ok(KeyEvent { code, modifiers: mods }),
            None => Err(KeyParseErrorView::UnknownKey(parts[n - 1])),
        },
    }
}

/// `s` is a key expression that can be read.
pub open spec fn key_parses(s: Seq<char>) -> bool {
    spec_parse_key(s) is Ok
}

// ---------------------------------------------------------------------------
// Executable
// ---------------------------------------------------------------------------

/// The key that a key name denotes, if any.
pub fn parse_key_code(s: &str) -> (r: Result<KeyCode, KeyParseError>)
    ensures
        match r {
            Ok(code) => spec_key_code(s@) == Some(code),
            Err(e) => spec_key_code(s@) is None && e@ == KeyParseErrorView::UnknownKey(s@),
        },
{
    if str_eq(s, "Enter") {
        Ok(KeyCode::Enter)
    } else if str_eq(s, "Esc") {
        Ok(KeyCode::Esc)
    } else if str_eq(s, "Backspace") {
        Ok(KeyCode::Backspace)
    } else if str_eq(s, "Left") {
        Ok(KeyCode::Left)
    } else if str_eq(s, "Right") {
        Ok(KeyCode::Right)
    } else if str_eq(s, "Up") {
        Ok(KeyCode::Up)
    } else if str_eq(s, "Down") {
        Ok(KeyCode::Down)
    } else if str_eq(s, "Home") {
        Ok(KeyCode::Home)
    } else if str_eq(s, "End") {
        Ok(KeyCode::End)
    } else if str_eq(s, "PageUp") {
        Ok(KeyCode::PageUp)
    } else if str_eq(s, "PageDown") {
        Ok(KeyCode::PageDown)
    } else if str_eq(s, "Tab") {
        Ok(KeyCode::Tab)
    } else if str_eq(s, "Delete") {
        Ok(KeyCode::Delete)
    } else if str_eq(s, "Insert") {
        Ok(KeyCode::Insert)
    } else {
        let chars = chars_of(s);
        if chars.len() == 1 && (chars[0] as u32) < 0x80 {
            Ok(KeyCode::Char(chars[0]))
        } else {
            Err(KeyParseError::UnknownKey(crate::text::owned(s)))
        }
    }
}

fn add_modifier(m: KeyModifiers, name: &str) -> (r: Option<KeyModifiers>)
    ensures
        r == spec_add_modifier(m, name@),
{
    if str_eq(name, "Ctrl") || str_eq(name, "Control") {
        Some(KeyModifiers { control: true, ..m })
    } else if str_eq(name, "Alt") {
        Some(KeyModifiers { alt: true, ..m })
    } else if str_eq(name, "Shift") {
        Some(KeyModifiers { shift: true, ..m })
    } else {
        None
    }
}

/// Reads a key expression such as `"j"`, `"Enter"` or `"Ctrl+d"`.
pub fn parse_key(s: &str) -> (r: Result<KeyEvent, KeyParseError>)
    ensures
        r is Ok <==> spec_parse_key(s@) is Ok,
        r matches Ok(ev) ==> spec_parse_key(s@) == Ok::<KeyEvent, KeyParseErrorView>(ev),
        r matches Err(e) ==> spec_parse_key(s@) == Err::<KeyEvent, KeyParseErrorView>(e@),
{
    let chars = chars_of(s);
    let parts = split_chars(&chars, '+');
    let ghost pv = split_on(s@, '+');
    proof {
        lemma_split_nonempty(s@, crate::text::eq_pred('+'));
    }
    assert(parts@.len() == pv.len());
    assert(forall|k: int| 0 <= k < parts@.len() ==> #[trigger] parts@[k]@ == pv[k]);
    let n = parts.len();
    let mut mods = KeyModifiers::none();
    let mut i: usize = 0;
    while i + 1 < n
        invariant
            n == parts@.len(),
            n == pv.len(),
            pv == split_on(s@, '+'),
            n >= 1,
            i + 1 <= n,
            forall|k: int| 0 <= k < n ==> #[trigger] parts@[k]@ == pv[k],
            spec_modifiers(pv, i as int) == Ok::<KeyModifiers, Seq<char>>(mods),
        decreases n - i,
    {
        let name = string_from_chars(&parts[i]);
        match add_modifier(mods, name.as_str()) {
            Some(m) => {
                mods = m;
            },
            None => {
                proof {
                    assert(spec_modifiers(pv, i + 1) == Err::<KeyModifiers, Seq<char>>(pv[i as int]));
                    lemma_modifiers_err_sticks(pv, i + 1, n - 1);
                    assert(name@ == pv[i as int]);
                    assert(spec_modifiers(pv, n - 1) == Err::<KeyModifiers, Seq<char>>(pv[i as int]));
                    assert(spec_parse_key(s@) == Err::<KeyEvent, KeyParseErrorView>(
                        KeyParseErrorView::UnknownModifier(pv[i as int]),
                    ));
                }
                return Err(KeyParseError::UnknownModifier(name));
            },
        }
        i += 1;
    }
    assert(i == n - 1);
    let last = string_from_chars(&parts[n - 1]);
    match parse_key_code(last.as_str()) {
        Ok(code) => Ok(KeyEvent { code, modifiers: mods }),
        Err(e) => Err(e),
    }
}

proof fn lemma_modifiers_err_sticks(parts: Seq<Seq<char>>, i: int, j: int)
    requires
        0 <= i <= j,
        spec_modifiers(parts, i) is Err,
    ensures
        spec_modifiers(parts, j) == spec_modifiers(parts, i),
    decreases j - i,
{
    if j > i {
        lemma_modifiers_err_sticks(parts, i, j - 1);
    }
}

/// Whether two key events are the same key with the same modifiers.
pub fn key_event_matches(expected: &KeyEvent, actual: &KeyEvent) -> (r: bool)
    ensures
        r == (*expected == *actual),
{
    expected.code == actual.code && expected.modifiers == actual.modifiers
}


/// The modifiers named by the first `n` parts of a key expression are
/// exactly those that some part names: Control for `Ctrl` or `Control`,
/// Alt for `Alt`, Shift for `Shift`; naming one never drops another.
pub proof fn lemma_modifiers_are_those_named(parts: Seq<Seq<char>>, n: int)
    requires
        0 <= n <= parts.len(),
    ensures
        spec_modifiers(parts, n) matches Ok(m) ==> {
            &&& m.control <==> exists|k: int| 0 <= k < n && (parts[k] == "Ctrl"@ || parts[k] == "Control"@)
            &&& m.alt <==> exists|k: int| 0 <= k < n && parts[k] == "Alt"@
            &&& m.shift <==> exists|k: int| 0 <= k < n && parts[k] == "Shift"@
            &&& !m.other
        },
    decreases n,
{
    reveal_strlit("Ctrl");
    reveal_strlit("Control");
    reveal_strlit("Alt");
    reveal_strlit("Shift");
    if n > 0 {
        lemma_modifiers_are_those_named(parts, n - 1);
        if spec_modifiers(parts, n) is Ok {
            let p = parts[n - 1];
            assert(spec_modifiers(parts, n - 1) is Ok);
            assert(p == "Ctrl"@ || p == "Control"@ || p == "Alt"@ || p == "Shift"@);
            assert("Ctrl"@.len() == 4 && "Control"@.len() == 7 && "Alt"@.len() == 3 && "Shift"@.len() == 5);
        }
    }
}

/// Adding a modifier by name keeps the modifiers already held.
pub proof fn lemma_add_modifier_keeps(m: KeyModifiers, name: Seq<char>)
    ensures
        spec_add_modifier(m, name) matches Some(m2) ==> (m.control ==> m2.control) && (m.alt ==> m2.alt) && (
        m.shift ==> m2.shift) && m2.other == m.other,
{
}

/// A key expression that reads holds Control, Alt and Shift exactly when
/// one of the parts before its key names them.
pub proof fn lemma_parsed_key_modifiers(s: Seq<char>)
    ensures
        spec_parse_key(s) matches Ok(ev) ==> {
            let parts = split_on(s, '+');
            &&& ev.modifiers.control <==> exists|k: int|
                0 <= k < parts.len() - 1 && (parts[k] == "Ctrl"@ || parts[k] == "Control"@)
            &&& ev.modifiers.alt <==> exists|k: int| 0 <= k < parts.len() - 1 && parts[k] == "Alt"@
            &&& ev.modifiers.shift <==> exists|k: int| 0 <= k < parts.len() - 1 && parts[k] == "Shift"@
        },
{
    let parts = split_on(s, '+');
    crate::text::lemma_split_nonempty(s, crate::text::eq_pred('+'));
    lemma_modifiers_are_those_named(parts, parts.len() - 1);
}

} // verus!
