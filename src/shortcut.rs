//! Keyboard shortcuts written as text, such as `Ctrl+Shift+S`: parsing them
//! and matching key presses against them.
use vstd::prelude::*;
use crate::text::{lower_of, lowercase, str_eq};

verus! {

/// A key that a shortcut can name.
#[derive(Debug, Clone, Copy, PartialEq, Eq, Structural, Hash)]
pub enum KeyCode {
    KeyA,
    KeyB,
    KeyC,
    KeyD,
    KeyE,
    KeyF,
    KeyG,
    KeyH,
    KeyI,
    KeyJ,
    KeyK,
    KeyL,
    KeyM,
    KeyN,
    KeyO,
    KeyP,
    KeyQ,
    KeyR,
    KeyS,
    KeyT,
    KeyU,
    KeyV,
    KeyW,
    KeyX,
    KeyY,
    KeyZ,
    Digit0,
    Digit1,
    Digit2,
    Digit3,
    Digit4,
    Digit5,
    Digit6,
    Digit7,
    Digit8,
    Digit9,
    Equal,
    Minus,
    F1,
    F2,
    F3,
    F4,
    F5,
    F6,
    F7,
    F8,
    F9,
    F10,
    F11,
    F12,
    Enter,
    Escape,
    Backspace,
    Tab,
    Space,
    Delete,
    Home,
    End,
    PageUp,
    PageDown,
    ArrowUp,
    ArrowDown,
    ArrowLeft,
    ArrowRight
}

/// A parsed shortcut: the modifiers it needs and its key.
#[derive(Debug, Clone, Copy, PartialEq, Eq, Structural)]
pub struct ParsedShortcut {
    /// Control, or Command on macOS.
    pub ctrl_or_cmd: bool,
    pub alt: bool,
    pub shift: bool,
    pub key: KeyCode,
}

/// A modifier that a shortcut can name.
#[derive(Debug, Clone, Copy, PartialEq, Eq, Structural)]
pub enum Modifier {
    /// Control, or Command on macOS.
    CtrlOrCmd,
    Alt,
    Shift,
}

/// What `str::to_uppercase` returns for `s`.
pub uninterp spec fn upper_of(s: Seq<char>) -> Seq<char>;

/// Relies on str::to_uppercase: the result depends on the characters alone.
#[verifier::external_body]
fn uppercase(s: &str) -> (r: String)
    ensures
        r@ == upper_of(s@),
{
    s.to_uppercase()
}

/// The key names a shortcut can use, in upper case, with their keys.
pub open spec fn key_table() -> Seq<(Seq<char>, KeyCode)> {
    seq![("A"@, KeyCode::KeyA), ("B"@, KeyCode::KeyB), ("C"@, KeyCode::KeyC), ("D"@, KeyCode::KeyD), ("E"@, KeyCode::KeyE), ("F"@, KeyCode::KeyF), ("G"@, KeyCode::KeyG), ("H"@, KeyCode::KeyH), ("I"@, KeyCode::KeyI), ("J"@, KeyCode::KeyJ), ("K"@, KeyCode::KeyK), ("L"@, KeyCode::KeyL), ("M"@, KeyCode::KeyM), ("N"@, KeyCode::KeyN), ("O"@, KeyCode::KeyO), ("P"@, KeyCode::KeyP), ("Q"@, KeyCode::KeyQ), ("R"@, KeyCode::KeyR), ("S"@, KeyCode::KeyS), ("T"@, KeyCode::KeyT), ("U"@, KeyCode::KeyU), ("V"@, KeyCode::KeyV), ("W"@, KeyCode::KeyW), ("X"@, KeyCode::KeyX), ("Y"@, KeyCode::KeyY), ("Z"@, KeyCode::KeyZ), ("0"@, KeyCode::Digit0), ("1"@, KeyCode::Digit1), ("2"@, KeyCode::Digit2), ("3"@, KeyCode::Digit3), ("4"@, KeyCode::Digit4), ("5"@, KeyCode::Digit5), ("6"@, KeyCode::Digit6), ("7"@, KeyCode::Digit7), ("8"@, KeyCode::Digit8), ("9"@, KeyCode::Digit9), ("="@, KeyCode::Equal), ("EQUAL"@, KeyCode::Equal), ("PLUS"@, KeyCode::Equal), ("-"@, KeyCode::Minus), ("MINUS"@, KeyCode::Minus), ("F1"@, KeyCode::F1), ("F2"@, KeyCode::F2), ("F3"@, KeyCode::F3), ("F4"@, KeyCode::F4), ("F5"@, KeyCode::F5), ("F6"@, KeyCode::F6), ("F7"@, KeyCode::F7), ("F8"@, KeyCode::F8), ("F9"@, KeyCode::F9), ("F10"@, KeyCode::F10), ("F11"@, KeyCode::F11), ("F12"@, KeyCode::F12), ("ENTER"@, KeyCode::Enter), ("RETURN"@, KeyCode::Enter), ("ESCAPE"@, KeyCode::Escape), ("ESC"@, KeyCode::Escape), ("BACKSPACE"@, KeyCode::Backspace), ("TAB"@, KeyCode::Tab), ("SPACE"@, KeyCode::Space), ("DELETE"@, KeyCode::Delete), ("DEL"@, KeyCode::Delete), ("HOME"@, KeyCode::Home), ("END"@, KeyCode::End), ("PAGEUP"@, KeyCode::PageUp), ("PAGEDOWN"@, KeyCode::PageDown), ("UP"@, KeyCode::ArrowUp), ("ARROWUP"@, KeyCode::ArrowUp), ("DOWN"@, KeyCode::ArrowDown), ("ARROWDOWN"@, KeyCode::ArrowDown), ("LEFT"@, KeyCode::ArrowLeft), ("ARROWLEFT"@, KeyCode::ArrowLeft), ("RIGHT"@, KeyCode::ArrowRight), ("ARROWRIGHT"@, KeyCode::ArrowRight)]
}

/// The key of the first entry of `table` named `name`.
pub open spec fn lookup(table: Seq<(Seq<char>, KeyCode)>, name: Seq<char>) -> Option<KeyCode>
    decreases table.len(),
{
    if table.len() == 0 {
        None
    } else if table[0].0 == name {
        Some(table[0].1)
    } else {
        lookup(table.drop_first(), name)
    }
}

/// The key a shortcut names with `name`, given in upper case.
pub open spec fn key_of(name: Seq<char>) -> Option<KeyCode> {
    lookup(key_table(), name)
}

/// The key named `name`, given in upper case.
pub fn key_from_name(name: &str) -> (r: Option<KeyCode>)
    ensures
        r == key_of(name@),
{
    let table: [(&str, KeyCode); 74] = [
        ("A", KeyCode::KeyA),
        ("B", KeyCode::KeyB),
        ("C", KeyCode::KeyC),
        ("D", KeyCode::KeyD),
        ("E", KeyCode::KeyE),
        ("F", KeyCode::KeyF),
        ("G", KeyCode::KeyG),
        ("H", KeyCode::KeyH),
        ("I", KeyCode::KeyI),
        ("J", KeyCode::KeyJ),
        ("K", KeyCode::KeyK),
        ("L", KeyCode::KeyL),
        ("M", KeyCode::KeyM),
        ("N", KeyCode::KeyN),
        ("O", KeyCode::KeyO),
        ("P", KeyCode::KeyP),
        ("Q", KeyCode::KeyQ),
        ("R", KeyCode::KeyR),
        ("S", KeyCode::KeyS),
        ("T", KeyCode::KeyT),
        ("U", KeyCode::KeyU),
        ("V", KeyCode::KeyV),
        ("W", KeyCode::KeyW),
        ("X", KeyCode::KeyX),
        ("Y", KeyCode::KeyY),
        ("Z", KeyCode::KeyZ),
        ("0", KeyCode::Digit0),
        ("1", KeyCode::Digit1),
        ("2", KeyCode::Digit2),
        ("3", KeyCode::Digit3),
        ("4", KeyCode::Digit4),
        ("5", KeyCode::Digit5),
        ("6", KeyCode::Digit6),
        ("7", KeyCode::Digit7),
        ("8", KeyCode::Digit8),
        ("9", KeyCode::Digit9),
        ("=", KeyCode::Equal),
        ("EQUAL", KeyCode::Equal),
        ("PLUS", KeyCode::Equal),
        ("-", KeyCode::Minus),
        ("MINUS", KeyCode::Minus),
        ("F1", KeyCode::F1),
        ("F2", KeyCode::F2),
        ("F3", KeyCode::F3),
        ("F4", KeyCode::F4),
        ("F5", KeyCode::F5),
        ("F6", KeyCode::F6),
        ("F7", KeyCode::F7),
        ("F8", KeyCode::F8),
        ("F9", KeyCode::F9),
        ("F10", KeyCode::F10),
        ("F11", KeyCode::F11),
        ("F12", KeyCode::F12),
        ("ENTER", KeyCode::Enter),
        ("RETURN", KeyCode::Enter),
        ("ESCAPE", KeyCode::Escape),
        ("ESC", KeyCode::Escape),
        ("BACKSPACE", KeyCode::Backspace),
        ("TAB", KeyCode::Tab),
        ("SPACE", KeyCode::Space),
        ("DELETE", KeyCode::Delete),
        ("DEL", KeyCode::Delete),
        ("HOME", KeyCode::Home),
        ("END", KeyCode::End),
        ("PAGEUP", KeyCode::PageUp),
        ("PAGEDOWN", KeyCode::PageDown),
        ("UP", KeyCode::ArrowUp),
        ("ARROWUP", KeyCode::ArrowUp),
        ("DOWN", KeyCode::ArrowDown),
        ("ARROWDOWN", KeyCode::ArrowDown),
        ("LEFT", KeyCode::ArrowLeft),
        ("ARROWLEFT", KeyCode::ArrowLeft),
        ("RIGHT", KeyCode::ArrowRight),
        ("ARROWRIGHT", KeyCode::ArrowRight),
    ];
        let ghost spec_table = key_table();
    assert(table@.map_values(|e: (&str, KeyCode)| (e.0@, e.1)) =~= spec_table);
    assert(spec_table.subrange(0, spec_table.len() as int) =~= spec_table);
    let mut i: usize = 0;
    while i < 74
        invariant
            i <= 74,
            table@.map_values(|e: (&str, KeyCode)| (e.0@, e.1)) == spec_table,
            key_of(name@) == lookup(spec_table.subrange(i as int, spec_table.len() as int), name@),
        decreases 74 - i,
    {
        let ghost rest = spec_table.subrange(i as int, spec_table.len() as int);
        assert(rest[0] == spec_table[i as int]);
        if str_eq(table[i].0, name) {
            return Some(table[i].1);
        }
        assert(rest.drop_first() =~= spec_table.subrange(i + 1, spec_table.len() as int));
        i = i + 1;
    }
    assert(spec_table.subrange(i as int, spec_table.len() as int) =~= Seq::<(Seq<char>, KeyCode)>::empty());
    None
}


/// The modifier a shortcut names with `name`, given in lower case.
pub open spec fn modifier_of(name: Seq<char>) -> Option<Modifier> {
    if name == "cmd"@ || name == "ctrl"@ || name == "control"@ || name == "meta"@ || name == "cmdorctrl"@ {
        Some(Modifier::CtrlOrCmd)
    } else if name == "alt"@ || name == "option"@ {
        Some(Modifier::Alt)
    } else if name == "shift"@ {
        Some(Modifier::Shift)
    } else {
        None
    }
}

/// The modifier named `name`, given in lower case.
pub fn modifier_from_name(name: &str) -> (r: Option<Modifier>)
    ensures
        r == modifier_of(name@),
{
    if str_eq(name, "cmd") || str_eq(name, "ctrl") || str_eq(name, "control") || str_eq(name, "meta") || str_eq(
        name,
        "cmdorctrl",
    ) {
        Some(Modifier::CtrlOrCmd)
    } else if str_eq(name, "alt") || str_eq(name, "option") {
        Some(Modifier::Alt)
    } else if str_eq(name, "shift") {
        Some(Modifier::Shift)
    } else {
        None
    }
}

/// `s` cut at every `+`: the pieces between the plus signs, in order; one
/// piece when there is none.
pub open spec fn split_plus(s: Seq<char>) -> Seq<Seq<char>>
    decreases s.len(),
{
    if s.len() == 0 {
        seq![Seq::empty()]
    } else if s.last() == '+' {
        split_plus(s.drop_last()).push(Seq::empty())
    } else {
        let head = split_plus(s.drop_last());
        head.update(head.len() - 1, head.last().push(s.last()))
    }
}

proof fn lemma_split_plus_nonempty(s: Seq<char>)
    ensures
        split_plus(s).len() >= 1,
    decreases s.len(),
{
    if s.len() > 0 {
        lemma_split_plus_nonempty(s.drop_last());
    }
}

/// The pieces of `s` between its plus signs, as [`split_plus`] gives them.
pub fn split_on_plus(s: &str) -> (r: Vec<String>)
    ensures
        r@.len() == split_plus(s@).len(),
        forall|i: int| 0 <= i < r@.len() ==> (#[trigger] r@[i])@ == split_plus(s@)[i],
{
    proof {
        reveal_strlit("");
    }
    let n = s.unicode_len();
    let mut parts: Vec<String> = Vec::new();
    let mut start: usize = 0;
    let mut i: usize = 0;
    while i < n
        invariant
            n == s@.len(),
            start <= i <= n,
            split_plus(s@.subrange(0, i as int)).len() == parts@.len() + 1,
            forall|k: int| 0 <= k < parts@.len() ==> (#[trigger] parts@[k])@ == split_plus(s@.subrange(0, i as int))[k],
            split_plus(s@.subrange(0, i as int)).last() == s@.subrange(start as int, i as int),
        decreases n - i,
    {
        let ghost before = s@.subrange(0, i as int);
        let ghost after = s@.subrange(0, i + 1);
        assert(after.drop_last() =~= before);
        proof {
            lemma_split_plus_nonempty(before);
        }
        if s.get_char(i) == '+' {
            parts.push(String::from_str(s.substring_char(start, i)));
            start = i + 1;
            assert(s@.subrange(start as int, i + 1) =~= Seq::<char>::empty());
        } else {
            assert(s@.subrange(start as int, i + 1) =~= s@.subrange(start as int, i as int).push(s@[i as int]));
        }
        i = i + 1;
    }
    parts.push(String::from_str(s.substring_char(start, n)));
    assert(s@.subrange(0, n as int) =~= s@);
    parts
}

/// What the pieces of a shortcut amount to: the modifiers named among them,
/// and the last piece that names no modifier (empty when every piece does).
/// Pieces are compared in lower case.
pub open spec fn scan(parts: Seq<Seq<char>>) -> (bool, bool, bool, Seq<char>)
    decreases parts.len(),
{
    if parts.len() == 0 {
        (false, false, false, Seq::empty())
    } else {
        let (c, a, sh, k) = scan(parts.drop_last());
        match modifier_of(lower_of(parts.last())) {
            Some(Modifier::CtrlOrCmd) => (true, a, sh, k),
            Some(Modifier::Alt) => (c, true, sh, k),
            Some(Modifier::Shift) => (c, a, true, k),
            None => (c, a, sh, parts.last()),
        }
    }
}

/// The shortcut that `text` writes, if its key is one a shortcut can name;
/// the key is compared in upper case.
pub open spec fn parsed(text: Seq<char>) -> Option<ParsedShortcut> {
    let (c, a, sh, k) = scan(split_plus(text));
    match key_of(upper_of(k)) {
        Some(key) => Some(ParsedShortcut { ctrl_or_cmd: c, alt: a, shift: sh, key }),
        None => None,
    }
}

/// Parses a shortcut such as `Cmd+N` or `Ctrl+Shift+S` for matching key
/// presses: modifier names in any case, then a key name in any case.
pub fn parse_shortcut_for_matching(shortcut: &str) -> (r: Option<ParsedShortcut>)
    ensures
        r == parsed(shortcut@),
{
    proof {
        reveal_strlit("");
    }
    let parts = split_on_plus(shortcut);
    let ghost ps = split_plus(shortcut@);
    let mut ctrl_or_cmd = false;
    let mut alt = false;
    let mut shift = false;
    let mut key_index: Option<usize> = None;
    let mut i: usize = 0;
    while i < parts.len()
        invariant
            i <= parts@.len(),
            parts@.len() == ps.len(),
            forall|k: int| 0 <= k < parts@.len() ==> (#[trigger] parts@[k])@ == ps[k],
            scan(ps.subrange(0, i as int)) == (ctrl_or_cmd, alt, shift, match key_index {
                Some(k) => ps[k as int],
                None => Seq::<char>::empty(),
            }),
            match key_index {
                Some(k) => k < i,
                None => true,
            },
        decreases parts@.len() - i,
    {
        assert(ps.subrange(0, i + 1).drop_last() =~= ps.subrange(0, i as int));
        assert(ps.subrange(0, i + 1).last() == ps[i as int]);
        let lower = lowercase(parts[i].as_str());
        match modifier_from_name(lower.as_str()) {
            Some(Modifier::CtrlOrCmd) => {
                ctrl_or_cmd = true;
            },
            Some(Modifier::Alt) => {
                alt = true;
            },
            Some(Modifier::Shift) => {
                shift = true;
            },
            None => {
                key_index = Some(i);
            },
        }
        i = i + 1;
    }
    assert(ps.subrange(0, ps.len() as int) =~= ps);
    let upper = match key_index {
        Some(k) => uppercase(parts[k].as_str()),
        None => uppercase(""),
    };
    assert(""@ =~= Seq::<char>::empty());
    match key_from_name(upper.as_str()) {
        Some(key) => Some(ParsedShortcut { ctrl_or_cmd, alt, shift, key }),
        None => None,
    }
}

/// Shortcuts paired with what each one triggers, in the order they were
/// added.
pub struct ShortcutTable<I> {
    shortcuts: Vec<(ParsedShortcut, I)>,
}

/// Whether `s` is pressed by the given modifier state and key: Control and
/// Command both count for `ctrl_or_cmd`.
pub open spec fn pressed(s: ParsedShortcut, ctrl: bool, meta: bool, alt: bool, shift: bool, key: KeyCode) -> bool {
    s.ctrl_or_cmd == (ctrl || meta) && s.alt == alt && s.shift == shift && s.key == key
}

impl<I> ShortcutTable<I> {
    /// The entries, in the order they were added.
    pub closed spec fn entries(&self) -> Seq<(ParsedShortcut, I)> {
        self.shortcuts@
    }

    /// An empty table.
    pub fn new() -> (r: Self)
        ensures
            r.entries() == Seq::<(ParsedShortcut, I)>::empty(),
    {
        ShortcutTable { shortcuts: Vec::new() }
    }

    /// Adds `shortcut`, triggering `target`.
    pub fn add(&mut self, shortcut: ParsedShortcut, target: I)
        ensures
            final(self).entries() == old(self).entries().push((shortcut, target)),
    {
        self.shortcuts.push((shortcut, target));
    }

    /// What the first shortcut pressed by this key press triggers, if any.
    pub fn match_shortcut(&self, ctrl: bool, meta: bool, alt: bool, shift: bool, key: KeyCode) -> (r: Option<&I>)
        ensures
            match r {
                Some(t) => exists|k: int|
                    0 <= k < self.entries().len() && pressed(self.entries()[k].0, ctrl, meta, alt, shift, key)
                        && self.entries()[k].1 == *t && forall|j: int| 0 <= j < k ==> !pressed(
                        #[trigger] self.entries()[j].0,
                        ctrl,
                        meta,
                        alt,
                        shift,
                        key,
                    ),
                None => forall|j: int| 0 <= j < self.entries().len() ==> !pressed(#[trigger] self.entries()[j].0, ctrl, meta, alt, shift, key),
            },
    {
        let ctrl_or_cmd = ctrl || meta;
        let mut i: usize = 0;
        while i < self.shortcuts.len()
            invariant
                i <= self.shortcuts@.len(),
                ctrl_or_cmd == (ctrl || meta),
                forall|j: int| 0 <= j < i ==> !pressed(#[trigger] self.entries()[j].0, ctrl, meta, alt, shift, key),
            decreases self.shortcuts@.len() - i,
        {
            let s = &self.shortcuts[i].0;
            if s.ctrl_or_cmd == ctrl_or_cmd && s.alt == alt && s.shift == shift && s.key == key {
                assert(pressed(self.entries()[i as int].0, ctrl, meta, alt, shift, key));
                assert(self.entries()[i as int].1 == self.shortcuts@[i as int].1);
                return Some(&self.shortcuts[i].1);
            }
            i = i + 1;
        }
        None
    }
}

} // verus!
