//! Key bindings: the key codes the front end reacts to, parsing of the
//! human-readable binding strings of the configuration file, matching of key
//! presses, and the configurable key map with its defaults.

use vstd::prelude::*;
use crate::text::{all_ascii, ascii_lower, ascii_lower_char, chars_of, concat, lowercase, string_from_chars, to_lowercase};
use crate::workspace::chars_equal;

verus! {

broadcast use vstd::string::group_string_axioms;

/// The Shift modifier bit.
pub const SHIFT: u8 = 0b0000_0001;
/// The Control modifier bit.
pub const CONTROL: u8 = 0b0000_0010;
/// The Alt modifier bit.
pub const ALT: u8 = 0b0000_0100;
/// No modifier.
pub const NO_MODIFIERS: u8 = 0;

/// A key on the keyboard. Keys the front end never binds (Caps Lock, media
/// keys, …) are all `Other`.
#[derive(Debug, Clone, Copy, PartialEq, Eq, Structural)]
pub enum KeyCode {
    Backspace,
    Enter,
    Left,
    Right,
    Up,
    Down,
    Home,
    End,
    PageUp,
    PageDown,
    Tab,
    BackTab,
    Delete,
    Insert,
    F(u8),
    Char(char),
    Null,
    Esc,
    Other,
}

/// A key press: the key and the modifier bits held with it (`SHIFT`,
/// `CONTROL`, `ALT`, and higher bits for other modifiers).
#[derive(Debug, Clone, Copy, PartialEq, Eq, Structural)]
pub struct KeyEvent {
    pub code: KeyCode,
    pub modifiers: u8,
}

/// A single key binding: a key code plus optional modifiers.
#[derive(Debug, Clone, Copy, PartialEq, Eq, Structural)]
pub struct KeyBind {
    pub code: KeyCode,
    pub modifiers: u8,
}

/// Whether a key press triggers a binding. For character keys Shift is already
/// part of the character, so only Control and Alt are compared; other keys
/// compare all modifiers.
pub open spec fn binding_matches(b: KeyBind, k: KeyEvent) -> bool {
    &&& k.code == b.code
    &&& if b.code is Char {
        (k.modifiers & 6u8) == (b.modifiers & 6u8)
    } else {
        k.modifiers == b.modifiers
    }
}

impl KeyBind {
    /// A binding for a character key without modifiers.
    pub fn char(c: char) -> (res: Self)
        ensures
            res == (KeyBind { code: KeyCode::Char(c), modifiers: 0 }),
    {
        KeyBind { code: KeyCode::Char(c), modifiers: NO_MODIFIERS }
    }

    /// A binding for a key without modifiers.
    pub fn code(code: KeyCode) -> (res: Self)
        ensures
            res == (KeyBind { code: code, modifiers: 0 }),
    {
        KeyBind { code, modifiers: NO_MODIFIERS }
    }

    /// Returns true when `key` matches this binding.
    /// For Char keys, shift is already encoded in the character itself,
    /// so only ctrl/alt modifiers are checked.
    pub fn matches(&self, key: &KeyEvent) -> (res: bool)
        ensures
            res == binding_matches(*self, *key),
    {
        if key.code != self.code {
            return false;
        }
        assert(CONTROL | ALT == 6u8) by (bit_vector);
        match self.code {
            KeyCode::Char(_) => (key.modifiers & (CONTROL | ALT)) == (self.modifiers & (CONTROL | ALT)),
            _ => key.modifiers == self.modifiers,
        }
    }

    /// Parse a human-readable key string such as `"q"`, `"K"`, `"ctrl+c"`, `"enter"`.
    pub fn parse(s: &str) -> (res: Result<Self, String>)
        ensures
            match (res, parse_result(s@)) {
                (Ok(b), Ok(c)) => b == c,
                (Err(e), Err(m)) => e@ == m,
                _ => false,
            },
            all_ascii(s@) ==> parse_result(s@) == parse_ascii(s@),
    {
        let cs = chars_of(s);
        let parts = split_plus(&cs);
        let ghost ps = split_on_plus(s@);
        proof {
            lemma_split_nonempty(s@);
            lemma_split_ascii(s@);
        }
        let last = parts.len() - 1;
        let mut modifiers: u8 = 0;
        let mut i: usize = 0;
        while i < last
            invariant
                0 <= i <= last,
                last + 1 == parts@.len(),
                ps == split_on_plus(s@),
                parts@.map_values(|p: Vec<char>| p@) == ps,
                all_ascii(s@) ==> forall|j: int| 0 <= j < ps.len() ==> all_ascii(#[trigger] ps[j]),
                mods_by(ps.take(i as int), false) == Ok::<u8, Seq<char>>(modifiers),
                all_ascii(s@) ==> mods_by(ps.take(i as int), true) == Ok::<u8, Seq<char>>(modifiers),
            decreases last - i,
        {
            assert(ps.take(i + 1).drop_last() =~= ps.take(i as int));
            assert(ps.take(i + 1).last() == parts@[i as int]@);
            let part = string_from_chars(&parts[i], 0, parts[i].len());
            assert(parts@[i as int]@.subrange(0, parts@[i as int]@.len() as int) =~= parts@[i as int]@);
            assert(part@ == ps[i as int]);
            let lower = to_lowercase(part.as_str());
            match modifier_bit(lower.as_str()) {
                Some(b) => {
                    modifiers = modifiers | b;
                },
                None => {
                    proof {
                        assert(mods_by(ps.take(i + 1), false) is Err);
                        assert(ps.drop_last().take(i + 1) =~= ps.take(i + 1));
                        lemma_mods_err_extends(ps.drop_last(), (i + 1) as int, false);
                        if all_ascii(s@) {
                            assert(mods_by(ps.take(i + 1), true) is Err);
                            lemma_mods_err_extends(ps.drop_last(), (i + 1) as int, true);
                        }
                    }
                    return Err(concat("unknown modifier: ", lower.as_str()));
                },
            }
            i += 1;
        }
        assert(ps.take(last as int) =~= ps.drop_last());
        assert(ps.last() == parts@[last as int]@);
        let key = &parts[last];
        let code = if key.len() == 1 {
            KeyCode::Char(key[0])
        } else {
            let ks = string_from_chars(key, 0, key.len());
            assert(key@.subrange(0, key@.len() as int) =~= key@);
            let lower = to_lowercase(ks.as_str());
            match named_key(lower.as_str()) {
                Some(c) => c,
                None => {
                    return Err(concat("unknown key: ", lower.as_str()));
                },
            }
        };
        Ok(KeyBind { code, modifiers })
    }
}

impl Default for KeyBind {
    fn default() -> (res: Self)
        ensures
            res == (KeyBind { code: KeyCode::Char('\0'), modifiers: 0 }),
    {
        Self::char('\0')
    }
}

// ── Parsing ───────────────────────────────────────────────────

/// `s.split('+')`: the pieces between plus signs (one empty piece for an empty string).
pub open spec fn split_on_plus(s: Seq<char>) -> Seq<Seq<char>>
    decreases s.len(),
{
    if s.len() == 0 {
        seq![Seq::empty()]
    } else {
        let init = split_on_plus(s.drop_last());
        if s.last() == '+' {
            init.push(Seq::empty())
        } else {
            init.update(init.len() - 1, init.last().push(s.last()))
        }
    }
}

pub proof fn lemma_split_nonempty(s: Seq<char>)
    ensures
        split_on_plus(s).len() >= 1,
    decreases s.len(),
{
    if s.len() > 0 {
        lemma_split_nonempty(s.drop_last());
    }
}

/// The pieces of an ASCII string are ASCII.
pub proof fn lemma_split_ascii(s: Seq<char>)
    ensures
        all_ascii(s) ==> forall|j: int| 0 <= j < split_on_plus(s).len() ==> all_ascii(#[trigger] split_on_plus(s)[j]),
    decreases s.len(),
{
    if s.len() > 0 && all_ascii(s) {
        let init = split_on_plus(s.drop_last());
        assert(all_ascii(s.drop_last())) by {
            assert forall|i: int| 0 <= i < s.drop_last().len() implies (s.drop_last()[i] as u32) < 128 by {
                assert(s.drop_last()[i] == s[i]);
            }
        }
        lemma_split_ascii(s.drop_last());
        lemma_split_nonempty(s.drop_last());
        if s.last() != '+' {
            let p = init.last().push(s.last());
            assert(all_ascii(init[init.len() - 1]));
            assert(all_ascii(p)) by {
                assert forall|i: int| 0 <= i < p.len() implies (p[i] as u32) < 128 by {
                    if i < p.len() - 1 {
                        assert(p[i] == init.last()[i]);
                    } else {
                        assert(p[i] == s[s.len() - 1]);
                    }
                }
            }
        }
        assert forall|j: int| 0 <= j < split_on_plus(s).len() implies all_ascii(#[trigger] split_on_plus(s)[j]) by {
            if j < init.len() && !(s.last() != '+' && j == init.len() - 1) {
                assert(split_on_plus(s)[j] == init[j]);
            }
        }
    }
}

/// The modifier bit a (lowercased) modifier name stands for.
pub open spec fn modifier_of(l: Seq<char>) -> Option<u8> {
    if l == "ctrl"@ {
        Some(2u8)
    } else if l == "alt"@ {
        Some(4u8)
    } else if l == "shift"@ {
        Some(1u8)
    } else {
        None
    }
}

/// A name lowered before it is compared: by `str::to_lowercase`, or, when the
/// name is known to be ASCII (`ascii`), letter by letter.
pub open spec fn lowered(p: Seq<char>, ascii: bool) -> Seq<char> {
    if ascii {
        ascii_lower(p)
    } else {
        lowercase(p)
    }
}

/// The modifier bits the pieces before the key name stand for, or the error
/// for the first piece that names no modifier.
pub open spec fn mods_by(parts: Seq<Seq<char>>, ascii: bool) -> Result<u8, Seq<char>>
    decreases parts.len(),
{
    if parts.len() == 0 {
        Ok(0u8)
    } else {
        match mods_by(parts.drop_last(), ascii) {
            Err(e) => Err(e),
            Ok(m) => match modifier_of(lowered(parts.last(), ascii)) {
                Some(b) => Ok(m | b),
                None => Err("unknown modifier: "@ + lowered(parts.last(), ascii)),
            },
        }
    }
}

/// The key a (lowercased) key name of more than one character stands for.
pub open spec fn key_named(l: Seq<char>) -> Option<KeyCode> {
    if l == "enter"@ {
        Some(KeyCode::Enter)
    } else if l == "esc"@ {
        Some(KeyCode::Esc)
    } else if l == "backspace"@ {
        Some(KeyCode::Backspace)
    } else if l == "delete"@ {
        Some(KeyCode::Delete)
    } else if l == "up"@ {
        Some(KeyCode::Up)
    } else if l == "down"@ {
        Some(KeyCode::Down)
    } else if l == "left"@ {
        Some(KeyCode::Left)
    } else if l == "right"@ {
        Some(KeyCode::Right)
    } else if l == "tab"@ {
        Some(KeyCode::Tab)
    } else if l == "space"@ {
        Some(KeyCode::Char(' '))
    } else if l == "f1"@ {
        Some(KeyCode::F(1))
    } else if l == "f2"@ {
        Some(KeyCode::F(2))
    } else if l == "f3"@ {
        Some(KeyCode::F(3))
    } else if l == "f4"@ {
        Some(KeyCode::F(4))
    } else if l == "f5"@ {
        Some(KeyCode::F(5))
    } else if l == "f6"@ {
        Some(KeyCode::F(6))
    } else if l == "f7"@ {
        Some(KeyCode::F(7))
    } else if l == "f8"@ {
        Some(KeyCode::F(8))
    } else if l == "f9"@ {
        Some(KeyCode::F(9))
    } else if l == "f10"@ {
        Some(KeyCode::F(10))
    } else if l == "f11"@ {
        Some(KeyCode::F(11))
    } else if l == "f12"@ {
        Some(KeyCode::F(12))
    } else {
        None
    }
}

/// A binding string read with names lowered as `lowered` says: `+`-separated
/// modifier names followed by a key, which is either a single character, kept
/// as written, or a key name.
pub open spec fn parse_by(s: Seq<char>, ascii: bool) -> Result<KeyBind, Seq<char>> {
    let parts = split_on_plus(s);
    let key = parts.last();
    match mods_by(parts.drop_last(), ascii) {
        Err(e) => Err(e),
        Ok(m) => if key.len() == 1 {
            Ok(KeyBind { code: KeyCode::Char(key[0]), modifiers: m })
        } else {
            match key_named(lowered(key, ascii)) {
                Some(c) => Ok(KeyBind { code: c, modifiers: m }),
                None => Err("unknown key: "@ + lowered(key, ascii)),
            }
        },
    }
}

/// What a binding string means: `+`-separated modifier names (matched without
/// regard to case) followed by a key, which is either a single character, kept
/// as written, or a key name matched without regard to case.
pub open spec fn parse_result(s: Seq<char>) -> Result<KeyBind, Seq<char>> {
    parse_by(s, false)
}

/// What a binding string of ASCII characters means; names are lowered letter by letter.
pub open spec fn parse_ascii(s: Seq<char>) -> Result<KeyBind, Seq<char>> {
    parse_by(s, true)
}

/// Once a prefix of the modifier pieces fails, the whole list fails the same way.
pub proof fn lemma_mods_err_extends(parts: Seq<Seq<char>>, k: int, ascii: bool)
    requires
        0 <= k <= parts.len(),
        mods_by(parts.take(k), ascii) is Err,
    ensures
        mods_by(parts, ascii) == mods_by(parts.take(k), ascii),
    decreases parts.len() - k,
{
    if k == parts.len() {
        assert(parts.take(k) =~= parts);
    } else {
        assert(parts.drop_last().take(k) =~= parts.take(k));
        lemma_mods_err_extends(parts.drop_last(), k, ascii);
    }
}

fn split_plus(cs: &Vec<char>) -> (res: Vec<Vec<char>>)
    ensures
        res@.map_values(|p: Vec<char>| p@) == split_on_plus(cs@),
{
    let mut parts: Vec<Vec<char>> = Vec::new();
    let mut cur: Vec<char> = Vec::new();
    let mut i: usize = 0;
    assert(cs@.take(0) =~= Seq::<char>::empty());
    while i < cs.len()
        invariant
            0 <= i <= cs@.len(),
            parts@.map_values(|p: Vec<char>| p@).push(cur@) == split_on_plus(cs@.take(i as int)),
        decreases cs.len() - i,
    {
        assert(cs@.take(i + 1).drop_last() =~= cs@.take(i as int));
        assert(cs@.take(i + 1).last() == cs@[i as int]);
        let ghost before = parts@.map_values(|p: Vec<char>| p@);
        let ghost cur_before = cur@;
        if cs[i] == '+' {
            let done = cur;
            cur = Vec::new();
            parts.push(done);
            assert(parts@.map_values(|p: Vec<char>| p@) =~= before.push(cur_before));
        } else {
            cur.push(cs[i]);
            assert(before.push(cur_before).update(before.len() as int, cur_before.push(cs@[i as int])) =~= before.push(cur@));
        }
        i += 1;
    }
    assert(cs@.take(cs@.len() as int) =~= cs@);
    let ghost before = parts@.map_values(|p: Vec<char>| p@);
    parts.push(cur);
    assert(parts@.map_values(|p: Vec<char>| p@) =~= before.push(cur@));
    parts
}

fn eq_str(a: &Vec<char>, b: &str) -> (res: bool)
    ensures
        res == (a@ == b@),
{
    chars_equal(a, &chars_of(b))
}

/// The modifier bit a lowercased modifier name stands for: `ctrl`, `alt` or `shift`.
pub fn modifier_bit(name: &str) -> (res: Option<u8>)
    ensures
        res == modifier_of(name@),
{
    let l = &chars_of(name);
    if eq_str(l, "ctrl") {
        Some(CONTROL)
    } else if eq_str(l, "alt") {
        Some(ALT)
    } else if eq_str(l, "shift") {
        Some(SHIFT)
    } else {
        None
    }
}

/// The key a lowercased key name of more than one character stands for:
/// `enter`, `esc`, `backspace`, `delete`, the arrows, `tab`, `space`, `f1`–`f12`.
pub fn named_key(name: &str) -> (res: Option<KeyCode>)
    ensures
        res == key_named(name@),
{
    let l = &chars_of(name);
    if eq_str(l, "enter") {
        Some(KeyCode::Enter)
    } else if eq_str(l, "esc") {
        Some(KeyCode::Esc)
    } else if eq_str(l, "backspace") {
        Some(KeyCode::Backspace)
    } else if eq_str(l, "delete") {
        Some(KeyCode::Delete)
    } else if eq_str(l, "up") {
        Some(KeyCode::Up)
    } else if eq_str(l, "down") {
        Some(KeyCode::Down)
    } else if eq_str(l, "left") {
        Some(KeyCode::Left)
    } else if eq_str(l, "right") {
        Some(KeyCode::Right)
    } else if eq_str(l, "tab") {
        Some(KeyCode::Tab)
    } else if eq_str(l, "space") {
        Some(KeyCode::Char(' '))
    } else if eq_str(l, "f1") {
        Some(KeyCode::F(1))
    } else if eq_str(l, "f2") {
        Some(KeyCode::F(2))
    } else if eq_str(l, "f3") {
        Some(KeyCode::F(3))
    } else if eq_str(l, "f4") {
        Some(KeyCode::F(4))
    } else if eq_str(l, "f5") {
        Some(KeyCode::F(5))
    } else if eq_str(l, "f6") {
        Some(KeyCode::F(6))
    } else if eq_str(l, "f7") {
        Some(KeyCode::F(7))
    } else if eq_str(l, "f8") {
        Some(KeyCode::F(8))
    } else if eq_str(l, "f9") {
        Some(KeyCode::F(9))
    } else if eq_str(l, "f10") {
        Some(KeyCode::F(10))
    } else if eq_str(l, "f11") {
        Some(KeyCode::F(11))
    } else if eq_str(l, "f12") {
        Some(KeyCode::F(12))
    } else {
        None
    }
}

// ── KeyConfig ─────────────────────────────────────────────────

/// All configurable key bindings.
/// Arrow keys (Up/Down/Left/Right) always work in addition to the configured keys.
#[derive(Debug, Clone, Copy, PartialEq, Eq, Structural)]
pub struct KeyConfig {
    /// Quit the application
    pub quit: KeyBind,
    /// Switch to the Build/Run tab
    pub tab_1: KeyBind,
    /// Switch to the Crate tab
    pub tab_2: KeyBind,
    /// Switch to the Test tab
    pub tab_3: KeyBind,
    /// Cycle to the next tab
    pub tab_next: KeyBind,
    /// Cycle to the previous tab
    pub tab_prev: KeyBind,
    /// Move selection down
    pub down: KeyBind,
    /// Move selection up
    pub up: KeyBind,
    /// Focus the Output/Description pane; while focused, scroll right
    pub focus_right: KeyBind,
    /// Scroll left; at the left edge, return focus to the list
    pub focus_left: KeyBind,
    /// Run the selected command / add the selected crate
    pub run: KeyBind,
    /// Re-run the last command
    pub rerun: KeyBind,
    /// Kill the running process
    pub kill: KeyBind,
    /// Open inline search (Crate tab)
    pub pkg_search: KeyBind,
    /// Remove the selected installed crate (Crate tab)
    pub pkg_remove: KeyBind,
    /// Toggle between Installed / Search sections (Crate tab)
    pub pkg_toggle: KeyBind,
    /// Cycle the target section for adding (Crate tab)
    pub pkg_profile: KeyBind,
}

/// The bindings used where the configuration file sets none.
pub open spec fn default_keys() -> KeyConfig {
    KeyConfig {
        quit: KeyBind { code: KeyCode::Char('q'), modifiers: 0 },
        tab_1: KeyBind { code: KeyCode::Char('1'), modifiers: 0 },
        tab_2: KeyBind { code: KeyCode::Char('2'), modifiers: 0 },
        tab_3: KeyBind { code: KeyCode::Char('3'), modifiers: 0 },
        tab_next: KeyBind { code: KeyCode::Char(']'), modifiers: 0 },
        tab_prev: KeyBind { code: KeyCode::Char('['), modifiers: 0 },
        down: KeyBind { code: KeyCode::Char('j'), modifiers: 0 },
        up: KeyBind { code: KeyCode::Char('k'), modifiers: 0 },
        focus_right: KeyBind { code: KeyCode::Char('l'), modifiers: 0 },
        focus_left: KeyBind { code: KeyCode::Char('h'), modifiers: 0 },
        run: KeyBind { code: KeyCode::Enter, modifiers: 0 },
        rerun: KeyBind { code: KeyCode::Char('r'), modifiers: 0 },
        kill: KeyBind { code: KeyCode::Char('K'), modifiers: 0 },
        pkg_search: KeyBind { code: KeyCode::Char('s'), modifiers: 0 },
        pkg_remove: KeyBind { code: KeyCode::Char('d'), modifiers: 0 },
        pkg_toggle: KeyBind { code: KeyCode::Tab, modifiers: 0 },
        pkg_profile: KeyBind { code: KeyCode::Char('p'), modifiers: 0 },
    }
}

impl Default for KeyConfig {
    fn default() -> (res: Self)
        ensures
            res == default_keys(),
    {
        KeyConfig {
            quit: KeyBind::char('q'),
            tab_1: KeyBind::char('1'),
            tab_2: KeyBind::char('2'),
            tab_3: KeyBind::char('3'),
            tab_next: KeyBind::char(']'),
            tab_prev: KeyBind::char('['),
            down: KeyBind::char('j'),
            up: KeyBind::char('k'),
            focus_right: KeyBind::char('l'),
            focus_left: KeyBind::char('h'),
            run: KeyBind::code(KeyCode::Enter),
            rerun: KeyBind::char('r'),
            kill: KeyBind::char('K'),
            pkg_search: KeyBind::char('s'),
            pkg_remove: KeyBind::char('d'),
            pkg_toggle: KeyBind::code(KeyCode::Tab),
            pkg_profile: KeyBind::char('p'),
        }
    }
}

/// The position of a setting among the configurable bindings, by its name in
/// the `[keys]` table of the configuration file.
pub open spec fn field_index(n: Seq<char>) -> Option<int> {
    if n == "quit"@ {
        Some(0)
    } else if n == "tab_1"@ {
        Some(1)
    } else if n == "tab_2"@ {
        Some(2)
    } else if n == "tab_3"@ {
        Some(3)
    } else if n == "tab_next"@ {
        Some(4)
    } else if n == "tab_prev"@ {
        Some(5)
    } else if n == "down"@ {
        Some(6)
    } else if n == "up"@ {
        Some(7)
    } else if n == "focus_right"@ {
        Some(8)
    } else if n == "focus_left"@ {
        Some(9)
    } else if n == "run"@ {
        Some(10)
    } else if n == "rerun"@ {
        Some(11)
    } else if n == "kill"@ {
        Some(12)
    } else if n == "pkg_search"@ {
        Some(13)
    } else if n == "pkg_remove"@ {
        Some(14)
    } else if n == "pkg_toggle"@ {
        Some(15)
    } else if n == "pkg_profile"@ {
        Some(16)
    } else {
        None
    }
}

/// The key map with the binding at position `i` replaced.
pub open spec fn with_field(c: KeyConfig, i: int, b: KeyBind) -> KeyConfig {
    if i == 0 {
        KeyConfig { quit: b, ..c }
    } else if i == 1 {
        KeyConfig { tab_1: b, ..c }
    } else if i == 2 {
        KeyConfig { tab_2: b, ..c }
    } else if i == 3 {
        KeyConfig { tab_3: b, ..c }
    } else if i == 4 {
        KeyConfig { tab_next: b, ..c }
    } else if i == 5 {
        KeyConfig { tab_prev: b, ..c }
    } else if i == 6 {
        KeyConfig { down: b, ..c }
    } else if i == 7 {
        KeyConfig { up: b, ..c }
    } else if i == 8 {
        KeyConfig { focus_right: b, ..c }
    } else if i == 9 {
        KeyConfig { focus_left: b, ..c }
    } else if i == 10 {
        KeyConfig { run: b, ..c }
    } else if i == 11 {
        KeyConfig { rerun: b, ..c }
    } else if i == 12 {
        KeyConfig { kill: b, ..c }
    } else if i == 13 {
        KeyConfig { pkg_search: b, ..c }
    } else if i == 14 {
        KeyConfig { pkg_remove: b, ..c }
    } else if i == 15 {
        KeyConfig { pkg_toggle: b, ..c }
    } else if i == 16 {
        KeyConfig { pkg_profile: b, ..c }
    } else {
        c
    }
}

/// The bindings a `[keys]` table sets, applied over the defaults, and the
/// positions already set; `None` when the table is unusable: a setting that is
/// not a string, a string that does not parse, or a setting given twice.
/// Unknown names are ignored.
pub open spec fn entries_result(es: Seq<(String, Option<String>)>) -> Option<(KeyConfig, Set<int>)>
    decreases es.len(),
{
    if es.len() == 0 {
        Some((default_keys(), Set::empty()))
    } else {
        match entries_result(es.drop_last()) {
            None => None,
            Some((c, seen)) => {
                let e = es.last();
                match field_index(e.0@) {
                    None => Some((c, seen)),
                    Some(i) => if seen.contains(i) {
                        None
                    } else {
                        match e.1 {
                            None => None,
                            Some(v) => match parse_result(v@) {
                                Err(_) => None,
                                Ok(b) => Some((with_field(c, i, b), seen.insert(i))),
                            },
                        }
                    },
                }
            },
        }
    }
}

/// The key map a `[keys]` table describes, if it is usable.
pub open spec fn keys_from_entries(es: Seq<(String, Option<String>)>) -> Option<KeyConfig> {
    match entries_result(es) {
        Some((c, _)) => Some(c),
        None => None,
    }
}

fn setting_index(n: &Vec<char>) -> (res: Option<usize>)
    ensures
        match res {
            Some(i) => field_index(n@) == Some(i as int),
            None => field_index(n@) is None,
        },
{
    if eq_str(n, "quit") {
        Some(0)
    } else if eq_str(n, "tab_1") {
        Some(1)
    } else if eq_str(n, "tab_2") {
        Some(2)
    } else if eq_str(n, "tab_3") {
        Some(3)
    } else if eq_str(n, "tab_next") {
        Some(4)
    } else if eq_str(n, "tab_prev") {
        Some(5)
    } else if eq_str(n, "down") {
        Some(6)
    } else if eq_str(n, "up") {
        Some(7)
    } else if eq_str(n, "focus_right") {
        Some(8)
    } else if eq_str(n, "focus_left") {
        Some(9)
    } else if eq_str(n, "run") {
        Some(10)
    } else if eq_str(n, "rerun") {
        Some(11)
    } else if eq_str(n, "kill") {
        Some(12)
    } else if eq_str(n, "pkg_search") {
        Some(13)
    } else if eq_str(n, "pkg_remove") {
        Some(14)
    } else if eq_str(n, "pkg_toggle") {
        Some(15)
    } else if eq_str(n, "pkg_profile") {
        Some(16)
    } else {
        None
    }
}

fn set_field(c: &mut KeyConfig, i: usize, b: KeyBind)
    ensures
        *final(c) == with_field(*old(c), i as int, b),
{
    if i == 0 {
        c.quit = b;
    } else if i == 1 {
        c.tab_1 = b;
    } else if i == 2 {
        c.tab_2 = b;
    } else if i == 3 {
        c.tab_3 = b;
    } else if i == 4 {
        c.tab_next = b;
    } else if i == 5 {
        c.tab_prev = b;
    } else if i == 6 {
        c.down = b;
    } else if i == 7 {
        c.up = b;
    } else if i == 8 {
        c.focus_right = b;
    } else if i == 9 {
        c.focus_left = b;
    } else if i == 10 {
        c.run = b;
    } else if i == 11 {
        c.rerun = b;
    } else if i == 12 {
        c.kill = b;
    } else if i == 13 {
        c.pkg_search = b;
    } else if i == 14 {
        c.pkg_remove = b;
    } else if i == 15 {
        c.pkg_toggle = b;
    } else if i == 16 {
        c.pkg_profile = b;
    }
}

impl KeyConfig {
    /// The key map a `[keys]` table describes: each `(name, value)` entry, with
    /// `None` for a value that is not a string, sets the binding of that name;
    /// bindings not set keep their defaults; unknown names are ignored. The table
    /// is unusable, giving `None`, if a known setting is not a string, does not
    /// parse, or is given twice.
    pub fn from_entries(es: &Vec<(String, Option<String>)>) -> (res: Option<KeyConfig>)
        ensures
            res == keys_from_entries(es@),
    {
        let mut cfg = KeyConfig::default();
        let mut seen: Vec<bool> = Vec::new();
        let mut k: usize = 0;
        while k < 17
            invariant
                0 <= k <= 17,
                seen@.len() == k,
                forall|j: int| 0 <= j < k ==> !seen@[j],
            decreases 17 - k,
        {
            seen.push(false);
            k += 1;
        }
        let mut i: usize = 0;
        assert(es@.take(0) =~= Seq::<(String, Option<String>)>::empty());
        while i < es.len()
            invariant
                0 <= i <= es@.len(),
                seen@.len() == 17,
                entries_result(es@.take(i as int)) matches Some((c, set)) && c == cfg
                    && (forall|j: int| 0 <= j < 17 ==> (seen@[j] <==> set.contains(j))),
            decreases es.len() - i,
        {
            assert(es@.take(i + 1).drop_last() =~= es@.take(i as int));
            assert(es@.take(i + 1).last() == es@[i as int]);
            let name = chars_of(es[i].0.as_str());
            match setting_index(&name) {
                None => {},
                Some(idx) => {
                    if seen[idx] {
                        proof {
                            lemma_entries_none_extends(es@, i + 1);
                        }
                        return None;
                    }
                    match &es[i].1 {
                        None => {
                            proof {
                                lemma_entries_none_extends(es@, i + 1);
                            }
                            return None;
                        },
                        Some(v) => match KeyBind::parse(v.as_str()) {
                            Err(_) => {
                                proof {
                                    lemma_entries_none_extends(es@, i + 1);
                                }
                                return None;
                            },
                            Ok(b) => {
                                set_field(&mut cfg, idx, b);
                                seen.set(idx, true);
                            },
                        },
                    }
                },
            }
            i += 1;
        }
        assert(es@.take(es@.len() as int) =~= es@);
        Some(cfg)
    }
}

/// Once a prefix of the entries makes the table unusable, the whole table is.
pub proof fn lemma_entries_none_extends(es: Seq<(String, Option<String>)>, k: int)
    requires
        0 <= k <= es.len(),
        entries_result(es.take(k)) is None,
    ensures
        entries_result(es) is None,
    decreases es.len() - k,
{
    if k == es.len() {
        assert(es.take(k) =~= es);
    } else {
        assert(es.drop_last().take(k) =~= es.take(k));
        lemma_entries_none_extends(es.drop_last(), k);
    }
}

// ── Config ────────────────────────────────────────────────────

/// The configuration file's contents.
#[derive(Debug, Clone, Copy, PartialEq, Eq, Structural)]
pub struct Config {
    pub keys: KeyConfig,
}

impl Default for Config {
    fn default() -> (res: Self)
        ensures
            res.keys == default_keys(),
    {
        Config { keys: KeyConfig::default() }
    }
}

impl Config {
    /// The configuration a file's `[keys]` table gives; an unusable table gives
    /// the defaults for every binding, as a missing or unreadable file does.
    pub fn from_key_entries(es: &Vec<(String, Option<String>)>) -> (res: Config)
        ensures
            res.keys == match keys_from_entries(es@) {
                Some(c) => c,
                None => default_keys(),
            },
    {
        match KeyConfig::from_entries(es) {
            Some(keys) => Config { keys },
            None => Config::default(),
        }
    }
}

/// What the configuration file offers for the key map: no usable document (the
/// file is missing, unreadable or not TOML), a document without a `keys` entry,
/// a `keys` entry that is not a table, or the `keys` table's entries (`None`
/// for a value that is not a string).
pub enum KeysTable {
    NoDocument,
    Missing,
    NotATable,
    Table(Vec<(String, Option<String>)>),
}

impl Config {
    /// The configuration the file gives: the key map of its `[keys]` table, or
    /// the defaults for every binding when there is no usable table.
    pub fn from_keys_table(t: &KeysTable) -> (res: Config)
        ensures
            res.keys == match t {
                KeysTable::Table(es) => match keys_from_entries(es@) {
                    Some(c) => c,
                    None => default_keys(),
                },
                _ => default_keys(),
            },
    {
        match t {
            KeysTable::Table(es) => Config::from_key_entries(es),
            _ => Config::default(),
        }
    }
}

// ── The configuration file ───────────────────────────────────

/// A TOML value as the library reads it: strings and tables with their
/// contents, the other kinds of value by kind (integers with their value).
pub enum TomlValue {
    Str(String),
    Integer(i64),
    Float,
    Boolean(bool),
    Datetime,
    Array(Vec<TomlValue>),
    Table(Vec<(String, TomlValue)>),
}

/// A TOML value as the `toml` crate parses it; the library reads it only as a `TomlValue`.
#[verifier::external_type_specification]
#[verifier::external_body]
pub struct ExTomlValue(toml::Value);

/// What `toml::from_str::<toml::Table>` makes of this text, its entries taken
/// one for one as `TomlValue`s; `None` where the text is not a TOML document.
pub uninterp spec fn toml_of(text: Seq<char>) -> Option<Vec<(String, TomlValue)>>;

/// `toml::Value` taken one for one as a `TomlValue`: each variant to the variant
/// of the same name (floats and datetimes by kind only), entries in the order
/// the parsed table lists them.
#[verifier::external_body]
fn toml_value(v: toml::Value) -> TomlValue {
    match v {
        toml::Value::String(s) => TomlValue::Str(s),
        toml::Value::Integer(i) => TomlValue::Integer(i),
        toml::Value::Float(_) => TomlValue::Float,
        toml::Value::Boolean(b) => TomlValue::Boolean(b),
        toml::Value::Datetime(_) => TomlValue::Datetime,
        toml::Value::Array(a) => TomlValue::Array(a.into_iter().map(toml_value).collect()),
        toml::Value::Table(t) => TomlValue::Table(t.into_iter().map(|(k, v)| (k, toml_value(v))).collect()),
    }
}

/// `toml::from_str::<toml::Table>`, its entries taken as `TomlValue`s (`None`
/// for a parse error). The result is named by `toml_of`: it depends on the text
/// alone; what the TOML grammar makes of it is not spelled out here.
#[verifier::external_body]
pub fn parse_toml(text: &str) -> (res: Option<Vec<(String, TomlValue)>>)
    ensures
        res == toml_of(text@),
{
    toml::from_str::<toml::Table>(text).ok().map(|t| t.into_iter().map(|(k, v)| (k, toml_value(v))).collect())
}

/// The value of the first entry named `key`.
pub open spec fn toml_lookup(es: Seq<(String, TomlValue)>, key: Seq<char>) -> Option<TomlValue>
    decreases es.len(),
{
    if es.len() == 0 {
        None
    } else if es[0].0@ == key {
        Some(es[0].1)
    } else {
        toml_lookup(es.drop_first(), key)
    }
}

/// The string a value holds, if it is one.
pub open spec fn string_value(v: TomlValue) -> Option<String> {
    match v {
        TomlValue::Str(s) => Some(s),
        _ => None,
    }
}

/// The entries of a table with their string values (`None` for other values).
pub open spec fn key_entries(t: Seq<(String, TomlValue)>) -> Seq<(String, Option<String>)> {
    t.map_values(|e: (String, TomlValue)| (e.0, string_value(e.1)))
}

/// The key map a configuration document gives: that of its `keys` table, or the
/// defaults when there is no document, no `keys` entry, a `keys` entry that is
/// not a table, or a table that is unusable.
pub open spec fn document_keys(doc: Option<Vec<(String, TomlValue)>>) -> KeyConfig {
    match doc {
        None => default_keys(),
        Some(d) => match toml_lookup(d@, "keys"@) {
            Some(TomlValue::Table(t)) => match keys_from_entries(key_entries(t@)) {
                Some(c) => c,
                None => default_keys(),
            },
            _ => default_keys(),
        },
    }
}

/// What a configuration document offers for the key map.
pub fn keys_table(doc: &Option<Vec<(String, TomlValue)>>) -> (res: KeysTable)
    ensures
        match (res, *doc) {
            (KeysTable::NoDocument, None) => true,
            (KeysTable::Missing, Some(d)) => toml_lookup(d@, "keys"@) is None,
            (KeysTable::NotATable, Some(d)) => toml_lookup(d@, "keys"@) matches Some(v) && !(v is Table),
            (KeysTable::Table(es), Some(d)) => toml_lookup(d@, "keys"@) matches Some(TomlValue::Table(t))
                && es@ == key_entries(t@),
            _ => false,
        },
{
    let d = match doc {
        None => {
            return KeysTable::NoDocument;
        },
        Some(d) => d,
    };
    let key = chars_of("keys");
    let mut i: usize = 0;
    assert(d@.skip(0) =~= d@);
    while i < d.len()
        invariant
            0 <= i <= d@.len(),
            key@ == "keys"@,
            *doc == Some(*d),
            toml_lookup(d@, "keys"@) == toml_lookup(d@.skip(i as int), "keys"@),
        decreases d.len() - i,
    {
        assert(d@.skip(i as int).drop_first() =~= d@.skip(i + 1));
        assert(d@.skip(i as int)[0] == d@[i as int]);
        if chars_equal(&chars_of(d[i].0.as_str()), &key) {
            return match &d[i].1 {
                TomlValue::Table(t) => {
                    let mut es: Vec<(String, Option<String>)> = Vec::new();
                    let mut j: usize = 0;
                    while j < t.len()
                        invariant
                            0 <= j <= t@.len(),
                            es@ == key_entries(t@).take(j as int),
                        decreases t.len() - j,
                    {
                        let v = match &t[j].1 {
                            TomlValue::Str(s) => Some(s.clone()),
                            _ => None,
                        };
                        es.push((t[j].0.clone(), v));
                        j += 1;
                        assert(es@ =~= key_entries(t@).take(j as int));
                    }
                    assert(key_entries(t@).take(t@.len() as int) =~= key_entries(t@));
                    KeysTable::Table(es)
                },
                _ => KeysTable::NotATable,
            };
        }
        i += 1;
    }
    assert(d@.skip(d@.len() as int) =~= Seq::<(String, TomlValue)>::empty());
    KeysTable::Missing
}

impl Config {
    /// The configuration a configuration file's text gives (`None` when the file
    /// is missing or unreadable): see `document_keys`.
    pub fn from_file_text(text: Option<&str>) -> (res: Config)
        ensures
            res.keys == document_keys(
                match text {
                    Some(t) => toml_of(t@),
                    None => None,
                },
            ),
    {
        let doc = match text {
            Some(t) => parse_toml(t),
            None => None,
        };
        let table = keys_table(&doc);
        Config::from_keys_table(&table)
    }
}

// ── Laws ──────────────────────────────────────────────────────

/// A binding string of one character other than `+` binds that character,
/// exactly as written (case is kept), without modifiers.
pub proof fn law_single_char_binds_itself(c: char)
    requires
        c != '+',
    ensures
        parse_result(seq![c]) == Ok::<KeyBind, Seq<char>>(KeyBind { code: KeyCode::Char(c), modifiers: 0 }),
{
    let s = seq![c];
    assert(s.drop_last() =~= Seq::<char>::empty());
    assert(split_on_plus(Seq::<char>::empty()) == seq![Seq::<char>::empty()]);
    let parts = split_on_plus(s);
    assert(parts =~= seq![seq![c]]);
    assert(parts.drop_last() =~= Seq::<Seq<char>>::empty());
}

/// A string without `+` is a single piece.
pub proof fn lemma_split_no_plus(s: Seq<char>)
    requires
        forall|i: int| 0 <= i < s.len() ==> s[i] != '+',
    ensures
        split_on_plus(s) == seq![s],
    decreases s.len(),
{
    if s.len() > 0 {
        let init = s.drop_last();
        lemma_split_no_plus(init);
        assert(s[s.len() - 1] != '+');
        assert(init.push(s.last()) =~= s);
        assert(seq![init].update(0, init.push(s.last())) =~= seq![s]);
    } else {
        assert(s =~= Seq::<char>::empty());
    }
}

/// A modifier name, in any case, followed by `+` and a character binds that
/// character with the modifier: `"ctrl+c"` and `"CTRL+c"` bind Ctrl+c.
pub proof fn law_modifier_then_char(m: Seq<char>, c: char)
    requires
        forall|i: int| 0 <= i < m.len() ==> m[i] != '+',
        c != '+',
        modifier_of(ascii_lower(m)) is Some,
    ensures
        parse_ascii(m + seq!['+', c]) == Ok::<KeyBind, Seq<char>>(
            KeyBind { code: KeyCode::Char(c), modifiers: modifier_of(ascii_lower(m)).unwrap() },
        ),
{
    let t = m + seq!['+', c];
    lemma_split_no_plus(m);
    assert(t.drop_last() =~= m.push('+'));
    assert(m.push('+').drop_last() =~= m);
    let parts = split_on_plus(t);
    assert(t.last() == c);
    assert(split_on_plus(m.push('+')) == seq![m].push(Seq::<char>::empty()));
    assert(split_on_plus(t.drop_last()) =~= seq![m, Seq::<char>::empty()]);
    assert(parts =~= seq![m, seq![c]]);
    assert(parts.drop_last() =~= seq![m]);
    assert(seq![m].drop_last() =~= Seq::<Seq<char>>::empty());
    let b = modifier_of(ascii_lower(m)).unwrap();
    assert(0u8 | b == b) by (bit_vector);
    assert(mods_by(Seq::<Seq<char>>::empty(), true) == Ok::<u8, Seq<char>>(0u8));
    assert(mods_by(seq![m], true) == Ok::<u8, Seq<char>>(b));
    assert(parts.last() == seq![c]);
}

/// The ASCII lowercase form of a character is its own lowercase form.
proof fn lemma_ascii_lower_char_idempotent(c: char)
    ensures
        ascii_lower_char(ascii_lower_char(c)) == ascii_lower_char(c),
        ascii_lower_char(c) == '+' <==> c == '+',
{
}

/// A key name of several characters means the same in any case: `"Enter"`,
/// `"ENTER"` and `"enter"` all bind Enter, and an unknown name is reported in
/// lowercase either way.
pub proof fn law_key_name_ignores_case(s: Seq<char>)
    requires
        forall|i: int| 0 <= i < s.len() ==> s[i] != '+',
        s.len() != 1,
    ensures
        parse_ascii(s) == parse_ascii(ascii_lower(s)),
{
    let l = ascii_lower(s);
    assert forall|i: int| 0 <= i < l.len() implies l[i] != '+' by {
        lemma_ascii_lower_char_idempotent(s[i]);
    }
    assert(ascii_lower(l) =~= l) by {
        assert forall|i: int| 0 <= i < l.len() implies ascii_lower(l)[i] == l[i] by {
            lemma_ascii_lower_char_idempotent(s[i]);
        }
    }
    lemma_split_no_plus(s);
    lemma_split_no_plus(l);
    assert(seq![s].drop_last() =~= Seq::<Seq<char>>::empty());
    assert(seq![l].drop_last() =~= Seq::<Seq<char>>::empty());
}

/// The name that stands for a key in a binding string, for the keys that have
/// one (empty for the others): `enter`, `esc`, `backspace`, `delete`, `up`,
/// `down`, `left`, `right`, `tab`, `space` for the space bar, and `f1`–`f12`.
pub open spec fn key_name_of(c: KeyCode) -> Seq<char> {
    match c {
        KeyCode::Enter => "enter"@,
        KeyCode::Esc => "esc"@,
        KeyCode::Backspace => "backspace"@,
        KeyCode::Delete => "delete"@,
        KeyCode::Up => "up"@,
        KeyCode::Down => "down"@,
        KeyCode::Left => "left"@,
        KeyCode::Right => "right"@,
        KeyCode::Tab => "tab"@,
        KeyCode::Char(ch) => if ch == ' ' { "space"@ } else { Seq::empty() },
        KeyCode::F(n) => if n == 1 {
            "f1"@
        } else if n == 2 {
            "f2"@
        } else if n == 3 {
            "f3"@
        } else if n == 4 {
            "f4"@
        } else if n == 5 {
            "f5"@
        } else if n == 6 {
            "f6"@
        } else if n == 7 {
            "f7"@
        } else if n == 8 {
            "f8"@
        } else if n == 9 {
            "f9"@
        } else if n == 10 {
            "f10"@
        } else if n == 11 {
            "f11"@
        } else if n == 12 {
            "f12"@
        } else {
            Seq::empty()
        },
        _ => Seq::empty(),
    }
}

/// A key name stands for the key it names and for no other: whatever key
/// `key_named` gives for a name, that name is the key's own name.
pub proof fn law_key_names_are_their_keys(l: Seq<char>)
    ensures
        key_named(l) matches Some(c) ==> l == key_name_of(c),
{
}

/// The name of every named key stands for that key.
proof fn lemma_key_name_round_trip(c: KeyCode)
    requires
        key_name_of(c).len() > 0,
    ensures
        key_named(key_name_of(c)) == Some(c),
        key_name_of(c).len() >= 2,
        forall|i: int| 0 <= i < key_name_of(c).len() ==> key_name_of(c)[i] != '+',
{
    reveal_strlit("enter");
    reveal_strlit("esc");
    reveal_strlit("backspace");
    reveal_strlit("delete");
    reveal_strlit("up");
    reveal_strlit("down");
    reveal_strlit("left");
    reveal_strlit("right");
    reveal_strlit("tab");
    reveal_strlit("space");
    reveal_strlit("f1");
    reveal_strlit("f2");
    reveal_strlit("f3");
    reveal_strlit("f4");
    reveal_strlit("f5");
    reveal_strlit("f6");
    reveal_strlit("f7");
    reveal_strlit("f8");
    reveal_strlit("f9");
    reveal_strlit("f10");
    reveal_strlit("f11");
    reveal_strlit("f12");
    match c {
        KeyCode::Enter => {

        },
        KeyCode::Esc => {
            assert("esc"@.len() != "enter"@.len());
        },
        KeyCode::Backspace => {
            assert("backspace"@.len() != "enter"@.len());
            assert("backspace"@.len() != "esc"@.len());
        },
        KeyCode::Delete => {
            assert("delete"@.len() != "enter"@.len());
            assert("delete"@.len() != "esc"@.len());
            assert("delete"@.len() != "backspace"@.len());
        },
        KeyCode::Up => {
            assert("up"@.len() != "enter"@.len());
            assert("up"@.len() != "esc"@.len());
            assert("up"@.len() != "backspace"@.len());
            assert("up"@.len() != "delete"@.len());
        },
        KeyCode::Down => {
            assert("down"@.len() != "enter"@.len());
            assert("down"@.len() != "esc"@.len());
            assert("down"@.len() != "backspace"@.len());
            assert("down"@.len() != "delete"@.len());
            assert("down"@.len() != "up"@.len());
        },
        KeyCode::Left => {
            assert("left"@.len() != "enter"@.len());
            assert("left"@.len() != "esc"@.len());
            assert("left"@.len() != "backspace"@.len());
            assert("left"@.len() != "delete"@.len());
            assert("left"@.len() != "up"@.len());
            assert("left"@[0] != "down"@[0]);
        },
        KeyCode::Right => {
            assert("right"@[0] != "enter"@[0]);
            assert("right"@.len() != "esc"@.len());
            assert("right"@.len() != "backspace"@.len());
            assert("right"@.len() != "delete"@.len());
            assert("right"@.len() != "up"@.len());
            assert("right"@.len() != "down"@.len());
            assert("right"@.len() != "left"@.len());
        },
        KeyCode::Tab => {
            assert("tab"@.len() != "enter"@.len());
            assert("tab"@[0] != "esc"@[0]);
            assert("tab"@.len() != "backspace"@.len());
            assert("tab"@.len() != "delete"@.len());
            assert("tab"@.len() != "up"@.len());
            assert("tab"@.len() != "down"@.len());
            assert("tab"@.len() != "left"@.len());
            assert("tab"@.len() != "right"@.len());
        },
        KeyCode::Char(_) => {
            assert("space"@[0] != "enter"@[0]);
            assert("space"@.len() != "esc"@.len());
            assert("space"@.len() != "backspace"@.len());
            assert("space"@.len() != "delete"@.len());
            assert("space"@.len() != "up"@.len());
            assert("space"@.len() != "down"@.len());
            assert("space"@.len() != "left"@.len());
            assert("space"@[0] != "right"@[0]);
            assert("space"@.len() != "tab"@.len());
        },
        KeyCode::F(n) => {
            if n == 1 {
                assert("f1"@.len() != "enter"@.len());
                assert("f1"@.len() != "esc"@.len());
                assert("f1"@.len() != "backspace"@.len());
                assert("f1"@.len() != "delete"@.len());
                assert("f1"@[0] != "up"@[0]);
                assert("f1"@.len() != "down"@.len());
                assert("f1"@.len() != "left"@.len());
                assert("f1"@.len() != "right"@.len());
                assert("f1"@.len() != "tab"@.len());
                assert("f1"@.len() != "space"@.len());
            } else if n == 2 {
                assert("f2"@.len() != "enter"@.len());
                assert("f2"@.len() != "esc"@.len());
                assert("f2"@.len() != "backspace"@.len());
                assert("f2"@.len() != "delete"@.len());
                assert("f2"@[0] != "up"@[0]);
                assert("f2"@.len() != "down"@.len());
                assert("f2"@.len() != "left"@.len());
                assert("f2"@.len() != "right"@.len());
                assert("f2"@.len() != "tab"@.len());
                assert("f2"@.len() != "space"@.len());
                assert("f2"@[1] != "f1"@[1]);
            } else if n == 3 {
                assert("f3"@.len() != "enter"@.len());
                assert("f3"@.len() != "esc"@.len());
                assert("f3"@.len() != "backspace"@.len());
                assert("f3"@.len() != "delete"@.len());
                assert("f3"@[0] != "up"@[0]);
                assert("f3"@.len() != "down"@.len());
                assert("f3"@.len() != "left"@.len());
                assert("f3"@.len() != "right"@.len());
                assert("f3"@.len() != "tab"@.len());
                assert("f3"@.len() != "space"@.len());
                assert("f3"@[1] != "f1"@[1]);
                assert("f3"@[1] != "f2"@[1]);
            } else if n == 4 {
                assert("f4"@.len() != "enter"@.len());
                assert("f4"@.len() != "esc"@.len());
                assert("f4"@.len() != "backspace"@.len());
                assert("f4"@.len() != "delete"@.len());
                assert("f4"@[0] != "up"@[0]);
                assert("f4"@.len() != "down"@.len());
                assert("f4"@.len() != "left"@.len());
                assert("f4"@.len() != "right"@.len());
                assert("f4"@.len() != "tab"@.len());
                assert("f4"@.len() != "space"@.len());
                assert("f4"@[1] != "f1"@[1]);
                assert("f4"@[1] != "f2"@[1]);
                assert("f4"@[1] != "f3"@[1]);
            } else if n == 5 {
                assert("f5"@.len() != "enter"@.len());
                assert("f5"@.len() != "esc"@.len());
                assert("f5"@.len() != "backspace"@.len());
                assert("f5"@.len() != "delete"@.len());
                assert("f5"@[0] != "up"@[0]);
                assert("f5"@.len() != "down"@.len());
                assert("f5"@.len() != "left"@.len());
                assert("f5"@.len() != "right"@.len());
                assert("f5"@.len() != "tab"@.len());
                assert("f5"@.len() != "space"@.len());
                assert("f5"@[1] != "f1"@[1]);
                assert("f5"@[1] != "f2"@[1]);
                assert("f5"@[1] != "f3"@[1]);
                assert("f5"@[1] != "f4"@[1]);
            } else if n == 6 {
                assert("f6"@.len() != "enter"@.len());
                assert("f6"@.len() != "esc"@.len());
                assert("f6"@.len() != "backspace"@.len());
                assert("f6"@.len() != "delete"@.len());
                assert("f6"@[0] != "up"@[0]);
                assert("f6"@.len() != "down"@.len());
                assert("f6"@.len() != "left"@.len());
                assert("f6"@.len() != "right"@.len());
                assert("f6"@.len() != "tab"@.len());
                assert("f6"@.len() != "space"@.len());
                assert("f6"@[1] != "f1"@[1]);
                assert("f6"@[1] != "f2"@[1]);
                assert("f6"@[1] != "f3"@[1]);
                assert("f6"@[1] != "f4"@[1]);
                assert("f6"@[1] != "f5"@[1]);
            } else if n == 7 {
                assert("f7"@.len() != "enter"@.len());
                assert("f7"@.len() != "esc"@.len());
                assert("f7"@.len() != "backspace"@.len());
                assert("f7"@.len() != "delete"@.len());
                assert("f7"@[0] != "up"@[0]);
                assert("f7"@.len() != "down"@.len());
                assert("f7"@.len() != "left"@.len());
                assert("f7"@.len() != "right"@.len());
                assert("f7"@.len() != "tab"@.len());
                assert("f7"@.len() != "space"@.len());
                assert("f7"@[1] != "f1"@[1]);
                assert("f7"@[1] != "f2"@[1]);
                assert("f7"@[1] != "f3"@[1]);
                assert("f7"@[1] != "f4"@[1]);
                assert("f7"@[1] != "f5"@[1]);
                assert("f7"@[1] != "f6"@[1]);
            } else if n == 8 {
                assert("f8"@.len() != "enter"@.len());
                assert("f8"@.len() != "esc"@.len());
                assert("f8"@.len() != "backspace"@.len());
                assert("f8"@.len() != "delete"@.len());
                assert("f8"@[0] != "up"@[0]);
                assert("f8"@.len() != "down"@.len());
                assert("f8"@.len() != "left"@.len());
                assert("f8"@.len() != "right"@.len());
                assert("f8"@.len() != "tab"@.len());
                assert("f8"@.len() != "space"@.len());
                assert("f8"@[1] != "f1"@[1]);
                assert("f8"@[1] != "f2"@[1]);
                assert("f8"@[1] != "f3"@[1]);
                assert("f8"@[1] != "f4"@[1]);
                assert("f8"@[1] != "f5"@[1]);
                assert("f8"@[1] != "f6"@[1]);
                assert("f8"@[1] != "f7"@[1]);
            } else if n == 9 {
                assert("f9"@.len() != "enter"@.len());
                assert("f9"@.len() != "esc"@.len());
                assert("f9"@.len() != "backspace"@.len());
                assert("f9"@.len() != "delete"@.len());
                assert("f9"@[0] != "up"@[0]);
                assert("f9"@.len() != "down"@.len());
                assert("f9"@.len() != "left"@.len());
                assert("f9"@.len() != "right"@.len());
                assert("f9"@.len() != "tab"@.len());
                assert("f9"@.len() != "space"@.len());
                assert("f9"@[1] != "f1"@[1]);
                assert("f9"@[1] != "f2"@[1]);
                assert("f9"@[1] != "f3"@[1]);
                assert("f9"@[1] != "f4"@[1]);
                assert("f9"@[1] != "f5"@[1]);
                assert("f9"@[1] != "f6"@[1]);
                assert("f9"@[1] != "f7"@[1]);
                assert("f9"@[1] != "f8"@[1]);
            } else if n == 10 {
                assert("f10"@.len() != "enter"@.len());
                assert("f10"@[0] != "esc"@[0]);
                assert("f10"@.len() != "backspace"@.len());
                assert("f10"@.len() != "delete"@.len());
                assert("f10"@.len() != "up"@.len());
                assert("f10"@.len() != "down"@.len());
                assert("f10"@.len() != "left"@.len());
                assert("f10"@.len() != "right"@.len());
                assert("f10"@[0] != "tab"@[0]);
                assert("f10"@.len() != "space"@.len());
                assert("f10"@.len() != "f1"@.len());
                assert("f10"@.len() != "f2"@.len());
                assert("f10"@.len() != "f3"@.len());
                assert("f10"@.len() != "f4"@.len());
                assert("f10"@.len() != "f5"@.len());
                assert("f10"@.len() != "f6"@.len());
                assert("f10"@.len() != "f7"@.len());
                assert("f10"@.len() != "f8"@.len());
                assert("f10"@.len() != "f9"@.len());
            } else if n == 11 {
                assert("f11"@.len() != "enter"@.len());
                assert("f11"@[0] != "esc"@[0]);
                assert("f11"@.len() != "backspace"@.len());
                assert("f11"@.len() != "delete"@.len());
                assert("f11"@.len() != "up"@.len());
                assert("f11"@.len() != "down"@.len());
                assert("f11"@.len() != "left"@.len());
                assert("f11"@.len() != "right"@.len());
                assert("f11"@[0] != "tab"@[0]);
                assert("f11"@.len() != "space"@.len());
                assert("f11"@.len() != "f1"@.len());
                assert("f11"@.len() != "f2"@.len());
                assert("f11"@.len() != "f3"@.len());
                assert("f11"@.len() != "f4"@.len());
                assert("f11"@.len() != "f5"@.len());
                assert("f11"@.len() != "f6"@.len());
                assert("f11"@.len() != "f7"@.len());
                assert("f11"@.len() != "f8"@.len());
                assert("f11"@.len() != "f9"@.len());
                assert("f11"@[2] != "f10"@[2]);
            } else if n == 12 {
                assert("f12"@.len() != "enter"@.len());
                assert("f12"@[0] != "esc"@[0]);
                assert("f12"@.len() != "backspace"@.len());
                assert("f12"@.len() != "delete"@.len());
                assert("f12"@.len() != "up"@.len());
                assert("f12"@.len() != "down"@.len());
                assert("f12"@.len() != "left"@.len());
                assert("f12"@.len() != "right"@.len());
                assert("f12"@[0] != "tab"@[0]);
                assert("f12"@.len() != "space"@.len());
                assert("f12"@.len() != "f1"@.len());
                assert("f12"@.len() != "f2"@.len());
                assert("f12"@.len() != "f3"@.len());
                assert("f12"@.len() != "f4"@.len());
                assert("f12"@.len() != "f5"@.len());
                assert("f12"@.len() != "f6"@.len());
                assert("f12"@.len() != "f7"@.len());
                assert("f12"@.len() != "f8"@.len());
                assert("f12"@.len() != "f9"@.len());
                assert("f12"@[2] != "f10"@[2]);
                assert("f12"@[2] != "f11"@[2]);
            }
        },
        _ => {},
    }
}

/// A key name, written in any case, binds the key it names without
/// modifiers: `"right"`, `"Right"` and `"RIGHT"` bind the right arrow.
pub proof fn law_named_keys_bind_their_keys(s: Seq<char>, c: KeyCode)
    requires
        key_name_of(c).len() > 0,
        ascii_lower(s) == key_name_of(c),
    ensures
        parse_ascii(s) == Ok::<KeyBind, Seq<char>>(KeyBind { code: c, modifiers: 0 }),
{
    lemma_key_name_round_trip(c);
    assert forall|i: int| 0 <= i < s.len() implies s[i] != '+' by {
        lemma_ascii_lower_char_idempotent(s[i]);
        assert(ascii_lower(s)[i] == ascii_lower_char(s[i]));
    }
    lemma_split_no_plus(s);
    assert(seq![s].drop_last() =~= Seq::<Seq<char>>::empty());
    assert(mods_by(Seq::<Seq<char>>::empty(), true) == Ok::<u8, Seq<char>>(0u8));
}

/// The name of a modifier bit in a binding string (empty for other values).
pub open spec fn modifier_name_of(b: u8) -> Seq<char> {
    if b == CONTROL {
        "ctrl"@
    } else if b == ALT {
        "alt"@
    } else if b == SHIFT {
        "shift"@
    } else {
        Seq::empty()
    }
}

/// A modifier name stands for its own modifier bit and for no other: `ctrl`
/// for Control, `alt` for Alt, `shift` for Shift.
pub proof fn law_modifier_names_are_their_bits(l: Seq<char>, b: u8)
    ensures
        modifier_of(l) matches Some(m) ==> l == modifier_name_of(m),
        modifier_name_of(b).len() > 0 ==> modifier_of(modifier_name_of(b)) == Some(b),
{
    reveal_strlit("ctrl");
    reveal_strlit("alt");
    reveal_strlit("shift");
    assert("alt"@.len() != "ctrl"@.len());
    assert("shift"@.len() != "ctrl"@.len());
    assert("shift"@.len() != "alt"@.len());
}

/// For a character key, holding Shift or not makes no difference to whether a
/// press matches: Shift is already part of the character.
pub proof fn law_char_ignores_shift(b: KeyBind, c: char, m: u8)
    requires
        b.code == KeyCode::Char(c),
    ensures
        binding_matches(b, KeyEvent { code: KeyCode::Char(c), modifiers: m })
            == binding_matches(b, KeyEvent { code: KeyCode::Char(c), modifiers: m | 1u8 }),
{
    assert((m & 6u8) == ((m | 1u8) & 6u8)) by (bit_vector);
}

/// A key without modifiers matches its own binding.
pub proof fn law_binding_matches_itself(code: KeyCode)
    ensures
        binding_matches(KeyBind { code: code, modifiers: 0 }, KeyEvent { code: code, modifiers: 0 }),
{
}

/// A `[keys]` table that names no known setting leaves every binding at its default.
pub proof fn law_unknown_settings_keep_defaults(es: Seq<(String, Option<String>)>)
    requires
        forall|i: int| 0 <= i < es.len() ==> field_index((#[trigger] es[i]).0@) is None,
    ensures
        keys_from_entries(es) == Some(default_keys()),
{
    lemma_unknown_settings(es);
}

proof fn lemma_unknown_settings(es: Seq<(String, Option<String>)>)
    requires
        forall|i: int| 0 <= i < es.len() ==> field_index((#[trigger] es[i]).0@) is None,
    ensures
        entries_result(es) == Some((default_keys(), Set::<int>::empty())),
    decreases es.len(),
{
    if es.len() > 0 {
        assert forall|i: int| 0 <= i < es.drop_last().len() implies field_index((#[trigger] es.drop_last()[i]).0@) is None by {
            assert(es.drop_last()[i] == es[i]);
        }
        lemma_unknown_settings(es.drop_last());
        assert(field_index(es[es.len() - 1].0@) is None);
    }
}

/// Setting a binding twice makes the table unusable.
pub proof fn law_duplicate_setting_rejected(es: Seq<(String, Option<String>)>, i: int, j: int)
    requires
        0 <= i < j < es.len(),
        field_index(es[i].0@) is Some,
        field_index(es[i].0@) == field_index(es[j].0@),
    ensures
        keys_from_entries(es) is None,
{
    lemma_seen_persists(es, i, j);
    if entries_result(es.take(j + 1)) is Some {
        assert(es.take(j + 1).drop_last() =~= es.take(j));
        assert(es.take(j + 1).last() == es[j]);
    }
    lemma_entries_none_extends(es, j + 1);
}

/// Once a setting has been applied, later prefixes remember it.
proof fn lemma_seen_persists(es: Seq<(String, Option<String>)>, i: int, j: int)
    requires
        0 <= i < j <= es.len(),
        field_index(es[i].0@) is Some,
    ensures
        entries_result(es.take(j)) matches Some((c, seen)) ==> seen.contains(field_index(es[i].0@).unwrap()),
    decreases j - i,
{
    let k = field_index(es[i].0@).unwrap();
    if j == i + 1 {
        assert(es.take(j).drop_last() =~= es.take(i));
        assert(es.take(j).last() == es[i]);
    } else {
        lemma_seen_persists(es, i, j - 1);
        assert(es.take(j).drop_last() =~= es.take(j - 1));
    }
}

} // verus!
