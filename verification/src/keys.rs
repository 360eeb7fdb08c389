//! Keybindings: modifier sets, the `mods-key` notation, keycode tables and
//! binding lookup.
use vstd::prelude::*;
use crate::commands::{command_error, parse_command, spec_parse_command, words, Command, CommandView};
use crate::errors::{invalid2, message, Error};
use crate::text::{debug_text, text_debug, range_eq, ranges_match_split, spec_split, spec_trim, split_ranges, str_eq, trim_range, lemma_split_nonempty};

verus! {

/// A set of keyboard modifiers.
#[derive(Clone, Copy, Debug, PartialEq, Eq, Structural)]
pub struct Modifiers {
    pub alt: bool,
    pub shift: bool,
    pub cmd: bool,
    pub ctrl: bool,
}

impl Modifiers {
    /// No modifier.
    pub open spec fn none() -> Modifiers {
        Modifiers { alt: false, shift: false, cmd: false, ctrl: false }
    }

    /// Only the Option/Alt key.
    pub open spec fn only_alt() -> Modifiers {
        Modifiers { alt: true, shift: false, cmd: false, ctrl: false }
    }

    /// Only the Shift key.
    pub open spec fn only_shift() -> Modifiers {
        Modifiers { alt: false, shift: true, cmd: false, ctrl: false }
    }

    /// Only the Command key.
    pub open spec fn only_cmd() -> Modifiers {
        Modifiers { alt: false, shift: false, cmd: true, ctrl: false }
    }

    /// Only the Control key.
    pub open spec fn only_ctrl() -> Modifiers {
        Modifiers { alt: false, shift: false, cmd: false, ctrl: true }
    }

    /// The Option/Alt key.
    pub fn alt() -> (m: Modifiers)
        ensures
            m == Modifiers::only_alt(),
    {
        Modifiers { alt: true, shift: false, cmd: false, ctrl: false }
    }

    /// The Shift key.
    pub fn shift() -> (m: Modifiers)
        ensures
            m == Modifiers::only_shift(),
    {
        Modifiers { alt: false, shift: true, cmd: false, ctrl: false }
    }

    /// The Command key.
    pub fn cmd() -> (m: Modifiers)
        ensures
            m == Modifiers::only_cmd(),
    {
        Modifiers { alt: false, shift: false, cmd: true, ctrl: false }
    }

    /// The Control key.
    pub fn ctrl() -> (m: Modifiers)
        ensures
            m == Modifiers::only_ctrl(),
    {
        Modifiers { alt: false, shift: false, cmd: false, ctrl: true }
    }

    /// No modifier.
    pub fn empty() -> (m: Modifiers)
        ensures
            m == Modifiers::none(),
    {
        Modifiers { alt: false, shift: false, cmd: false, ctrl: false }
    }

    /// The union of two modifier sets.
    pub open spec fn spec_union(self, other: Modifiers) -> Modifiers {
        Modifiers {
            alt: self.alt || other.alt,
            shift: self.shift || other.shift,
            cmd: self.cmd || other.cmd,
            ctrl: self.ctrl || other.ctrl,
        }
    }

    /// The union of two modifier sets.
    pub fn union(self, other: Modifiers) -> (m: Modifiers)
        ensures
            m == self.spec_union(other),
    {
        Modifiers {
            alt: self.alt || other.alt,
            shift: self.shift || other.shift,
            cmd: self.cmd || other.cmd,
            ctrl: self.ctrl || other.ctrl,
        }
    }

    /// Whether every modifier of `other` is in `self`.
    pub fn contains(&self, other: Modifiers) -> (b: bool)
        ensures
            b == ((other.alt ==> self.alt) && (other.shift ==> self.shift) && (other.cmd
                ==> self.cmd) && (other.ctrl ==> self.ctrl)),
    {
        (!other.alt || self.alt) && (!other.shift || self.shift) && (!other.cmd || self.cmd) && (
        !other.ctrl || self.ctrl)
    }

    /// The modifier set as a bit mask: alt = 1, shift = 2, cmd = 4, ctrl = 8.
    pub fn bits(&self) -> (b: u8)
        ensures
            b == (if self.alt { 1int } else { 0 }) + (if self.shift { 2int } else { 0 }) + (
            if self.cmd { 4int } else { 0 }) + (if self.ctrl { 8int } else { 0 }),
    {
        (if self.alt { 1u8 } else { 0 }) + (if self.shift { 2u8 } else { 0 }) + (if self.cmd {
            4u8
        } else {
            0
        }) + (if self.ctrl { 8u8 } else { 0 })
    }
}

impl core::ops::BitOr for Modifiers {
    type Output = Modifiers;

    fn bitor(self, rhs: Modifiers) -> (m: Modifiers) {
        self.union(rhs)
    }
}

impl vstd::std_specs::ops::BitOrSpecImpl for Modifiers {
    open spec fn obeys_bitor_spec() -> bool {
        true
    }

    open spec fn bitor_req(self, rhs: Modifiers) -> bool {
        true
    }

    open spec fn bitor_spec(self, rhs: Modifiers) -> Modifiers {
        self.spec_union(rhs)
    }
}

/// The modifier named by a word.
pub open spec fn spec_modifier(s: Seq<char>) -> Option<Modifiers> {
    if s == "alt"@ {
        Some(Modifiers::only_alt())
    } else if s == "shift"@ {
        Some(Modifiers::only_shift())
    } else if s == "cmd"@ {
        Some(Modifiers::only_cmd())
    } else if s == "ctrl"@ {
        Some(Modifiers::only_ctrl())
    } else {
        None
    }
}

/// The union of the modifiers named by `parts` (each trimmed); `None` if
/// any part names no modifier.
pub open spec fn spec_modifiers_of(parts: Seq<Seq<char>>) -> Option<Modifiers>
    decreases parts.len(),
{
    if parts.len() == 0 {
        Some(Modifiers::none())
    } else {
        match (spec_modifiers_of(parts.drop_last()), spec_modifier(spec_trim(parts.last()))) {
            (Some(a), Some(b)) => Some(a.spec_union(b)),
            _ => None,
        }
    }
}

/// The modifiers of a `+`-separated list such as `"ctrl+alt"`.
pub open spec fn spec_parse_modifiers(s: Seq<char>) -> Option<Modifiers> {
    spec_modifiers_of(spec_split(s, '+'))
}

/// The first of `parts` that, trimmed, names no modifier (trimmed).
pub open spec fn first_bad_modifier(parts: Seq<Seq<char>>) -> Seq<char>
    decreases parts.len(),
{
    if parts.len() == 0 {
        seq![]
    } else if spec_modifier(spec_trim(parts[0])) is None {
        spec_trim(parts[0])
    } else {
        first_bad_modifier(parts.drop_first())
    }
}

/// The message for a modifier list with a name that is no modifier.
pub open spec fn modifiers_error(s: Seq<char>) -> Seq<char> {
    "karakuri::config::parse_modifiers: Invalid modifier: "@ + first_bad_modifier(spec_split(s, '+'))
}

fn modifier_in(s: &str, from: usize, to: usize) -> (r: Option<Modifiers>)
    requires
        from <= to <= s@.len(),
    ensures
        r == spec_modifier(s@.subrange(from as int, to as int)),
{
    if range_eq(s, from, to, "alt") {
        Some(Modifiers::alt())
    } else if range_eq(s, from, to, "shift") {
        Some(Modifiers::shift())
    } else if range_eq(s, from, to, "cmd") {
        Some(Modifiers::cmd())
    } else if range_eq(s, from, to, "ctrl") {
        Some(Modifiers::ctrl())
    } else {
        None
    }
}

/// Parses the modifiers of `s[from..to]` (names separated by `+`, each
/// trimmed).
fn parse_modifiers_in(s: &str, from: usize, to: usize) -> (r: Result<Modifiers, Error>)
    requires
        from <= to <= s@.len(),
    ensures
        match r {
            Ok(m) => spec_parse_modifiers(s@.subrange(from as int, to as int)) == Some(m),
            Err(e) => spec_parse_modifiers(s@.subrange(from as int, to as int)) is None && message(e)
                == modifiers_error(s@.subrange(from as int, to as int)),
        },
{
    let ghost seg = s@.subrange(from as int, to as int);
    let piece = s.substring_char(from, to);
    let ranges = split_ranges(piece, '+');
    let ghost parts = spec_split(seg, '+');
    let mut out = Modifiers::empty();
    let mut k: usize = 0;
    assert(parts.skip(0) =~= parts);
    while k < ranges.len()
        invariant
            piece@ == seg,
            seg == s@.subrange(from as int, to as int),
            ranges_match_split(seg, '+', ranges@),
            parts == spec_split(seg, '+'),
            k <= ranges@.len(),
            spec_modifiers_of(parts.take(k as int)) == Some(out),
            first_bad_modifier(parts) == first_bad_modifier(parts.skip(k as int)),
        decreases ranges@.len() - k,
    {
        let (a, b) = ranges[k];
        let (ta, tb) = trim_range(piece, a, b);
        assert(parts.take(k as int + 1).drop_last() =~= parts.take(k as int));
        assert(parts.take(k as int + 1).last() == parts[k as int]);
        assert(parts.skip(k as int)[0] == parts[k as int]);
        match modifier_in(piece, ta, tb) {
            Some(m) => {
                out = out.union(m);
                assert(parts.skip(k as int).drop_first() =~= parts.skip(k as int + 1));
            },
            None => {
                proof {
                    assert(piece@.subrange(a as int, b as int) == parts[k as int]);
                    assert(spec_modifier(spec_trim(parts[k as int])) is None);
                    assert(spec_modifiers_of(parts.take(k as int + 1)) is None);
                    lemma_modifiers_prefix_none(parts, k as int + 1);
                    assert(seg == s@.subrange(from as int, to as int));
                    assert(spec_parse_modifiers(seg) is None);
                }
                return Err(invalid2("karakuri::config::parse_modifiers: Invalid modifier: ", piece.substring_char(ta, tb)));
            },
        }
        k = k + 1;
    }
    assert(parts.take(ranges@.len() as int) =~= parts);
    Ok(out)
}

/// Once a prefix of the parts fails to name modifiers, so do all the parts.
proof fn lemma_modifiers_prefix_none(parts: Seq<Seq<char>>, k: int)
    requires
        0 <= k <= parts.len(),
        spec_modifiers_of(parts.take(k)) is None,
    ensures
        spec_modifiers_of(parts) is None,
    decreases parts.len() - k,
{
    if k < parts.len() {
        assert(parts.take(k + 1).drop_last() =~= parts.take(k));
        lemma_modifiers_prefix_none(parts, k + 1);
    } else {
        assert(parts.take(k) =~= parts);
    }
}

/// Parses modifier names (`alt`, `shift`, `cmd`, `ctrl`) separated by `+`
/// into their union; fails on any other name, including an empty one.
pub fn parse_modifiers(input: &str) -> (r: Result<Modifiers, Error>)
    ensures
        match r {
            Ok(m) => spec_parse_modifiers(input@) == Some(m),
            Err(e) => spec_parse_modifiers(input@) is None && message(e) == modifiers_error(input@),
        },
{
    let n = input.unicode_len();
    assert(input@.subrange(0, n as int) =~= input@);
    parse_modifiers_in(input, 0, n)
}

/// A keyboard shortcut and the command it triggers.
#[derive(Clone, Debug)]
pub struct Keybinding {
    /// The key name (e.g. `"q"`, `"tab"`).
    pub key: String,
    /// The raw key code, once resolved.
    pub code: u8,
    /// The modifier keys.
    pub modifiers: Modifiers,
    /// The command run by the shortcut.
    pub command: Command,
}

/// How a `mods-key` text reads: the key (trimmed last `-` piece) and the
/// modifiers (of the trimmed first piece, if there are two pieces).
/// `None` when there are more than two pieces or the modifiers are invalid.
pub open spec fn spec_parse_keybinding(s: Seq<char>) -> Option<(Seq<char>, Modifiers)> {
    let parts = spec_split(s, '-');
    let key = spec_trim(parts.last());
    if parts.len() > 2 {
        None
    } else if parts.len() == 2 {
        match spec_parse_modifiers(spec_trim(parts[0])) {
            Some(m) => Some((key, m)),
            None => None,
        }
    } else {
        Some((key, Modifiers::none()))
    }
}

/// The message for a shortcut text that is not one.
pub open spec fn keybinding_error(s: Seq<char>) -> Seq<char> {
    let parts = spec_split(s, '-');
    if parts.len() > 2 {
        "Too many dashes: "@ + debug_text(s)
    } else {
        modifiers_error(spec_trim(parts[0]))
    }
}

/// Parses a shortcut written `"modifiers-key"` or `"key"` (e.g.
/// `"ctrl+alt-q"`, `"shift-tab"`, `"h"`). The code is left 0 and the
/// command `Quit` until the binding is resolved.
pub fn parse_keybinding(input: &str) -> (r: Result<Keybinding, Error>)
    ensures
        match r {
            Ok(b) => {
                &&& spec_parse_keybinding(input@) == Some((b.key@, b.modifiers))
                &&& b.code == 0
                &&& b.command@ == CommandView::Quit
            },
            Err(e) => spec_parse_keybinding(input@) is None && message(e) == keybinding_error(input@),
        },
{
    let ranges = split_ranges(input, '-');
    let ghost parts = spec_split(input@, '-');
    proof {
        lemma_split_nonempty(input@, '-');
    }
    let n = ranges.len();
    if n > 2 {
        let d = text_debug(input);
        return Err(invalid2("Too many dashes: ", d.as_str()));
    }
    let (ka, kb) = ranges[n - 1];
    let (ta, tb) = trim_range(input, ka, kb);
    assert(parts.last() == parts[n as int - 1]);
    let key = String::from_str(input.substring_char(ta, tb));
    let modifiers = if n == 2 {
        let (ma, mb) = ranges[0];
        let (sa, sb) = trim_range(input, ma, mb);
        match parse_modifiers_in(input, sa, sb) {
            Ok(m) => m,
            Err(e) => return Err(e),
        }
    } else {
        Modifiers::empty()
    };
    Ok(Keybinding { key, code: 0, modifiers, command: Command::Quit })
}

} // verus!

verus! {

/// The virtual keycodes of the ANSI US keyboard layout, by key name.
pub open spec fn spec_virtual_keycodes() -> Seq<(&'static str, u8)> {
    seq![
        ("a", 0x00u8),
        ("s", 0x01u8),
        ("d", 0x02u8),
        ("f", 0x03u8),
        ("h", 0x04u8),
        ("g", 0x05u8),
        ("z", 0x06u8),
        ("x", 0x07u8),
        ("c", 0x08u8),
        ("v", 0x09u8),
        ("section", 0x0au8),
        ("b", 0x0bu8),
        ("q", 0x0cu8),
        ("w", 0x0du8),
        ("e", 0x0eu8),
        ("r", 0x0fu8),
        ("y", 0x10u8),
        ("t", 0x11u8),
        ("1", 0x12u8),
        ("2", 0x13u8),
        ("3", 0x14u8),
        ("4", 0x15u8),
        ("6", 0x16u8),
        ("5", 0x17u8),
        ("equal", 0x18u8),
        ("9", 0x19u8),
        ("7", 0x1au8),
        ("minus", 0x1bu8),
        ("8", 0x1cu8),
        ("0", 0x1du8),
        ("rightbracket", 0x1eu8),
        ("o", 0x1fu8),
        ("u", 0x20u8),
        ("leftbracket", 0x21u8),
        ("i", 0x22u8),
        ("p", 0x23u8),
        ("l", 0x25u8),
        ("j", 0x26u8),
        ("quote", 0x27u8),
        ("k", 0x28u8),
        ("semicolon", 0x29u8),
        ("backslash", 0x2au8),
        ("comma", 0x2bu8),
        ("slash", 0x2cu8),
        ("n", 0x2du8),
        ("m", 0x2eu8),
        ("period", 0x2fu8),
        ("grave", 0x32u8),
        ("keypaddecimal", 0x41u8),
        ("keypadmultiply", 0x43u8),
        ("keypadplus", 0x45u8),
        ("keypadclear", 0x47u8),
        ("keypaddivide", 0x4bu8),
        ("keypadenter", 0x4cu8),
        ("keypadminus", 0x4eu8),
        ("keypadequals", 0x51u8),
        ("keypad0", 0x52u8),
        ("keypad1", 0x53u8),
        ("keypad2", 0x54u8),
        ("keypad3", 0x55u8),
        ("keypad4", 0x56u8),
        ("keypad5", 0x57u8),
        ("keypad6", 0x58u8),
        ("keypad7", 0x59u8),
        ("keypad8", 0x5bu8),
        ("keypad9", 0x5cu8)
    ]
}

/// The keycodes of keys that do not depend on the keyboard layout.
pub open spec fn spec_literal_keycodes() -> Seq<(&'static str, u8)> {
    seq![
        ("return", 0x24u8),
        ("tab", 0x30u8),
        ("space", 0x31u8),
        ("delete", 0x33u8),
        ("escape", 0x35u8),
        ("command", 0x37u8),
        ("shift", 0x38u8),
        ("capslock", 0x39u8),
        ("option", 0x3au8),
        ("control", 0x3bu8),
        ("rightcommand", 0x36u8),
        ("rightshift", 0x3cu8),
        ("rightoption", 0x3du8),
        ("rightcontrol", 0x3eu8),
        ("function", 0x3fu8),
        ("f17", 0x40u8),
        ("volumeup", 0x48u8),
        ("volumedown", 0x49u8),
        ("mute", 0x4au8),
        ("f18", 0x4fu8),
        ("f19", 0x50u8),
        ("f20", 0x5au8),
        ("f5", 0x60u8),
        ("f6", 0x61u8),
        ("f7", 0x62u8),
        ("f3", 0x63u8),
        ("f8", 0x64u8),
        ("f9", 0x65u8),
        ("f11", 0x67u8),
        ("f13", 0x69u8),
        ("f16", 0x6au8),
        ("f14", 0x6bu8),
        ("f10", 0x6du8),
        ("contextualmenu", 0x6eu8),
        ("f12", 0x6fu8),
        ("f15", 0x71u8),
        ("help", 0x72u8),
        ("home", 0x73u8),
        ("pageup", 0x74u8),
        ("forwarddelete", 0x75u8),
        ("f4", 0x76u8),
        ("end", 0x77u8),
        ("f2", 0x78u8),
        ("pagedown", 0x79u8),
        ("f1", 0x7au8),
        ("leftarrow", 0x7bu8),
        ("rightarrow", 0x7cu8),
        ("downarrow", 0x7du8),
        ("uparrow", 0x7eu8)
    ]
}

/// The virtual keycodes of the ANSI US keyboard layout, by key name
/// (the keys whose names a keyboard layout decides).
pub fn virtual_keycode() -> (r: Vec<(&'static str, u8)>)
    ensures
        r@ == spec_virtual_keycodes(),
{
    let r = vec![
        ("a", 0x00),
        ("s", 0x01),
        ("d", 0x02),
        ("f", 0x03),
        ("h", 0x04),
        ("g", 0x05),
        ("z", 0x06),
        ("x", 0x07),
        ("c", 0x08),
        ("v", 0x09),
        ("section", 0x0a),
        ("b", 0x0b),
        ("q", 0x0c),
        ("w", 0x0d),
        ("e", 0x0e),
        ("r", 0x0f),
        ("y", 0x10),
        ("t", 0x11),
        ("1", 0x12),
        ("2", 0x13),
        ("3", 0x14),
        ("4", 0x15),
        ("6", 0x16),
        ("5", 0x17),
        ("equal", 0x18),
        ("9", 0x19),
        ("7", 0x1a),
        ("minus", 0x1b),
        ("8", 0x1c),
        ("0", 0x1d),
        ("rightbracket", 0x1e),
        ("o", 0x1f),
        ("u", 0x20),
        ("leftbracket", 0x21),
        ("i", 0x22),
        ("p", 0x23),
        ("l", 0x25),
        ("j", 0x26),
        ("quote", 0x27),
        ("k", 0x28),
        ("semicolon", 0x29),
        ("backslash", 0x2a),
        ("comma", 0x2b),
        ("slash", 0x2c),
        ("n", 0x2d),
        ("m", 0x2e),
        ("period", 0x2f),
        ("grave", 0x32),
        ("keypaddecimal", 0x41),
        ("keypadmultiply", 0x43),
        ("keypadplus", 0x45),
        ("keypadclear", 0x47),
        ("keypaddivide", 0x4b),
        ("keypadenter", 0x4c),
        ("keypadminus", 0x4e),
        ("keypadequals", 0x51),
        ("keypad0", 0x52),
        ("keypad1", 0x53),
        ("keypad2", 0x54),
        ("keypad3", 0x55),
        ("keypad4", 0x56),
        ("keypad5", 0x57),
        ("keypad6", 0x58),
        ("keypad7", 0x59),
        ("keypad8", 0x5b),
        ("keypad9", 0x5c)
    ];
    assert(r@ =~= spec_virtual_keycodes());
    r
}

/// The keycodes of keys that are independent of the keyboard layout.
pub fn literal_keycode() -> (r: Vec<(&'static str, u8)>)
    ensures
        r@ == spec_literal_keycodes(),
{
    let r = vec![
        ("return", 0x24),
        ("tab", 0x30),
        ("space", 0x31),
        ("delete", 0x33),
        ("escape", 0x35),
        ("command", 0x37),
        ("shift", 0x38),
        ("capslock", 0x39),
        ("option", 0x3a),
        ("control", 0x3b),
        ("rightcommand", 0x36),
        ("rightshift", 0x3c),
        ("rightoption", 0x3d),
        ("rightcontrol", 0x3e),
        ("function", 0x3f),
        ("f17", 0x40),
        ("volumeup", 0x48),
        ("volumedown", 0x49),
        ("mute", 0x4a),
        ("f18", 0x4f),
        ("f19", 0x50),
        ("f20", 0x5a),
        ("f5", 0x60),
        ("f6", 0x61),
        ("f7", 0x62),
        ("f3", 0x63),
        ("f8", 0x64),
        ("f9", 0x65),
        ("f11", 0x67),
        ("f13", 0x69),
        ("f16", 0x6a),
        ("f14", 0x6b),
        ("f10", 0x6d),
        ("contextualmenu", 0x6e),
        ("f12", 0x6f),
        ("f15", 0x71),
        ("help", 0x72),
        ("home", 0x73),
        ("pageup", 0x74),
        ("forwarddelete", 0x75),
        ("f4", 0x76),
        ("end", 0x77),
        ("f2", 0x78),
        ("pagedown", 0x79),
        ("f1", 0x7a),
        ("leftarrow", 0x7b),
        ("rightarrow", 0x7c),
        ("downarrow", 0x7d),
        ("uparrow", 0x7e)
    ];
    assert(r@ =~= spec_literal_keycodes());
    r
}

/// The code of the first entry of `tab` named `key`.
pub open spec fn spec_first_code(tab: Seq<(Seq<char>, u8)>, key: Seq<char>) -> Option<u8>
    decreases tab.len(),
{
    if tab.len() == 0 {
        None
    } else if tab[0].0 == key {
        Some(tab[0].1)
    } else {
        spec_first_code(tab.drop_first(), key)
    }
}

/// A static table as names and codes.
pub open spec fn static_table_view(tab: Seq<(&'static str, u8)>) -> Seq<(Seq<char>, u8)> {
    tab.map_values(|e: (&'static str, u8)| (e.0@, e.1))
}

/// An owned table as names and codes.
pub open spec fn table_view(tab: Seq<(String, u8)>) -> Seq<(Seq<char>, u8)> {
    tab.map_values(|e: (String, u8)| (e.0@, e.1))
}

/// The keycode of a key name: the layout-dependent keymap first, then the
/// layout-independent keys.
pub open spec fn spec_keycode(virtual_keys: Seq<(String, u8)>, key: Seq<char>) -> Option<u8> {
    match spec_first_code(table_view(virtual_keys), key) {
        Some(c) => Some(c),
        None => spec_first_code(static_table_view(spec_literal_keycodes()), key),
    }
}

proof fn lemma_first_code_step(tab: Seq<(Seq<char>, u8)>, key: Seq<char>, i: int)
    requires
        0 <= i < tab.len(),
        tab[i].0 != key,
    ensures
        spec_first_code(tab.skip(i), key) == spec_first_code(tab.skip(i + 1), key),
{
    assert(tab.skip(i).drop_first() =~= tab.skip(i + 1));
}

fn first_code_owned(tab: &Vec<(String, u8)>, key: &str) -> (r: Option<u8>)
    ensures
        r == spec_first_code(table_view(tab@), key@),
{
    let ghost t = table_view(tab@);
    let mut i: usize = 0;
    assert(t.skip(0) =~= t);
    while i < tab.len()
        invariant
            i <= tab@.len(),
            t == table_view(tab@),
            spec_first_code(t, key@) == spec_first_code(t.skip(i as int), key@),
        decreases tab@.len() - i,
    {
        assert(t[i as int] == (tab@[i as int].0@, tab@[i as int].1));
        if str_eq(tab[i].0.as_str(), key) {
            assert(t.skip(i as int)[0] == t[i as int]);
            return Some(tab[i].1);
        }
        proof {
            lemma_first_code_step(t, key@, i as int);
        }
        i = i + 1;
    }
    assert(t.skip(i as int) =~= Seq::<(Seq<char>, u8)>::empty());
    None
}

fn first_code_static(tab: &Vec<(&'static str, u8)>, key: &str) -> (r: Option<u8>)
    ensures
        r == spec_first_code(static_table_view(tab@), key@),
{
    let ghost t = static_table_view(tab@);
    let mut i: usize = 0;
    assert(t.skip(0) =~= t);
    while i < tab.len()
        invariant
            i <= tab@.len(),
            t == static_table_view(tab@),
            spec_first_code(t, key@) == spec_first_code(t.skip(i as int), key@),
        decreases tab@.len() - i,
    {
        assert(t[i as int] == (tab@[i as int].0@, tab@[i as int].1));
        if str_eq(tab[i].0, key) {
            assert(t.skip(i as int)[0] == t[i as int]);
            return Some(tab[i].1);
        }
        proof {
            lemma_first_code_step(t, key@, i as int);
        }
        i = i + 1;
    }
    assert(t.skip(i as int) =~= Seq::<(Seq<char>, u8)>::empty());
    None
}

/// Looks up the keycode of a key name: in the keymap of the current
/// keyboard layout first, then among the layout-independent keys.
pub fn keycode_for(key: &str, virtual_keys: &Vec<(String, u8)>) -> (r: Option<u8>)
    ensures
        r == spec_keycode(virtual_keys@, key@),
{
    match first_code_owned(virtual_keys, key) {
        Some(c) => Some(c),
        None => first_code_static(&literal_keycode(), key),
    }
}

/// The command bound by a binding named `name` (its `_`-separated words):
/// `exec_<name>` runs the shell command registered under `<name>` in
/// `execs`; any other name is parsed as a command.
pub open spec fn spec_binding_command(
    name: Seq<char>,
    execs: Seq<(Seq<char>, Seq<char>)>,
) -> Option<CommandView> {
    let argv = spec_split(name, '_');
    if argv[0] == "exec"@ && argv.len() >= 2 {
        match spec_first_value(execs, name.skip(5)) {
            Some(cmd) => Some(CommandView::Exec(cmd)),
            None => None,
        }
    } else {
        spec_parse_command(argv)
    }
}

/// The message for a binding name that binds no command.
pub open spec fn binding_error(name: Seq<char>) -> Seq<char> {
    let argv = spec_split(name, '_');
    if argv[0] == "exec"@ && argv.len() >= 2 {
        "exec binding '"@ + name + "' references unknown exec '"@ + name.skip(5) + "'"@
    } else {
        command_error(argv)
    }
}

/// The value of the first entry of `tab` with key `key`.
pub open spec fn spec_first_value(tab: Seq<(Seq<char>, Seq<char>)>, key: Seq<char>) -> Option<Seq<char>>
    decreases tab.len(),
{
    if tab.len() == 0 {
        None
    } else if tab[0].0 == key {
        Some(tab[0].1)
    } else {
        spec_first_value(tab.drop_first(), key)
    }
}

/// Named shell commands as character sequences.
pub open spec fn execs_view(execs: Seq<(String, String)>) -> Seq<(Seq<char>, Seq<char>)> {
    execs.map_values(|e: (String, String)| (e.0@, e.1@))
}

fn first_value(tab: &Vec<(String, String)>, key: &str) -> (r: Option<String>)
    ensures
        match r {
            Some(v) => spec_first_value(execs_view(tab@), key@) == Some(v@),
            None => spec_first_value(execs_view(tab@), key@) is None,
        },
{
    let ghost t = execs_view(tab@);
    let mut i: usize = 0;
    assert(t.skip(0) =~= t);
    while i < tab.len()
        invariant
            i <= tab@.len(),
            t == execs_view(tab@),
            spec_first_value(t, key@) == spec_first_value(t.skip(i as int), key@),
        decreases tab@.len() - i,
    {
        assert(t[i as int] == (tab@[i as int].0@, tab@[i as int].1@));
        if str_eq(tab[i].0.as_str(), key) {
            assert(t.skip(i as int)[0] == t[i as int]);
            return Some(tab[i].1.clone());
        }
        assert(t.skip(i as int).drop_first() =~= t.skip(i as int + 1));
        i = i + 1;
    }
    assert(t.skip(i as int) =~= Seq::<(Seq<char>, Seq<char>)>::empty());
    None
}

/// Resolves the command and keycode of a binding named `name`.
///
/// The command comes from `spec_binding_command`; the keycode is looked up
/// by the binding's key and left unchanged when the key is unknown. Fails
/// when the name is not a valid command or refers to an unknown exec.
pub fn resolve_binding(
    name: &str,
    binding: &mut Keybinding,
    virtual_keys: &Vec<(String, u8)>,
    execs: &Vec<(String, String)>,
) -> (r: Result<(), Error>)
    ensures
        match spec_binding_command(name@, execs_view(execs@)) {
            Some(c) => {
                &&& r is Ok
                &&& final(binding).command@ == c
                &&& final(binding).key == old(binding).key
                &&& final(binding).modifiers == old(binding).modifiers
                &&& final(binding).code == match spec_keycode(virtual_keys@, old(binding).key@) {
                    Some(k) => k,
                    None => old(binding).code,
                }
            },
            None => r matches Err(e) && message(e) == binding_error(name@) && *final(binding) == *old(binding),
        },
{
    let ranges = split_ranges(name, '_');
    let ghost argv = spec_split(name@, '_');
    proof {
        lemma_split_nonempty(name@, '_');
    }
    let mut words_vec: Vec<&str> = Vec::new();
    let mut k: usize = 0;
    while k < ranges.len()
        invariant
            ranges_match_split(name@, '_', ranges@),
            argv == spec_split(name@, '_'),
            k <= ranges@.len(),
            words_vec@.len() == k,
            forall|j: int| 0 <= j < k ==> #[trigger] words_vec@[j]@ == argv[j],
        decreases ranges@.len() - k,
    {
        let (a, b) = ranges[k];
        words_vec.push(name.substring_char(a, b));
        k = k + 1;
    }
    assert(words(words_vec@) =~= argv);
    let first_is_exec = str_eq(words_vec[0], "exec");
    let command = if first_is_exec && words_vec.len() >= 2 {
        proof {
            lemma_exec_prefix(name@);
        }
        let n = name.unicode_len();
        let exec_name = name.substring_char(5, n);
        assert(exec_name@ =~= name@.skip(5));
        match first_value(execs, exec_name) {
            Some(cmd) => Command::Exec(cmd),
            None => {
                let mut m = String::from_str("exec binding '");
                m.append(name);
                m.append("' references unknown exec '");
                m.append(exec_name);
                m.append("'");
                return Err(Error::InvalidConfig(m));
            },
        }
    } else {
        match parse_command(words_vec.as_slice()) {
            Ok(c) => c,
            Err(e) => return Err(e),
        }
    };
    binding.command = command;
    match keycode_for(binding.key.as_str(), virtual_keys) {
        Some(code) => {
            binding.code = code;
        },
        None => {},
    }
    Ok(())
}

/// When the first `_`-separated word of `name` is `exec` and there is a
/// second word, `name` is at least five characters long and its fifth is
/// the separator.
proof fn lemma_exec_prefix(name: Seq<char>)
    requires
        spec_split(name, '_')[0] == "exec"@,
        spec_split(name, '_').len() >= 2,
    ensures
        name.len() >= 5,
{
    reveal_strlit("exec");
    lemma_split_first(name, '_');
}

/// The first piece of a split, and whether a separator follows it.
proof fn lemma_split_first(s: Seq<char>, sep: char)
    ensures
        spec_split(s, sep).len() >= 1,
        spec_split(s, sep)[0].len() <= s.len(),
        spec_split(s, sep).len() >= 2 ==> s.len() > spec_split(s, sep)[0].len(),
    decreases s.len(),
{
    lemma_split_nonempty(s, sep);
    if s.len() > 0 {
        lemma_split_first(s.drop_last(), sep);
        lemma_split_nonempty(s.drop_last(), sep);
    }
}

/// The command bound to a key code with exactly the given modifiers: the
/// first matching binding in `bindings`.
pub open spec fn spec_find_keybind(bindings: Seq<Keybinding>, keycode: u8, mask: Modifiers) -> Option<CommandView>
    decreases bindings.len(),
{
    if bindings.len() == 0 {
        None
    } else if bindings[0].code == keycode && bindings[0].modifiers == mask {
        Some(bindings[0].command@)
    } else {
        spec_find_keybind(bindings.drop_first(), keycode, mask)
    }
}

/// Finds the command bound to `keycode` with modifier set `mask`.
pub fn find_keybind(bindings: &Vec<Keybinding>, keycode: u8, mask: &Modifiers) -> (r: Option<Command>)
    ensures
        match r {
            Some(c) => spec_find_keybind(bindings@, keycode, *mask) == Some(c@),
            None => spec_find_keybind(bindings@, keycode, *mask) is None,
        },
{
    let mut i: usize = 0;
    assert(bindings@.skip(0) =~= bindings@);
    while i < bindings.len()
        invariant
            i <= bindings@.len(),
            spec_find_keybind(bindings@, keycode, *mask) == spec_find_keybind(
                bindings@.skip(i as int),
                keycode,
                *mask,
            ),
        decreases bindings@.len() - i,
    {
        let b = &bindings[i];
        if b.code == keycode && b.modifiers == *mask {
            assert(bindings@.skip(i as int)[0] == bindings@[i as int]);
            let c = clone_command(&b.command);
            return Some(c);
        }
        assert(bindings@.skip(i as int).drop_first() =~= bindings@.skip(i as int + 1));
        i = i + 1;
    }
    assert(bindings@.skip(i as int) =~= Seq::<Keybinding>::empty());
    None
}

/// A copy of a command.
pub fn clone_command(c: &Command) -> (r: Command)
    ensures
        r@ == c@,
{
    match c {
        Command::PrintState => Command::PrintState,
        Command::Window(o) => Command::Window(*o),
        Command::Mouse(m) => Command::Mouse(*m),
        Command::Quit => Command::Quit,
        Command::Exec(s) => Command::Exec(s.clone()),
        Command::SetMode(s) => Command::SetMode(s.clone()),
        Command::ReloadConfig => Command::ReloadConfig,
    }
}

/// The position of a key name among all keycode entries (the layout
/// keymap, then the layout-independent keys); -1 for any other name.
spec fn key_name_slot(s: Seq<char>) -> int {
    if s.len() == 1 && s[0] == 'a' {
        0
    } else if s.len() == 1 && s[0] == 's' {
        1
    } else if s.len() == 1 && s[0] == 'd' {
        2
    } else if s.len() == 1 && s[0] == 'f' {
        3
    } else if s.len() == 1 && s[0] == 'h' {
        4
    } else if s.len() == 1 && s[0] == 'g' {
        5
    } else if s.len() == 1 && s[0] == 'z' {
        6
    } else if s.len() == 1 && s[0] == 'x' {
        7
    } else if s.len() == 1 && s[0] == 'c' {
        8
    } else if s.len() == 1 && s[0] == 'v' {
        9
    } else if s.len() == 7 && s[0] == 's' && s[1] == 'e' && s[2] == 'c' && s[3] == 't' && s[4] == 'i' && s[5] == 'o' && s[6] == 'n' {
        10
    } else if s.len() == 1 && s[0] == 'b' {
        11
    } else if s.len() == 1 && s[0] == 'q' {
        12
    } else if s.len() == 1 && s[0] == 'w' {
        13
    } else if s.len() == 1 && s[0] == 'e' {
        14
    } else if s.len() == 1 && s[0] == 'r' {
        15
    } else if s.len() == 1 && s[0] == 'y' {
        16
    } else if s.len() == 1 && s[0] == 't' {
        17
    } else if s.len() == 1 && s[0] == '1' {
        18
    } else if s.len() == 1 && s[0] == '2' {
        19
    } else if s.len() == 1 && s[0] == '3' {
        20
    } else if s.len() == 1 && s[0] == '4' {
        21
    } else if s.len() == 1 && s[0] == '6' {
        22
    } else if s.len() == 1 && s[0] == '5' {
        23
    } else if s.len() == 5 && s[0] == 'e' && s[1] == 'q' && s[2] == 'u' && s[3] == 'a' && s[4] == 'l' {
        24
    } else if s.len() == 1 && s[0] == '9' {
        25
    } else if s.len() == 1 && s[0] == '7' {
        26
    } else if s.len() == 5 && s[0] == 'm' && s[1] == 'i' && s[2] == 'n' && s[3] == 'u' && s[4] == 's' {
        27
    } else if s.len() == 1 && s[0] == '8' {
        28
    } else if s.len() == 1 && s[0] == '0' {
        29
    } else if s.len() == 12 && s[0] == 'r' && s[1] == 'i' && s[2] == 'g' && s[3] == 'h' && s[4] == 't' && s[5] == 'b' && s[6] == 'r' && s[7] == 'a' && s[8] == 'c' && s[9] == 'k' && s[10] == 'e' && s[11] == 't' {
        30
    } else if s.len() == 1 && s[0] == 'o' {
        31
    } else if s.len() == 1 && s[0] == 'u' {
        32
    } else if s.len() == 11 && s[0] == 'l' && s[1] == 'e' && s[2] == 'f' && s[3] == 't' && s[4] == 'b' && s[5] == 'r' && s[6] == 'a' && s[7] == 'c' && s[8] == 'k' && s[9] == 'e' && s[10] == 't' {
        33
    } else if s.len() == 1 && s[0] == 'i' {
        34
    } else if s.len() == 1 && s[0] == 'p' {
        35
    } else if s.len() == 1 && s[0] == 'l' {
        36
    } else if s.len() == 1 && s[0] == 'j' {
        37
    } else if s.len() == 5 && s[0] == 'q' && s[1] == 'u' && s[2] == 'o' && s[3] == 't' && s[4] == 'e' {
        38
    } else if s.len() == 1 && s[0] == 'k' {
        39
    } else if s.len() == 9 && s[0] == 's' && s[1] == 'e' && s[2] == 'm' && s[3] == 'i' && s[4] == 'c' && s[5] == 'o' && s[6] == 'l' && s[7] == 'o' && s[8] == 'n' {
        40
    } else if s.len() == 9 && s[0] == 'b' && s[1] == 'a' && s[2] == 'c' && s[3] == 'k' && s[4] == 's' && s[5] == 'l' && s[6] == 'a' && s[7] == 's' && s[8] == 'h' {
        41
    } else if s.len() == 5 && s[0] == 'c' && s[1] == 'o' && s[2] == 'm' && s[3] == 'm' && s[4] == 'a' {
        42
    } else if s.len() == 5 && s[0] == 's' && s[1] == 'l' && s[2] == 'a' && s[3] == 's' && s[4] == 'h' {
        43
    } else if s.len() == 1 && s[0] == 'n' {
        44
    } else if s.len() == 1 && s[0] == 'm' {
        45
    } else if s.len() == 6 && s[0] == 'p' && s[1] == 'e' && s[2] == 'r' && s[3] == 'i' && s[4] == 'o' && s[5] == 'd' {
        46
    } else if s.len() == 5 && s[0] == 'g' && s[1] == 'r' && s[2] == 'a' && s[3] == 'v' && s[4] == 'e' {
        47
    } else if s.len() == 13 && s[0] == 'k' && s[1] == 'e' && s[2] == 'y' && s[3] == 'p' && s[4] == 'a' && s[5] == 'd' && s[6] == 'd' && s[7] == 'e' && s[8] == 'c' && s[9] == 'i' && s[10] == 'm' && s[11] == 'a' && s[12] == 'l' {
        48
    } else if s.len() == 14 && s[0] == 'k' && s[1] == 'e' && s[2] == 'y' && s[3] == 'p' && s[4] == 'a' && s[5] == 'd' && s[6] == 'm' && s[7] == 'u' && s[8] == 'l' && s[9] == 't' && s[10] == 'i' && s[11] == 'p' && s[12] == 'l' && s[13] == 'y' {
        49
    } else if s.len() == 10 && s[0] == 'k' && s[1] == 'e' && s[2] == 'y' && s[3] == 'p' && s[4] == 'a' && s[5] == 'd' && s[6] == 'p' && s[7] == 'l' && s[8] == 'u' && s[9] == 's' {
        50
    } else if s.len() == 11 && s[0] == 'k' && s[1] == 'e' && s[2] == 'y' && s[3] == 'p' && s[4] == 'a' && s[5] == 'd' && s[6] == 'c' && s[7] == 'l' && s[8] == 'e' && s[9] == 'a' && s[10] == 'r' {
        51
    } else if s.len() == 12 && s[0] == 'k' && s[1] == 'e' && s[2] == 'y' && s[3] == 'p' && s[4] == 'a' && s[5] == 'd' && s[6] == 'd' && s[7] == 'i' && s[8] == 'v' && s[9] == 'i' && s[10] == 'd' && s[11] == 'e' {
        52
    } else if s.len() == 11 && s[0] == 'k' && s[1] == 'e' && s[2] == 'y' && s[3] == 'p' && s[4] == 'a' && s[5] == 'd' && s[6] == 'e' && s[7] == 'n' && s[8] == 't' && s[9] == 'e' && s[10] == 'r' {
        53
    } else if s.len() == 11 && s[0] == 'k' && s[1] == 'e' && s[2] == 'y' && s[3] == 'p' && s[4] == 'a' && s[5] == 'd' && s[6] == 'm' && s[7] == 'i' && s[8] == 'n' && s[9] == 'u' && s[10] == 's' {
        54
    } else if s.len() == 12 && s[0] == 'k' && s[1] == 'e' && s[2] == 'y' && s[3] == 'p' && s[4] == 'a' && s[5] == 'd' && s[6] == 'e' && s[7] == 'q' && s[8] == 'u' && s[9] == 'a' && s[10] == 'l' && s[11] == 's' {
        55
    } else if s.len() == 7 && s[0] == 'k' && s[1] == 'e' && s[2] == 'y' && s[3] == 'p' && s[4] == 'a' && s[5] == 'd' && s[6] == '0' {
        56
    } else if s.len() == 7 && s[0] == 'k' && s[1] == 'e' && s[2] == 'y' && s[3] == 'p' && s[4] == 'a' && s[5] == 'd' && s[6] == '1' {
        57
    } else if s.len() == 7 && s[0] == 'k' && s[1] == 'e' && s[2] == 'y' && s[3] == 'p' && s[4] == 'a' && s[5] == 'd' && s[6] == '2' {
        58
    } else if s.len() == 7 && s[0] == 'k' && s[1] == 'e' && s[2] == 'y' && s[3] == 'p' && s[4] == 'a' && s[5] == 'd' && s[6] == '3' {
        59
    } else if s.len() == 7 && s[0] == 'k' && s[1] == 'e' && s[2] == 'y' && s[3] == 'p' && s[4] == 'a' && s[5] == 'd' && s[6] == '4' {
        60
    } else if s.len() == 7 && s[0] == 'k' && s[1] == 'e' && s[2] == 'y' && s[3] == 'p' && s[4] == 'a' && s[5] == 'd' && s[6] == '5' {
        61
    } else if s.len() == 7 && s[0] == 'k' && s[1] == 'e' && s[2] == 'y' && s[3] == 'p' && s[4] == 'a' && s[5] == 'd' && s[6] == '6' {
        62
    } else if s.len() == 7 && s[0] == 'k' && s[1] == 'e' && s[2] == 'y' && s[3] == 'p' && s[4] == 'a' && s[5] == 'd' && s[6] == '7' {
        63
    } else if s.len() == 7 && s[0] == 'k' && s[1] == 'e' && s[2] == 'y' && s[3] == 'p' && s[4] == 'a' && s[5] == 'd' && s[6] == '8' {
        64
    } else if s.len() == 7 && s[0] == 'k' && s[1] == 'e' && s[2] == 'y' && s[3] == 'p' && s[4] == 'a' && s[5] == 'd' && s[6] == '9' {
        65
    } else if s.len() == 6 && s[0] == 'r' && s[1] == 'e' && s[2] == 't' && s[3] == 'u' && s[4] == 'r' && s[5] == 'n' {
        66
    } else if s.len() == 3 && s[0] == 't' && s[1] == 'a' && s[2] == 'b' {
        67
    } else if s.len() == 5 && s[0] == 's' && s[1] == 'p' && s[2] == 'a' && s[3] == 'c' && s[4] == 'e' {
        68
    } else if s.len() == 6 && s[0] == 'd' && s[1] == 'e' && s[2] == 'l' && s[3] == 'e' && s[4] == 't' && s[5] == 'e' {
        69
    } else if s.len() == 6 && s[0] == 'e' && s[1] == 's' && s[2] == 'c' && s[3] == 'a' && s[4] == 'p' && s[5] == 'e' {
        70
    } else if s.len() == 7 && s[0] == 'c' && s[1] == 'o' && s[2] == 'm' && s[3] == 'm' && s[4] == 'a' && s[5] == 'n' && s[6] == 'd' {
        71
    } else if s.len() == 5 && s[0] == 's' && s[1] == 'h' && s[2] == 'i' && s[3] == 'f' && s[4] == 't' {
        72
    } else if s.len() == 8 && s[0] == 'c' && s[1] == 'a' && s[2] == 'p' && s[3] == 's' && s[4] == 'l' && s[5] == 'o' && s[6] == 'c' && s[7] == 'k' {
        73
    } else if s.len() == 6 && s[0] == 'o' && s[1] == 'p' && s[2] == 't' && s[3] == 'i' && s[4] == 'o' && s[5] == 'n' {
        74
    } else if s.len() == 7 && s[0] == 'c' && s[1] == 'o' && s[2] == 'n' && s[3] == 't' && s[4] == 'r' && s[5] == 'o' && s[6] == 'l' {
        75
    } else if s.len() == 12 && s[0] == 'r' && s[1] == 'i' && s[2] == 'g' && s[3] == 'h' && s[4] == 't' && s[5] == 'c' && s[6] == 'o' && s[7] == 'm' && s[8] == 'm' && s[9] == 'a' && s[10] == 'n' && s[11] == 'd' {
        76
    } else if s.len() == 10 && s[0] == 'r' && s[1] == 'i' && s[2] == 'g' && s[3] == 'h' && s[4] == 't' && s[5] == 's' && s[6] == 'h' && s[7] == 'i' && s[8] == 'f' && s[9] == 't' {
        77
    } else if s.len() == 11 && s[0] == 'r' && s[1] == 'i' && s[2] == 'g' && s[3] == 'h' && s[4] == 't' && s[5] == 'o' && s[6] == 'p' && s[7] == 't' && s[8] == 'i' && s[9] == 'o' && s[10] == 'n' {
        78
    } else if s.len() == 12 && s[0] == 'r' && s[1] == 'i' && s[2] == 'g' && s[3] == 'h' && s[4] == 't' && s[5] == 'c' && s[6] == 'o' && s[7] == 'n' && s[8] == 't' && s[9] == 'r' && s[10] == 'o' && s[11] == 'l' {
        79
    } else if s.len() == 8 && s[0] == 'f' && s[1] == 'u' && s[2] == 'n' && s[3] == 'c' && s[4] == 't' && s[5] == 'i' && s[6] == 'o' && s[7] == 'n' {
        80
    } else if s.len() == 3 && s[0] == 'f' && s[1] == '1' && s[2] == '7' {
        81
    } else if s.len() == 8 && s[0] == 'v' && s[1] == 'o' && s[2] == 'l' && s[3] == 'u' && s[4] == 'm' && s[5] == 'e' && s[6] == 'u' && s[7] == 'p' {
        82
    } else if s.len() == 10 && s[0] == 'v' && s[1] == 'o' && s[2] == 'l' && s[3] == 'u' && s[4] == 'm' && s[5] == 'e' && s[6] == 'd' && s[7] == 'o' && s[8] == 'w' && s[9] == 'n' {
        83
    } else if s.len() == 4 && s[0] == 'm' && s[1] == 'u' && s[2] == 't' && s[3] == 'e' {
        84
    } else if s.len() == 3 && s[0] == 'f' && s[1] == '1' && s[2] == '8' {
        85
    } else if s.len() == 3 && s[0] == 'f' && s[1] == '1' && s[2] == '9' {
        86
    } else if s.len() == 3 && s[0] == 'f' && s[1] == '2' && s[2] == '0' {
        87
    } else if s.len() == 2 && s[0] == 'f' && s[1] == '5' {
        88
    } else if s.len() == 2 && s[0] == 'f' && s[1] == '6' {
        89
    } else if s.len() == 2 && s[0] == 'f' && s[1] == '7' {
        90
    } else if s.len() == 2 && s[0] == 'f' && s[1] == '3' {
        91
    } else if s.len() == 2 && s[0] == 'f' && s[1] == '8' {
        92
    } else if s.len() == 2 && s[0] == 'f' && s[1] == '9' {
        93
    } else if s.len() == 3 && s[0] == 'f' && s[1] == '1' && s[2] == '1' {
        94
    } else if s.len() == 3 && s[0] == 'f' && s[1] == '1' && s[2] == '3' {
        95
    } else if s.len() == 3 && s[0] == 'f' && s[1] == '1' && s[2] == '6' {
        96
    } else if s.len() == 3 && s[0] == 'f' && s[1] == '1' && s[2] == '4' {
        97
    } else if s.len() == 3 && s[0] == 'f' && s[1] == '1' && s[2] == '0' {
        98
    } else if s.len() == 14 && s[0] == 'c' && s[1] == 'o' && s[2] == 'n' && s[3] == 't' && s[4] == 'e' && s[5] == 'x' && s[6] == 't' && s[7] == 'u' && s[8] == 'a' && s[9] == 'l' && s[10] == 'm' && s[11] == 'e' && s[12] == 'n' && s[13] == 'u' {
        99
    } else if s.len() == 3 && s[0] == 'f' && s[1] == '1' && s[2] == '2' {
        100
    } else if s.len() == 3 && s[0] == 'f' && s[1] == '1' && s[2] == '5' {
        101
    } else if s.len() == 4 && s[0] == 'h' && s[1] == 'e' && s[2] == 'l' && s[3] == 'p' {
        102
    } else if s.len() == 4 && s[0] == 'h' && s[1] == 'o' && s[2] == 'm' && s[3] == 'e' {
        103
    } else if s.len() == 6 && s[0] == 'p' && s[1] == 'a' && s[2] == 'g' && s[3] == 'e' && s[4] == 'u' && s[5] == 'p' {
        104
    } else if s.len() == 13 && s[0] == 'f' && s[1] == 'o' && s[2] == 'r' && s[3] == 'w' && s[4] == 'a' && s[5] == 'r' && s[6] == 'd' && s[7] == 'd' && s[8] == 'e' && s[9] == 'l' && s[10] == 'e' && s[11] == 't' && s[12] == 'e' {
        105
    } else if s.len() == 2 && s[0] == 'f' && s[1] == '4' {
        106
    } else if s.len() == 3 && s[0] == 'e' && s[1] == 'n' && s[2] == 'd' {
        107
    } else if s.len() == 2 && s[0] == 'f' && s[1] == '2' {
        108
    } else if s.len() == 8 && s[0] == 'p' && s[1] == 'a' && s[2] == 'g' && s[3] == 'e' && s[4] == 'd' && s[5] == 'o' && s[6] == 'w' && s[7] == 'n' {
        109
    } else if s.len() == 2 && s[0] == 'f' && s[1] == '1' {
        110
    } else if s.len() == 9 && s[0] == 'l' && s[1] == 'e' && s[2] == 'f' && s[3] == 't' && s[4] == 'a' && s[5] == 'r' && s[6] == 'r' && s[7] == 'o' && s[8] == 'w' {
        111
    } else if s.len() == 10 && s[0] == 'r' && s[1] == 'i' && s[2] == 'g' && s[3] == 'h' && s[4] == 't' && s[5] == 'a' && s[6] == 'r' && s[7] == 'r' && s[8] == 'o' && s[9] == 'w' {
        112
    } else if s.len() == 9 && s[0] == 'd' && s[1] == 'o' && s[2] == 'w' && s[3] == 'n' && s[4] == 'a' && s[5] == 'r' && s[6] == 'r' && s[7] == 'o' && s[8] == 'w' {
        113
    } else if s.len() == 7 && s[0] == 'u' && s[1] == 'p' && s[2] == 'a' && s[3] == 'r' && s[4] == 'r' && s[5] == 'o' && s[6] == 'w' {
        114
    } else {
        -1
    }
}

/// The position of a code among all keycode entries; -1 for any other
/// code.
spec fn key_code_slot(c: u8) -> int {
    if c == 0x00u8 {
        0
    } else if c == 0x01u8 {
        1
    } else if c == 0x02u8 {
        2
    } else if c == 0x03u8 {
        3
    } else if c == 0x04u8 {
        4
    } else if c == 0x05u8 {
        5
    } else if c == 0x06u8 {
        6
    } else if c == 0x07u8 {
        7
    } else if c == 0x08u8 {
        8
    } else if c == 0x09u8 {
        9
    } else if c == 0x0au8 {
        10
    } else if c == 0x0bu8 {
        11
    } else if c == 0x0cu8 {
        12
    } else if c == 0x0du8 {
        13
    } else if c == 0x0eu8 {
        14
    } else if c == 0x0fu8 {
        15
    } else if c == 0x10u8 {
        16
    } else if c == 0x11u8 {
        17
    } else if c == 0x12u8 {
        18
    } else if c == 0x13u8 {
        19
    } else if c == 0x14u8 {
        20
    } else if c == 0x15u8 {
        21
    } else if c == 0x16u8 {
        22
    } else if c == 0x17u8 {
        23
    } else if c == 0x18u8 {
        24
    } else if c == 0x19u8 {
        25
    } else if c == 0x1au8 {
        26
    } else if c == 0x1bu8 {
        27
    } else if c == 0x1cu8 {
        28
    } else if c == 0x1du8 {
        29
    } else if c == 0x1eu8 {
        30
    } else if c == 0x1fu8 {
        31
    } else if c == 0x20u8 {
        32
    } else if c == 0x21u8 {
        33
    } else if c == 0x22u8 {
        34
    } else if c == 0x23u8 {
        35
    } else if c == 0x25u8 {
        36
    } else if c == 0x26u8 {
        37
    } else if c == 0x27u8 {
        38
    } else if c == 0x28u8 {
        39
    } else if c == 0x29u8 {
        40
    } else if c == 0x2au8 {
        41
    } else if c == 0x2bu8 {
        42
    } else if c == 0x2cu8 {
        43
    } else if c == 0x2du8 {
        44
    } else if c == 0x2eu8 {
        45
    } else if c == 0x2fu8 {
        46
    } else if c == 0x32u8 {
        47
    } else if c == 0x41u8 {
        48
    } else if c == 0x43u8 {
        49
    } else if c == 0x45u8 {
        50
    } else if c == 0x47u8 {
        51
    } else if c == 0x4bu8 {
        52
    } else if c == 0x4cu8 {
        53
    } else if c == 0x4eu8 {
        54
    } else if c == 0x51u8 {
        55
    } else if c == 0x52u8 {
        56
    } else if c == 0x53u8 {
        57
    } else if c == 0x54u8 {
        58
    } else if c == 0x55u8 {
        59
    } else if c == 0x56u8 {
        60
    } else if c == 0x57u8 {
        61
    } else if c == 0x58u8 {
        62
    } else if c == 0x59u8 {
        63
    } else if c == 0x5bu8 {
        64
    } else if c == 0x5cu8 {
        65
    } else if c == 0x24u8 {
        66
    } else if c == 0x30u8 {
        67
    } else if c == 0x31u8 {
        68
    } else if c == 0x33u8 {
        69
    } else if c == 0x35u8 {
        70
    } else if c == 0x37u8 {
        71
    } else if c == 0x38u8 {
        72
    } else if c == 0x39u8 {
        73
    } else if c == 0x3au8 {
        74
    } else if c == 0x3bu8 {
        75
    } else if c == 0x36u8 {
        76
    } else if c == 0x3cu8 {
        77
    } else if c == 0x3du8 {
        78
    } else if c == 0x3eu8 {
        79
    } else if c == 0x3fu8 {
        80
    } else if c == 0x40u8 {
        81
    } else if c == 0x48u8 {
        82
    } else if c == 0x49u8 {
        83
    } else if c == 0x4au8 {
        84
    } else if c == 0x4fu8 {
        85
    } else if c == 0x50u8 {
        86
    } else if c == 0x5au8 {
        87
    } else if c == 0x60u8 {
        88
    } else if c == 0x61u8 {
        89
    } else if c == 0x62u8 {
        90
    } else if c == 0x63u8 {
        91
    } else if c == 0x64u8 {
        92
    } else if c == 0x65u8 {
        93
    } else if c == 0x67u8 {
        94
    } else if c == 0x69u8 {
        95
    } else if c == 0x6au8 {
        96
    } else if c == 0x6bu8 {
        97
    } else if c == 0x6du8 {
        98
    } else if c == 0x6eu8 {
        99
    } else if c == 0x6fu8 {
        100
    } else if c == 0x71u8 {
        101
    } else if c == 0x72u8 {
        102
    } else if c == 0x73u8 {
        103
    } else if c == 0x74u8 {
        104
    } else if c == 0x75u8 {
        105
    } else if c == 0x76u8 {
        106
    } else if c == 0x77u8 {
        107
    } else if c == 0x78u8 {
        108
    } else if c == 0x79u8 {
        109
    } else if c == 0x7au8 {
        110
    } else if c == 0x7bu8 {
        111
    } else if c == 0x7cu8 {
        112
    } else if c == 0x7du8 {
        113
    } else if c == 0x7eu8 {
        114
    } else {
        -1
    }
}

/// Whether no two entries of a table share a name, and no two share a code.
pub open spec fn entries_distinct(t: Seq<(Seq<char>, u8)>) -> bool {
    forall|i: int, j: int| 0 <= i < j < t.len() ==> #[trigger] t[i].0 != #[trigger] t[j].0 && t[i].1 != t[j].1
}

proof fn lemma_slots_exact(t: Seq<(Seq<char>, u8)>, i: int)
    requires
        t == static_table_view(spec_virtual_keycodes()) + static_table_view(spec_literal_keycodes()),
        0 <= i < t.len(),
    ensures
        key_name_slot(t[i].0) == i,
        key_code_slot(t[i].1) == i,
{
    reveal_strlit("a");
    reveal_strlit("s");
    reveal_strlit("d");
    reveal_strlit("f");
    reveal_strlit("h");
    reveal_strlit("g");
    reveal_strlit("z");
    reveal_strlit("x");
    reveal_strlit("c");
    reveal_strlit("v");
    reveal_strlit("section");
    reveal_strlit("b");
    reveal_strlit("q");
    reveal_strlit("w");
    reveal_strlit("e");
    reveal_strlit("r");
    reveal_strlit("y");
    reveal_strlit("t");
    reveal_strlit("1");
    reveal_strlit("2");
    reveal_strlit("3");
    reveal_strlit("4");
    reveal_strlit("6");
    reveal_strlit("5");
    reveal_strlit("equal");
    reveal_strlit("9");
    reveal_strlit("7");
    reveal_strlit("minus");
    reveal_strlit("8");
    reveal_strlit("0");
    reveal_strlit("rightbracket");
    reveal_strlit("o");
    reveal_strlit("u");
    reveal_strlit("leftbracket");
    reveal_strlit("i");
    reveal_strlit("p");
    reveal_strlit("l");
    reveal_strlit("j");
    reveal_strlit("quote");
    reveal_strlit("k");
    reveal_strlit("semicolon");
    reveal_strlit("backslash");
    reveal_strlit("comma");
    reveal_strlit("slash");
    reveal_strlit("n");
    reveal_strlit("m");
    reveal_strlit("period");
    reveal_strlit("grave");
    reveal_strlit("keypaddecimal");
    reveal_strlit("keypadmultiply");
    reveal_strlit("keypadplus");
    reveal_strlit("keypadclear");
    reveal_strlit("keypaddivide");
    reveal_strlit("keypadenter");
    reveal_strlit("keypadminus");
    reveal_strlit("keypadequals");
    reveal_strlit("keypad0");
    reveal_strlit("keypad1");
    reveal_strlit("keypad2");
    reveal_strlit("keypad3");
    reveal_strlit("keypad4");
    reveal_strlit("keypad5");
    reveal_strlit("keypad6");
    reveal_strlit("keypad7");
    reveal_strlit("keypad8");
    reveal_strlit("keypad9");
    reveal_strlit("return");
    reveal_strlit("tab");
    reveal_strlit("space");
    reveal_strlit("delete");
    reveal_strlit("escape");
    reveal_strlit("command");
    reveal_strlit("shift");
    reveal_strlit("capslock");
    reveal_strlit("option");
    reveal_strlit("control");
    reveal_strlit("rightcommand");
    reveal_strlit("rightshift");
    reveal_strlit("rightoption");
    reveal_strlit("rightcontrol");
    reveal_strlit("function");
    reveal_strlit("f17");
    reveal_strlit("volumeup");
    reveal_strlit("volumedown");
    reveal_strlit("mute");
    reveal_strlit("f18");
    reveal_strlit("f19");
    reveal_strlit("f20");
    reveal_strlit("f5");
    reveal_strlit("f6");
    reveal_strlit("f7");
    reveal_strlit("f3");
    reveal_strlit("f8");
    reveal_strlit("f9");
    reveal_strlit("f11");
    reveal_strlit("f13");
    reveal_strlit("f16");
    reveal_strlit("f14");
    reveal_strlit("f10");
    reveal_strlit("contextualmenu");
    reveal_strlit("f12");
    reveal_strlit("f15");
    reveal_strlit("help");
    reveal_strlit("home");
    reveal_strlit("pageup");
    reveal_strlit("forwarddelete");
    reveal_strlit("f4");
    reveal_strlit("end");
    reveal_strlit("f2");
    reveal_strlit("pagedown");
    reveal_strlit("f1");
    reveal_strlit("leftarrow");
    reveal_strlit("rightarrow");
    reveal_strlit("downarrow");
    reveal_strlit("uparrow");
    assert(t.len() == 115);
    if i == 0 {
        assert(t[0] == ("a"@, 0x00u8));
    } else if i == 1 {
        assert(t[1] == ("s"@, 0x01u8));
    } else if i == 2 {
        assert(t[2] == ("d"@, 0x02u8));
    } else if i == 3 {
        assert(t[3] == ("f"@, 0x03u8));
    } else if i == 4 {
        assert(t[4] == ("h"@, 0x04u8));
    } else if i == 5 {
        assert(t[5] == ("g"@, 0x05u8));
    } else if i == 6 {
        assert(t[6] == ("z"@, 0x06u8));
    } else if i == 7 {
        assert(t[7] == ("x"@, 0x07u8));
    } else if i == 8 {
        assert(t[8] == ("c"@, 0x08u8));
    } else if i == 9 {
        assert(t[9] == ("v"@, 0x09u8));
    } else if i == 10 {
        assert(t[10] == ("section"@, 0x0au8));
    } else if i == 11 {
        assert(t[11] == ("b"@, 0x0bu8));
    } else if i == 12 {
        assert(t[12] == ("q"@, 0x0cu8));
    } else if i == 13 {
        assert(t[13] == ("w"@, 0x0du8));
    } else if i == 14 {
        assert(t[14] == ("e"@, 0x0eu8));
    } else if i == 15 {
        assert(t[15] == ("r"@, 0x0fu8));
    } else if i == 16 {
        assert(t[16] == ("y"@, 0x10u8));
    } else if i == 17 {
        assert(t[17] == ("t"@, 0x11u8));
    } else if i == 18 {
        assert(t[18] == ("1"@, 0x12u8));
    } else if i == 19 {
        assert(t[19] == ("2"@, 0x13u8));
    } else if i == 20 {
        assert(t[20] == ("3"@, 0x14u8));
    } else if i == 21 {
        assert(t[21] == ("4"@, 0x15u8));
    } else if i == 22 {
        assert(t[22] == ("6"@, 0x16u8));
    } else if i == 23 {
        assert(t[23] == ("5"@, 0x17u8));
    } else if i == 24 {
        assert(t[24] == ("equal"@, 0x18u8));
    } else if i == 25 {
        assert(t[25] == ("9"@, 0x19u8));
    } else if i == 26 {
        assert(t[26] == ("7"@, 0x1au8));
    } else if i == 27 {
        assert(t[27] == ("minus"@, 0x1bu8));
    } else if i == 28 {
        assert(t[28] == ("8"@, 0x1cu8));
    } else if i == 29 {
        assert(t[29] == ("0"@, 0x1du8));
    } else if i == 30 {
        assert(t[30] == ("rightbracket"@, 0x1eu8));
    } else if i == 31 {
        assert(t[31] == ("o"@, 0x1fu8));
    } else if i == 32 {
        assert(t[32] == ("u"@, 0x20u8));
    } else if i == 33 {
        assert(t[33] == ("leftbracket"@, 0x21u8));
    } else if i == 34 {
        assert(t[34] == ("i"@, 0x22u8));
    } else if i == 35 {
        assert(t[35] == ("p"@, 0x23u8));
    } else if i == 36 {
        assert(t[36] == ("l"@, 0x25u8));
    } else if i == 37 {
        assert(t[37] == ("j"@, 0x26u8));
    } else if i == 38 {
        assert(t[38] == ("quote"@, 0x27u8));
    } else if i == 39 {
        assert(t[39] == ("k"@, 0x28u8));
    } else if i == 40 {
        assert(t[40] == ("semicolon"@, 0x29u8));
    } else if i == 41 {
        assert(t[41] == ("backslash"@, 0x2au8));
    } else if i == 42 {
        assert(t[42] == ("comma"@, 0x2bu8));
    } else if i == 43 {
        assert(t[43] == ("slash"@, 0x2cu8));
    } else if i == 44 {
        assert(t[44] == ("n"@, 0x2du8));
    } else if i == 45 {
        assert(t[45] == ("m"@, 0x2eu8));
    } else if i == 46 {
        assert(t[46] == ("period"@, 0x2fu8));
    } else if i == 47 {
        assert(t[47] == ("grave"@, 0x32u8));
    } else if i == 48 {
        assert(t[48] == ("keypaddecimal"@, 0x41u8));
    } else if i == 49 {
        assert(t[49] == ("keypadmultiply"@, 0x43u8));
    } else if i == 50 {
        assert(t[50] == ("keypadplus"@, 0x45u8));
    } else if i == 51 {
        assert(t[51] == ("keypadclear"@, 0x47u8));
    } else if i == 52 {
        assert(t[52] == ("keypaddivide"@, 0x4bu8));
    } else if i == 53 {
        assert(t[53] == ("keypadenter"@, 0x4cu8));
    } else if i == 54 {
        assert(t[54] == ("keypadminus"@, 0x4eu8));
    } else if i == 55 {
        assert(t[55] == ("keypadequals"@, 0x51u8));
    } else if i == 56 {
        assert(t[56] == ("keypad0"@, 0x52u8));
    } else if i == 57 {
        assert(t[57] == ("keypad1"@, 0x53u8));
    } else if i == 58 {
        assert(t[58] == ("keypad2"@, 0x54u8));
    } else if i == 59 {
        assert(t[59] == ("keypad3"@, 0x55u8));
    } else if i == 60 {
        assert(t[60] == ("keypad4"@, 0x56u8));
    } else if i == 61 {
        assert(t[61] == ("keypad5"@, 0x57u8));
    } else if i == 62 {
        assert(t[62] == ("keypad6"@, 0x58u8));
    } else if i == 63 {
        assert(t[63] == ("keypad7"@, 0x59u8));
    } else if i == 64 {
        assert(t[64] == ("keypad8"@, 0x5bu8));
    } else if i == 65 {
        assert(t[65] == ("keypad9"@, 0x5cu8));
    } else if i == 66 {
        assert(t[66] == ("return"@, 0x24u8));
    } else if i == 67 {
        assert(t[67] == ("tab"@, 0x30u8));
    } else if i == 68 {
        assert(t[68] == ("space"@, 0x31u8));
    } else if i == 69 {
        assert(t[69] == ("delete"@, 0x33u8));
    } else if i == 70 {
        assert(t[70] == ("escape"@, 0x35u8));
    } else if i == 71 {
        assert(t[71] == ("command"@, 0x37u8));
    } else if i == 72 {
        assert(t[72] == ("shift"@, 0x38u8));
    } else if i == 73 {
        assert(t[73] == ("capslock"@, 0x39u8));
    } else if i == 74 {
        assert(t[74] == ("option"@, 0x3au8));
    } else if i == 75 {
        assert(t[75] == ("control"@, 0x3bu8));
    } else if i == 76 {
        assert(t[76] == ("rightcommand"@, 0x36u8));
    } else if i == 77 {
        assert(t[77] == ("rightshift"@, 0x3cu8));
    } else if i == 78 {
        assert(t[78] == ("rightoption"@, 0x3du8));
    } else if i == 79 {
        assert(t[79] == ("rightcontrol"@, 0x3eu8));
    } else if i == 80 {
        assert(t[80] == ("function"@, 0x3fu8));
    } else if i == 81 {
        assert(t[81] == ("f17"@, 0x40u8));
    } else if i == 82 {
        assert(t[82] == ("volumeup"@, 0x48u8));
    } else if i == 83 {
        assert(t[83] == ("volumedown"@, 0x49u8));
    } else if i == 84 {
        assert(t[84] == ("mute"@, 0x4au8));
    } else if i == 85 {
        assert(t[85] == ("f18"@, 0x4fu8));
    } else if i == 86 {
        assert(t[86] == ("f19"@, 0x50u8));
    } else if i == 87 {
        assert(t[87] == ("f20"@, 0x5au8));
    } else if i == 88 {
        assert(t[88] == ("f5"@, 0x60u8));
    } else if i == 89 {
        assert(t[89] == ("f6"@, 0x61u8));
    } else if i == 90 {
        assert(t[90] == ("f7"@, 0x62u8));
    } else if i == 91 {
        assert(t[91] == ("f3"@, 0x63u8));
    } else if i == 92 {
        assert(t[92] == ("f8"@, 0x64u8));
    } else if i == 93 {
        assert(t[93] == ("f9"@, 0x65u8));
    } else if i == 94 {
        assert(t[94] == ("f11"@, 0x67u8));
    } else if i == 95 {
        assert(t[95] == ("f13"@, 0x69u8));
    } else if i == 96 {
        assert(t[96] == ("f16"@, 0x6au8));
    } else if i == 97 {
        assert(t[97] == ("f14"@, 0x6bu8));
    } else if i == 98 {
        assert(t[98] == ("f10"@, 0x6du8));
    } else if i == 99 {
        assert(t[99] == ("contextualmenu"@, 0x6eu8));
    } else if i == 100 {
        assert(t[100] == ("f12"@, 0x6fu8));
    } else if i == 101 {
        assert(t[101] == ("f15"@, 0x71u8));
    } else if i == 102 {
        assert(t[102] == ("help"@, 0x72u8));
    } else if i == 103 {
        assert(t[103] == ("home"@, 0x73u8));
    } else if i == 104 {
        assert(t[104] == ("pageup"@, 0x74u8));
    } else if i == 105 {
        assert(t[105] == ("forwarddelete"@, 0x75u8));
    } else if i == 106 {
        assert(t[106] == ("f4"@, 0x76u8));
    } else if i == 107 {
        assert(t[107] == ("end"@, 0x77u8));
    } else if i == 108 {
        assert(t[108] == ("f2"@, 0x78u8));
    } else if i == 109 {
        assert(t[109] == ("pagedown"@, 0x79u8));
    } else if i == 110 {
        assert(t[110] == ("f1"@, 0x7au8));
    } else if i == 111 {
        assert(t[111] == ("leftarrow"@, 0x7bu8));
    } else if i == 112 {
        assert(t[112] == ("rightarrow"@, 0x7cu8));
    } else if i == 113 {
        assert(t[113] == ("downarrow"@, 0x7du8));
    } else if i == 114 {
        assert(t[114] == ("uparrow"@, 0x7eu8));
    }
}

/// Law: the two keycode tables have 66 and 49 entries; within each and
/// across both, no name and no code occurs twice, so a key name finds one
/// code and a code one key name.
pub proof fn lemma_keycode_tables_distinct()
    ensures
        spec_virtual_keycodes().len() == 66,
        spec_literal_keycodes().len() == 49,
        entries_distinct(static_table_view(spec_virtual_keycodes()) + static_table_view(spec_literal_keycodes())),
{
    let t = static_table_view(spec_virtual_keycodes()) + static_table_view(spec_literal_keycodes());
    assert forall|i: int, j: int| 0 <= i < j < t.len() implies #[trigger] t[i].0 != #[trigger] t[j].0 && t[i].1
        != t[j].1 by {
        lemma_slots_exact(t, i);
        lemma_slots_exact(t, j);
    }
}

/// The `(binding name, shortcut text)` pairs of a bindings table, entry by
/// entry and, within an entry, text by text.
pub open spec fn binding_pairs(b: Seq<(String, Vec<String>)>) -> Seq<(Seq<char>, Seq<char>)>
    decreases b.len(),
{
    if b.len() == 0 {
        seq![]
    } else {
        binding_pairs(b.drop_last()) + b.last().1@.map_values(|t: String| (b.last().0@, t@))
    }
}

/// Whether `k` is the binding that the pair `(name, text)` resolves to.
pub open spec fn resolves_to(
    k: Keybinding,
    pair: (Seq<char>, Seq<char>),
    virtual_keys: Seq<(String, u8)>,
    execs: Seq<(Seq<char>, Seq<char>)>,
) -> bool {
    &&& spec_parse_keybinding(pair.1) == Some((k.key@, k.modifiers))
    &&& spec_binding_command(pair.0, execs) == Some(k.command@)
    &&& k.code == match spec_keycode(virtual_keys, k.key@) {
        Some(c) => c,
        None => 0u8,
    }
}

/// Whether `k` is the first position of `pairs` whose text is no shortcut.
pub open spec fn first_bad_text(pairs: Seq<(Seq<char>, Seq<char>)>, k: int) -> bool {
    &&& 0 <= k < pairs.len()
    &&& spec_parse_keybinding(pairs[k].1) is None
    &&& forall|j: int| 0 <= j < k ==> spec_parse_keybinding(#[trigger] pairs[j].1) is Some
}

/// Whether `k` is the first position of `pairs` whose name binds no command.
pub open spec fn first_bad_name(pairs: Seq<(Seq<char>, Seq<char>)>, execs: Seq<(Seq<char>, Seq<char>)>, k: int) -> bool {
    &&& 0 <= k < pairs.len()
    &&& spec_binding_command(pairs[k].0, execs) is None
    &&& forall|j: int| 0 <= j < k ==> spec_binding_command(#[trigger] pairs[j].0, execs) is Some
}

/// Resolves a bindings table (each command name with its shortcut texts)
/// into keybindings, pair by pair. Every text is read first; the first text
/// that is no shortcut is the error. Then every name is resolved; the first
/// name that binds no command is the error.
pub fn resolve_keybindings(
    bindings: &Vec<(String, Vec<String>)>,
    virtual_keys: &Vec<(String, u8)>,
    execs: &Vec<(String, String)>,
) -> (r: Result<Vec<Keybinding>, Error>)
    ensures
        ({
            let pairs = binding_pairs(bindings@);
            let ex = execs_view(execs@);
            match r {
                Ok(v) => v@.len() == pairs.len() && forall|k: int|
                    0 <= k < pairs.len() ==> resolves_to(#[trigger] v@[k], pairs[k], virtual_keys@, ex),
                Err(e) => if exists|k: int| 0 <= k < pairs.len() && spec_parse_keybinding(#[trigger] pairs[k].1) is None {
                    exists|k: int| first_bad_text(pairs, k) && message(e) == keybinding_error(#[trigger] pairs[k].1)
                } else {
                    exists|k: int| first_bad_name(pairs, ex, k) && message(e) == binding_error(#[trigger] pairs[k].0)
                },
            }
        }),
{
    let ghost pairs = binding_pairs(bindings@);
    let ghost ex = execs_view(execs@);
    // Flatten the table into (entry, text) positions.
    let mut flat: Vec<(usize, usize)> = Vec::new();
    let mut i: usize = 0;
    assert(bindings@.take(0) =~= Seq::<(String, Vec<String>)>::empty());
    while i < bindings.len()
        invariant
            i <= bindings@.len(),
            flat@.len() == binding_pairs(bindings@.take(i as int)).len(),
            forall|k: int|
                0 <= k < flat@.len() ==> {
                    let (a, b) = #[trigger] flat@[k];
                    &&& a < bindings@.len()
                    &&& b < bindings@[a as int].1@.len()
                    &&& binding_pairs(bindings@.take(i as int))[k] == (bindings@[a as int].0@, bindings@[a as int].1@[b as int]@)
                },
        decreases bindings@.len() - i,
    {
        let ghost before = binding_pairs(bindings@.take(i as int));
        let ghost add = bindings@[i as int].1@.map_values(|t: String| (bindings@[i as int].0@, t@));
        assert(bindings@.take(i as int + 1).drop_last() =~= bindings@.take(i as int));
        assert(bindings@.take(i as int + 1).last() == bindings@[i as int]);
        assert(binding_pairs(bindings@.take(i as int + 1)) == before + add);
        let mut j: usize = 0;
        while j < bindings[i].1.len()
            invariant
                i < bindings@.len(),
                j <= bindings@[i as int].1@.len(),
                add == bindings@[i as int].1@.map_values(|t: String| (bindings@[i as int].0@, t@)),
                flat@.len() == before.len() + j,
                forall|k: int|
                    0 <= k < flat@.len() ==> {
                        let (a, b) = #[trigger] flat@[k];
                        &&& a < bindings@.len()
                        &&& b < bindings@[a as int].1@.len()
                        &&& (before + add)[k] == (bindings@[a as int].0@, bindings@[a as int].1@[b as int]@)
                    },
            decreases bindings@[i as int].1@.len() - j,
        {
            let ghost old_flat = flat@;
            flat.push((i, j));
            assert forall|k: int| 0 <= k < flat@.len() implies {
                let (a, b) = #[trigger] flat@[k];
                &&& a < bindings@.len()
                &&& b < bindings@[a as int].1@.len()
                &&& (before + add)[k] == (bindings@[a as int].0@, bindings@[a as int].1@[b as int]@)
            } by {
                if k < old_flat.len() {
                    assert(flat@[k] == old_flat[k]);
                }
            }
            j = j + 1;
        }
        i = i + 1;
    }
    assert(bindings@.take(bindings@.len() as int) =~= bindings@);
    // Read every shortcut text.
    let mut parsed: Vec<Keybinding> = Vec::new();
    let mut k: usize = 0;
    while k < flat.len()
        invariant
            k <= flat@.len(),
            flat@.len() == pairs.len(),
            pairs == binding_pairs(bindings@),
            forall|m: int|
                0 <= m < flat@.len() ==> {
                    let (a, b) = #[trigger] flat@[m];
                    &&& a < bindings@.len()
                    &&& b < bindings@[a as int].1@.len()
                    &&& pairs[m] == (bindings@[a as int].0@, bindings@[a as int].1@[b as int]@)
                },
            parsed@.len() == k,
            forall|m: int| 0 <= m < k ==> spec_parse_keybinding(#[trigger] pairs[m].1) is Some,
            forall|m: int|
                0 <= m < k ==> {
                    &&& spec_parse_keybinding(pairs[m].1) == Some(((#[trigger] parsed@[m]).key@, parsed@[m].modifiers))
                    &&& parsed@[m].code == 0
                },
        decreases flat@.len() - k,
    {
        let (a, b) = flat[k];
        assert(pairs[k as int] == (bindings@[a as int].0@, bindings@[a as int].1@[b as int]@));
        match parse_keybinding(bindings[a].1[b].as_str()) {
            Ok(kb) => {
                parsed.push(kb);
            },
            Err(e) => {
                assert(first_bad_text(pairs, k as int));
                assert(spec_parse_keybinding(pairs[k as int].1) is None);
                return Err(e);
            },
        }
        k = k + 1;
    }
    assert(forall|m: int| 0 <= m < pairs.len() ==> spec_parse_keybinding(#[trigger] pairs[m].1) is Some);
    // Resolve every name.
    let mut out: Vec<Keybinding> = Vec::new();
    let mut k: usize = 0;
    while k < flat.len()
        invariant
            k <= flat@.len(),
            flat@.len() == pairs.len(),
            parsed@.len() == pairs.len(),
            pairs == binding_pairs(bindings@),
            ex == execs_view(execs@),
            forall|m: int|
                0 <= m < flat@.len() ==> {
                    let (a, b) = #[trigger] flat@[m];
                    &&& a < bindings@.len()
                    &&& b < bindings@[a as int].1@.len()
                    &&& pairs[m] == (bindings@[a as int].0@, bindings@[a as int].1@[b as int]@)
                },
            forall|m: int|
                0 <= m < pairs.len() ==> {
                    &&& spec_parse_keybinding(pairs[m].1) == Some(((#[trigger] parsed@[m]).key@, parsed@[m].modifiers))
                    &&& parsed@[m].code == 0
                },
            forall|m: int| 0 <= m < pairs.len() ==> spec_parse_keybinding(#[trigger] pairs[m].1) is Some,
            out@.len() == k,
            forall|m: int| 0 <= m < k ==> resolves_to(#[trigger] out@[m], pairs[m], virtual_keys@, ex),
            forall|m: int| 0 <= m < k ==> spec_binding_command(#[trigger] pairs[m].0, ex) is Some,
        decreases flat@.len() - k,
    {
        let (a, b) = flat[k];
        assert(pairs[k as int] == (bindings@[a as int].0@, bindings@[a as int].1@[b as int]@));
        let mut kb = Keybinding {
            key: parsed[k].key.clone(),
            code: 0,
            modifiers: parsed[k].modifiers,
            command: Command::Quit,
        };
        match resolve_binding(bindings[a].0.as_str(), &mut kb, virtual_keys, execs) {
            Ok(()) => {
                out.push(kb);
            },
            Err(e) => {
                assert(first_bad_name(pairs, ex, k as int));
                return Err(e);
            },
        }
        k = k + 1;
    }
    Ok(out)
}

/// Whether binding `b` fires for a key press: its key code is the pressed
/// one and it names exactly the held modifiers, no more and no fewer.
pub open spec fn fires_for(b: Keybinding, keycode: u8, mask: Modifiers) -> bool {
    &&& b.code == keycode
    &&& b.modifiers.alt == mask.alt
    &&& b.modifiers.shift == mask.shift
    &&& b.modifiers.cmd == mask.cmd
    &&& b.modifiers.ctrl == mask.ctrl
}

/// Law: a key press runs the command of the first binding whose code is the
/// pressed key and whose modifiers equal the held ones exactly (a binding
/// with fewer modifiers does not fire), and nothing when no binding does.
pub proof fn lemma_keybind_exact_match(bindings: Seq<Keybinding>, keycode: u8, mask: Modifiers)
    ensures
        match spec_find_keybind(bindings, keycode, mask) {
            Some(c) => exists|i: int|
                0 <= i < bindings.len() && fires_for(#[trigger] bindings[i], keycode, mask) && bindings[i].command@ == c
                    && forall|j: int| 0 <= j < i ==> !fires_for(#[trigger] bindings[j], keycode, mask),
            None => forall|i: int| 0 <= i < bindings.len() ==> !fires_for(#[trigger] bindings[i], keycode, mask),
        },
    decreases bindings.len(),
{
    if bindings.len() > 0 {
        let rest = bindings.drop_first();
        lemma_keybind_exact_match(rest, keycode, mask);
        let b0 = bindings[0];
        assert(fires_for(b0, keycode, mask) <==> (b0.code == keycode && b0.modifiers == mask));
        if fires_for(b0, keycode, mask) {
            assert(fires_for(bindings[0], keycode, mask));
        } else {
            match spec_find_keybind(rest, keycode, mask) {
                Some(c) => {
                    let i = choose|i: int|
                        0 <= i < rest.len() && fires_for(#[trigger] rest[i], keycode, mask) && rest[i].command@ == c
                            && forall|j: int| 0 <= j < i ==> !fires_for(#[trigger] rest[j], keycode, mask);
                    assert(bindings[i + 1] == rest[i]);
                    assert forall|j: int| 0 <= j < i + 1 implies !fires_for(#[trigger] bindings[j], keycode, mask) by {
                        if j > 0 {
                            assert(bindings[j] == rest[j - 1]);
                        }
                    }
                },
                None => {
                    assert forall|i: int| 0 <= i < bindings.len() implies !fires_for(#[trigger] bindings[i], keycode, mask) by {
                        if i > 0 {
                            assert(bindings[i] == rest[i - 1]);
                        }
                    }
                },
            }
        }
    }
}

} // verus!
