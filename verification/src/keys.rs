use vstd::prelude::*;

use crate::text::{chars_of, digit_char, nat_to_decimal, nat_to_decimal_bytes, push_decimal_bytes};

verus! {

// Private-use code points that the windowing toolkit sends for named keys.
pub const KEY_BACKSPACE: char = '\u{0008}';
pub const KEY_TAB: char = '\u{0009}';
pub const KEY_RETURN: char = '\u{000a}';
pub const KEY_ESCAPE: char = '\u{001b}';
pub const KEY_BACKTAB: char = '\u{0019}';
pub const KEY_DELETE: char = '\u{007f}';
pub const KEY_UP: char = '\u{F700}';
pub const KEY_DOWN: char = '\u{F701}';
pub const KEY_LEFT: char = '\u{F702}';
pub const KEY_RIGHT: char = '\u{F703}';
pub const KEY_F1: char = '\u{F704}';
pub const KEY_F2: char = '\u{F705}';
pub const KEY_F3: char = '\u{F706}';
pub const KEY_F4: char = '\u{F707}';
pub const KEY_F5: char = '\u{F708}';
pub const KEY_F6: char = '\u{F709}';
pub const KEY_F7: char = '\u{F70A}';
pub const KEY_F8: char = '\u{F70B}';
pub const KEY_F9: char = '\u{F70C}';
pub const KEY_F10: char = '\u{F70D}';
pub const KEY_F11: char = '\u{F70E}';
pub const KEY_F12: char = '\u{F70F}';
pub const KEY_INSERT: char = '\u{F727}';
pub const KEY_HOME: char = '\u{F729}';
pub const KEY_END: char = '\u{F72B}';
pub const KEY_PAGE_UP: char = '\u{F72C}';
pub const KEY_PAGE_DOWN: char = '\u{F72D}';

pub const ESC: u8 = 0x1b;

/// The keyboard conventions of the host: on macOS the key that the toolkit reports as
/// `control` is the Command key and `meta` is the Control key; elsewhere they are what they say.
#[derive(Debug, Clone, Copy, PartialEq, Eq, Structural)]
pub enum KeyPlatform {
    MacOs,
    Other,
}

/// Modifier keys held with a key press, as the toolkit reports them.
#[derive(Debug, Clone, Copy, Default, PartialEq, Eq, Structural)]
pub struct TerminalKeyModifiers {
    pub alt: bool,
    pub control: bool,
    pub shift: bool,
    pub meta: bool,
}

impl TerminalKeyModifiers {
    pub open spec fn spec_terminal_control(self, platform: KeyPlatform) -> bool {
        match platform {
            KeyPlatform::MacOs => self.meta,
            KeyPlatform::Other => self.control,
        }
    }

    pub open spec fn spec_command_modifier(self, platform: KeyPlatform) -> bool {
        match platform {
            KeyPlatform::MacOs => self.control,
            KeyPlatform::Other => self.meta,
        }
    }

    /// Whether the key that sends terminal control characters is held.
    pub fn terminal_control(self, platform: KeyPlatform) -> (b: bool)
        ensures
            b == self.spec_terminal_control(platform),
    {
        match platform {
            KeyPlatform::MacOs => self.meta,
            KeyPlatform::Other => self.control,
        }
    }

    /// Whether the application command key (Command on macOS, Super elsewhere) is held.
    pub fn command_modifier(self, platform: KeyPlatform) -> (b: bool)
        ensures
            b == self.spec_command_modifier(platform),
    {
        match platform {
            KeyPlatform::MacOs => self.control,
            KeyPlatform::Other => self.meta,
        }
    }
}

/// The command key and the terminal control key are different keys on every platform:
/// holding just one of the two toolkit keys (`control`, `meta`) makes exactly one of them
/// held.
pub proof fn lemma_command_is_not_terminal_control(m: TerminalKeyModifiers, platform: KeyPlatform)
    ensures
        m.control != m.meta ==> m.spec_terminal_control(platform) != m.spec_command_modifier(
            platform,
        ),
        m.spec_terminal_control(platform) || m.spec_command_modifier(platform) <==> (m.control
            || m.meta),
{
}

/// The xterm modifier parameter: 1 + 1 for Shift + 2 for Alt + 4 for Control, present only
/// when some modifier is held.
pub open spec fn xterm_modifier_spec(m: TerminalKeyModifiers, platform: KeyPlatform) -> Option<
    nat,
> {
    let v: nat = 1 + (if m.shift {
        1nat
    } else {
        0nat
    }) + (if m.alt {
        2nat
    } else {
        0nat
    }) + (if m.spec_terminal_control(platform) {
        4nat
    } else {
        0nat
    });
    if v > 1 {
        Some(v)
    } else {
        None
    }
}

/// `ESC [ 1 ; <modifier> <suffix>`.
pub open spec fn csi_one_modified(modifier: nat, suffix: u8) -> Seq<u8> {
    seq![ESC, 91u8, 49u8, 59u8] + nat_to_decimal_bytes(modifier) + seq![suffix]
}

/// A cursor key: `ESC [ 1 ; m X` when modified, else `ESC O X` in application cursor mode and
/// `ESC [ X` otherwise.
pub open spec fn cursor_key_spec(
    app_cursor: bool,
    suffix: u8,
    m: TerminalKeyModifiers,
    platform: KeyPlatform,
) -> Seq<u8> {
    match xterm_modifier_spec(m, platform) {
        Some(k) => csi_one_modified(k, suffix),
        None => if app_cursor {
            seq![ESC, 79u8, suffix]
        } else {
            seq![ESC, 91u8, suffix]
        },
    }
}

/// Home and End: `ESC [ 1 ; m X` when modified, else `ESC [ X`.
pub open spec fn home_end_key_spec(suffix: u8, m: TerminalKeyModifiers, platform: KeyPlatform) -> Seq<
    u8,
> {
    match xterm_modifier_spec(m, platform) {
        Some(k) => csi_one_modified(k, suffix),
        None => seq![ESC, 91u8, suffix],
    }
}

/// Keys of the form `ESC [ n ~`, with `; m` before the tilde when modified.
pub open spec fn csi_tilde_key_spec(number: u8, m: TerminalKeyModifiers, platform: KeyPlatform) -> Seq<
    u8,
> {
    match xterm_modifier_spec(m, platform) {
        Some(k) => seq![ESC, 91u8] + nat_to_decimal_bytes(number as nat) + seq![59u8]
            + nat_to_decimal_bytes(k) + seq![126u8],
        None => seq![ESC, 91u8] + nat_to_decimal_bytes(number as nat) + seq![126u8],
    }
}

/// F1 to F4: `ESC O X`, or `ESC [ 1 ; m X` when modified.
pub open spec fn function_key_spec(ss3_suffix: u8, m: TerminalKeyModifiers, platform: KeyPlatform) -> Seq<
    u8,
> {
    match xterm_modifier_spec(m, platform) {
        Some(k) => csi_one_modified(k, ss3_suffix),
        None => seq![ESC, 79u8, ss3_suffix],
    }
}

/// The bytes a named key sends, for a key text of exactly one character.
pub open spec fn special_key_spec(
    text: Seq<char>,
    m: TerminalKeyModifiers,
    app_cursor: bool,
    platform: KeyPlatform,
) -> Option<Seq<u8>> {
    if text.len() != 1 {
        None
    } else {
        let key = text[0];
        if key == KEY_RETURN {
            Some(seq![13u8])
        } else if key == KEY_BACKSPACE {
            Some(seq![0x7fu8])
        } else if key == KEY_TAB {
            Some(
                if m.shift {
                    seq![ESC, 91u8, 90u8]
                } else {
                    seq![9u8]
                },
            )
        } else if key == KEY_BACKTAB {
            Some(seq![ESC, 91u8, 90u8])
        } else if key == KEY_ESCAPE {
            Some(seq![ESC])
        } else if key == KEY_UP {
            Some(cursor_key_spec(app_cursor, 65u8, m, platform))
        } else if key == KEY_DOWN {
            Some(cursor_key_spec(app_cursor, 66u8, m, platform))
        } else if key == KEY_RIGHT {
            Some(cursor_key_spec(app_cursor, 67u8, m, platform))
        } else if key == KEY_LEFT {
            Some(cursor_key_spec(app_cursor, 68u8, m, platform))
        } else if key == KEY_HOME {
            Some(home_end_key_spec(72u8, m, platform))
        } else if key == KEY_END {
            Some(home_end_key_spec(70u8, m, platform))
        } else if key == KEY_INSERT {
            Some(csi_tilde_key_spec(2, m, platform))
        } else if key == KEY_DELETE {
            Some(csi_tilde_key_spec(3, m, platform))
        } else if key == KEY_PAGE_UP {
            Some(csi_tilde_key_spec(5, m, platform))
        } else if key == KEY_PAGE_DOWN {
            Some(csi_tilde_key_spec(6, m, platform))
        } else if key == KEY_F1 {
            Some(function_key_spec(80u8, m, platform))
        } else if key == KEY_F2 {
            Some(function_key_spec(81u8, m, platform))
        } else if key == KEY_F3 {
            Some(function_key_spec(82u8, m, platform))
        } else if key == KEY_F4 {
            Some(function_key_spec(83u8, m, platform))
        } else if key == KEY_F5 {
            Some(csi_tilde_key_spec(15, m, platform))
        } else if key == KEY_F6 {
            Some(csi_tilde_key_spec(17, m, platform))
        } else if key == KEY_F7 {
            Some(csi_tilde_key_spec(18, m, platform))
        } else if key == KEY_F8 {
            Some(csi_tilde_key_spec(19, m, platform))
        } else if key == KEY_F9 {
            Some(csi_tilde_key_spec(20, m, platform))
        } else if key == KEY_F10 {
            Some(csi_tilde_key_spec(21, m, platform))
        } else if key == KEY_F11 {
            Some(csi_tilde_key_spec(23, m, platform))
        } else if key == KEY_F12 {
            Some(csi_tilde_key_spec(24, m, platform))
        } else {
            None
        }
    }
}

/// The control byte that Control plus a one-character key text sends.
pub open spec fn ctrl_byte_spec(ch: char) -> Option<u8> {
    if 'a' <= ch && ch <= 'z' {
        Some(((ch as u32) - ('a' as u32) + 1) as u8)
    } else if 'A' <= ch && ch <= 'Z' {
        Some(((ch as u32) - ('A' as u32) + 1) as u8)
    } else if ch == ' ' || ch == '@' || ch == '`' {
        Some(0u8)
    } else if ch == '[' || ch == '{' || ch == KEY_ESCAPE {
        Some(0x1bu8)
    } else if ch == '\\' || ch == '|' {
        Some(0x1cu8)
    } else if ch == ']' || ch == '}' {
        Some(0x1du8)
    } else if ch == '^' || ch == '~' {
        Some(0x1eu8)
    } else if ch == '_' {
        Some(0x1fu8)
    } else if ch == '?' || ch == KEY_BACKSPACE || ch == KEY_DELETE {
        Some(0x7fu8)
    } else {
        None
    }
}

/// Control with a letter sends the same byte whatever the letter's case: 1 for `a`, up to
/// 26 for `z`.
pub proof fn lemma_ctrl_letter_ignores_case(lower: char)
    requires
        'a' <= lower <= 'z',
    ensures
        ctrl_byte_spec(lower) == Some(((lower as u32) - 96) as u8),
        ctrl_byte_spec(((lower as u32) - 32) as char) == ctrl_byte_spec(lower),
        1 <= (lower as u32) - 96 <= 26,
{
    let upper = ((lower as u32) - 32) as char;
    assert(upper as u32 == (lower as u32) - 32);
    assert('A' <= upper && upper <= 'Z');
}

pub open spec fn ctrl_sequence_spec(text: Seq<char>) -> Option<Seq<u8>> {
    if text.len() != 1 {
        None
    } else {
        match ctrl_byte_spec(text[0]) {
            Some(b) => Some(seq![b]),
            None => None,
        }
    }
}

/// The xterm modifier parameter of a key press, if any modifier is held.
pub fn xterm_modifier(m: TerminalKeyModifiers, platform: KeyPlatform) -> (r: Option<u8>)
    ensures
        match xterm_modifier_spec(m, platform) {
            Some(k) => r == Some(k as u8) && k < 16,
            None => r is None,
        },
{
    let mut modifier: u8 = 1;
    if m.shift {
        modifier = modifier + 1;
    }
    if m.alt {
        modifier = modifier + 2;
    }
    if m.terminal_control(platform) {
        modifier = modifier + 4;
    }
    if modifier > 1 {
        Some(modifier)
    } else {
        None
    }
}

fn push_csi_one_modified(v: &mut Vec<u8>, modifier: u8, suffix: u8)
    ensures
        final(v)@ == old(v)@ + csi_one_modified(modifier as nat, suffix),
{
    v.push(ESC);
    v.push(91u8);
    v.push(49u8);
    v.push(59u8);
    push_decimal_bytes(v, modifier as u64);
    v.push(suffix);
    assert(final(v)@ =~= old(v)@ + csi_one_modified(modifier as nat, suffix));
}

/// The bytes of a cursor key.
pub fn cursor_key(app_cursor: bool, suffix: u8, m: TerminalKeyModifiers, platform: KeyPlatform) -> (v:
    Vec<u8>)
    ensures
        v@ == cursor_key_spec(app_cursor, suffix, m, platform),
{
    let mut v: Vec<u8> = Vec::new();
    match xterm_modifier(m, platform) {
        Some(k) => {
            push_csi_one_modified(&mut v, k, suffix);
        },
        None => {
            v.push(ESC);
            v.push(if app_cursor {
                79u8
            } else {
                91u8
            });
            v.push(suffix);
        },
    }
    assert(v@ =~= cursor_key_spec(app_cursor, suffix, m, platform));
    v
}

/// The bytes of Home or End.
pub fn home_end_key(suffix: u8, m: TerminalKeyModifiers, platform: KeyPlatform) -> (v: Vec<u8>)
    ensures
        v@ == home_end_key_spec(suffix, m, platform),
{
    let mut v: Vec<u8> = Vec::new();
    match xterm_modifier(m, platform) {
        Some(k) => {
            push_csi_one_modified(&mut v, k, suffix);
        },
        None => {
            v.push(ESC);
            v.push(91u8);
            v.push(suffix);
        },
    }
    assert(v@ =~= home_end_key_spec(suffix, m, platform));
    v
}

/// The bytes of a key of the form `ESC [ n ~`.
pub fn csi_tilde_key(number: u8, m: TerminalKeyModifiers, platform: KeyPlatform) -> (v: Vec<u8>)
    ensures
        v@ == csi_tilde_key_spec(number, m, platform),
{
    let mut v: Vec<u8> = Vec::new();
    v.push(ESC);
    v.push(91u8);
    push_decimal_bytes(&mut v, number as u64);
    match xterm_modifier(m, platform) {
        Some(k) => {
            v.push(59u8);
            push_decimal_bytes(&mut v, k as u64);
        },
        None => {},
    }
    v.push(126u8);
    assert(v@ =~= csi_tilde_key_spec(number, m, platform));
    v
}

/// The bytes of F1 to F4.
pub fn function_key(ss3_suffix: u8, m: TerminalKeyModifiers, platform: KeyPlatform) -> (v: Vec<u8>)
    ensures
        v@ == function_key_spec(ss3_suffix, m, platform),
{
    let mut v: Vec<u8> = Vec::new();
    match xterm_modifier(m, platform) {
        Some(k) => {
            push_csi_one_modified(&mut v, k, ss3_suffix);
        },
        None => {
            v.push(ESC);
            v.push(79u8);
            v.push(ss3_suffix);
        },
    }
    assert(v@ =~= function_key_spec(ss3_suffix, m, platform));
    v
}

/// The bytes a named key sends, or `None` when `text` is not exactly one named key.
pub fn special_key_sequence(
    text: &str,
    m: TerminalKeyModifiers,
    app_cursor: bool,
    platform: KeyPlatform,
) -> (r: Option<Vec<u8>>)
    ensures
        match special_key_spec(text@, m, app_cursor, platform) {
            Some(s) => r matches Some(v) && v@ == s,
            None => r is None,
        },
{
    let chars = chars_of(text);
    if chars.len() != 1 {
        return None;
    }
    let key = chars[0];
    if key == KEY_RETURN {
        let v = vec![13u8];
        assert(v@ =~= seq![13u8]);
        Some(v)
    } else if key == KEY_BACKSPACE {
        let v = vec![0x7fu8];
        assert(v@ =~= seq![0x7fu8]);
        Some(v)
    } else if key == KEY_TAB {
        if m.shift {
            let v = vec![ESC, 91u8, 90u8];
            assert(v@ =~= seq![ESC, 91u8, 90u8]);
            Some(v)
        } else {
            let v = vec![9u8];
            assert(v@ =~= seq![9u8]);
            Some(v)
        }
    } else if key == KEY_BACKTAB {
        let v = vec![ESC, 91u8, 90u8];
        assert(v@ =~= seq![ESC, 91u8, 90u8]);
        Some(v)
    } else if key == KEY_ESCAPE {
        let v = vec![ESC];
        assert(v@ =~= seq![ESC]);
        Some(v)
    } else if key == KEY_UP {
        Some(cursor_key(app_cursor, 65u8, m, platform))
    } else if key == KEY_DOWN {
        Some(cursor_key(app_cursor, 66u8, m, platform))
    } else if key == KEY_RIGHT {
        Some(cursor_key(app_cursor, 67u8, m, platform))
    } else if key == KEY_LEFT {
        Some(cursor_key(app_cursor, 68u8, m, platform))
    } else if key == KEY_HOME {
        Some(home_end_key(72u8, m, platform))
    } else if key == KEY_END {
        Some(home_end_key(70u8, m, platform))
    } else if key == KEY_INSERT {
        Some(csi_tilde_key(2, m, platform))
    } else if key == KEY_DELETE {
        Some(csi_tilde_key(3, m, platform))
    } else if key == KEY_PAGE_UP {
        Some(csi_tilde_key(5, m, platform))
    } else if key == KEY_PAGE_DOWN {
        Some(csi_tilde_key(6, m, platform))
    } else if key == KEY_F1 {
        Some(function_key(80u8, m, platform))
    } else if key == KEY_F2 {
        Some(function_key(81u8, m, platform))
    } else if key == KEY_F3 {
        Some(function_key(82u8, m, platform))
    } else if key == KEY_F4 {
        Some(function_key(83u8, m, platform))
    } else if key == KEY_F5 {
        Some(csi_tilde_key(15, m, platform))
    } else if key == KEY_F6 {
        Some(csi_tilde_key(17, m, platform))
    } else if key == KEY_F7 {
        Some(csi_tilde_key(18, m, platform))
    } else if key == KEY_F8 {
        Some(csi_tilde_key(19, m, platform))
    } else if key == KEY_F9 {
        Some(csi_tilde_key(20, m, platform))
    } else if key == KEY_F10 {
        Some(csi_tilde_key(21, m, platform))
    } else if key == KEY_F11 {
        Some(csi_tilde_key(23, m, platform))
    } else if key == KEY_F12 {
        Some(csi_tilde_key(24, m, platform))
    } else {
        None
    }
}

/// The control byte that Control with a one-character key text sends, if any.
pub fn ctrl_sequence(text: &str) -> (r: Option<Vec<u8>>)
    ensures
        match ctrl_sequence_spec(text@) {
            Some(s) => r matches Some(v) && v@ == s,
            None => r is None,
        },
{
    let chars = chars_of(text);
    if chars.len() != 1 {
        return None;
    }
    let ch = chars[0];
    let byte: u8 = if 'a' <= ch && ch <= 'z' {
        ((ch as u32) - ('a' as u32) + 1) as u8
    } else if 'A' <= ch && ch <= 'Z' {
        ((ch as u32) - ('A' as u32) + 1) as u8
    } else if ch == ' ' || ch == '@' || ch == '`' {
        0u8
    } else if ch == '[' || ch == '{' || ch == KEY_ESCAPE {
        0x1bu8
    } else if ch == '\\' || ch == '|' {
        0x1cu8
    } else if ch == ']' || ch == '}' {
        0x1du8
    } else if ch == '^' || ch == '~' {
        0x1eu8
    } else if ch == '_' {
        0x1fu8
    } else if ch == '?' || ch == KEY_BACKSPACE || ch == KEY_DELETE {
        0x7fu8
    } else {
        return None;
    };
    let v = vec![byte];
    assert(v@ =~= seq![byte]);
    Some(v)
}

/// What a key press with text `text` sends to the session, given whether the terminal is in
/// application cursor mode: nothing for an empty text or when the command key is held; the
/// control byte when the terminal control key is held and one exists; the named-key sequence
/// when the text is a named key; otherwise the UTF-8 bytes of the text, after `ESC` when Alt
/// is held.
pub open spec fn encode_key_spec(
    text: Seq<char>,
    text_bytes: Seq<u8>,
    m: TerminalKeyModifiers,
    app_cursor: bool,
    platform: KeyPlatform,
) -> Option<Seq<u8>> {
    if text.len() == 0 {
        None
    } else if m.spec_command_modifier(platform) {
        None
    } else if m.spec_terminal_control(platform) && ctrl_sequence_spec(text) is Some {
        ctrl_sequence_spec(text)
    } else if special_key_spec(text, m, app_cursor, platform) is Some {
        special_key_spec(text, m, app_cursor, platform)
    } else if m.alt {
        Some(seq![ESC] + text_bytes)
    } else {
        Some(text_bytes)
    }
}

/// The bytes a key press sends to the session (see `encode_key_spec`).
pub fn encode_key_text(
    text: &str,
    m: TerminalKeyModifiers,
    app_cursor: bool,
    platform: KeyPlatform,
) -> (r: Option<Vec<u8>>)
    ensures
        match encode_key_spec(text@, vstd::utf8::encode_utf8(text@), m, app_cursor, platform) {
            Some(s) => r matches Some(v) && v@ == s,
            None => r is None,
        },
{
    if text.is_empty() {
        return None;
    }
    if m.command_modifier(platform) {
        return None;
    }
    if m.terminal_control(platform) {
        if let Some(sequence) = ctrl_sequence(text) {
            return Some(sequence);
        }
    }
    if let Some(sequence) = special_key_sequence(text, m, app_cursor, platform) {
        return Some(sequence);
    }
    let mut bytes: Vec<u8> = Vec::new();
    if m.alt {
        bytes.push(ESC);
    }
    let raw = text.as_bytes();
    let mut i: usize = 0;
    while i < raw.len()
        invariant
            raw@ == vstd::utf8::encode_utf8(text@),
            i <= raw@.len(),
            bytes@ == (if m.alt {
                seq![ESC]
            } else {
                Seq::<u8>::empty()
            }) + raw@.take(i as int),
        decreases raw.len() - i,
    {
        bytes.push(raw[i]);
        assert(raw@.take(i + 1) =~= raw@.take(i as int).push(raw@[i as int]));
        i = i + 1;
    }
    assert(raw@.take(raw@.len() as int) =~= raw@);
    assert(bytes@ =~= (if m.alt {
        seq![ESC] + vstd::utf8::encode_utf8(text@)
    } else {
        vstd::utf8::encode_utf8(text@)
    }));
    Some(bytes)
}

/// A key press with the command key held is the window's, never the terminal's: it sends
/// nothing.
pub proof fn lemma_command_key_sends_nothing(
    text: Seq<char>,
    text_bytes: Seq<u8>,
    m: TerminalKeyModifiers,
    app_cursor: bool,
    platform: KeyPlatform,
)
    requires
        m.spec_command_modifier(platform),
    ensures
        encode_key_spec(text, text_bytes, m, app_cursor, platform) is None,
{
}

/// Whether the key text `key` sends an escape sequence of at least three bytes ending in
/// `last`.
pub open spec fn sends_sequence_ending(
    key: char,
    last: u8,
    m: TerminalKeyModifiers,
    app_cursor: bool,
    platform: KeyPlatform,
) -> bool {
    special_key_spec(seq![key], m, app_cursor, platform) matches Some(b) && b.len() >= 3 && b[0]
        == ESC && b.last() == last
}

proof fn lemma_cursor_key_ends(app_cursor: bool, suffix: u8, m: TerminalKeyModifiers, platform: KeyPlatform)
    ensures
        cursor_key_spec(app_cursor, suffix, m, platform).len() >= 3,
        cursor_key_spec(app_cursor, suffix, m, platform)[0] == ESC,
        cursor_key_spec(app_cursor, suffix, m, platform).last() == suffix,
{
    match xterm_modifier_spec(m, platform) {
        Some(k) => {
            let b = csi_one_modified(k, suffix);
            let head = seq![ESC, 91u8, 49u8, 59u8] + nat_to_decimal_bytes(k);
            assert(b == head + seq![suffix]);
            assert(b[0] == head[0]);
        },
        None => {},
    }
}

/// The arrow keys, whatever the modifiers and the cursor mode: Up ends in `A`, Down in `B`,
/// Right in `C` and Left in `D`, so no two arrows send the same bytes; unmodified outside
/// application cursor mode they are `ESC [ A` to `ESC [ D`, and in that mode `ESC O A` to
/// `ESC O D`.
pub proof fn lemma_arrow_keys(m: TerminalKeyModifiers, app_cursor: bool, platform: KeyPlatform)
    ensures
        sends_sequence_ending(KEY_UP, 65u8, m, app_cursor, platform),
        sends_sequence_ending(KEY_DOWN, 66u8, m, app_cursor, platform),
        sends_sequence_ending(KEY_RIGHT, 67u8, m, app_cursor, platform),
        sends_sequence_ending(KEY_LEFT, 68u8, m, app_cursor, platform),
        special_key_spec(seq![KEY_UP], m, app_cursor, platform) != special_key_spec(seq![KEY_DOWN], m, app_cursor, platform),
        special_key_spec(seq![KEY_UP], m, app_cursor, platform) != special_key_spec(seq![KEY_RIGHT], m, app_cursor, platform),
        special_key_spec(seq![KEY_UP], m, app_cursor, platform) != special_key_spec(seq![KEY_LEFT], m, app_cursor, platform),
        special_key_spec(seq![KEY_DOWN], m, app_cursor, platform) != special_key_spec(seq![KEY_RIGHT], m, app_cursor, platform),
        special_key_spec(seq![KEY_DOWN], m, app_cursor, platform) != special_key_spec(seq![KEY_LEFT], m, app_cursor, platform),
        special_key_spec(seq![KEY_RIGHT], m, app_cursor, platform) != special_key_spec(seq![KEY_LEFT], m, app_cursor, platform),
        !m.shift && !m.alt && !m.spec_terminal_control(platform) ==> {
            let intro: u8 = if app_cursor { 79u8 } else { 91u8 };
            &&& special_key_spec(seq![KEY_UP], m, app_cursor, platform) == Some(seq![ESC, intro, 65u8])
            &&& special_key_spec(seq![KEY_DOWN], m, app_cursor, platform) == Some(seq![ESC, intro, 66u8])
            &&& special_key_spec(seq![KEY_RIGHT], m, app_cursor, platform) == Some(seq![ESC, intro, 67u8])
            &&& special_key_spec(seq![KEY_LEFT], m, app_cursor, platform) == Some(seq![ESC, intro, 68u8])
        },
{
    lemma_cursor_key_ends(app_cursor, 65u8, m, platform);
    lemma_cursor_key_ends(app_cursor, 66u8, m, platform);
    lemma_cursor_key_ends(app_cursor, 67u8, m, platform);
    lemma_cursor_key_ends(app_cursor, 68u8, m, platform);
    assert(seq![KEY_UP][0] == KEY_UP);
    assert(seq![KEY_DOWN][0] == KEY_DOWN);
    assert(seq![KEY_RIGHT][0] == KEY_RIGHT);
    assert(seq![KEY_LEFT][0] == KEY_LEFT);
}

proof fn lemma_decimal_bytes(n: nat)
    requires
        n < 100,
    ensures
        n < 10 ==> nat_to_decimal_bytes(n) == seq![(48 + n) as u8],
        10 <= n ==> nat_to_decimal_bytes(n) == seq![(48 + n / 10) as u8, (48 + n % 10) as u8],
{
    if n >= 10 {
        assert(nat_to_decimal(n / 10) == seq![digit_char(n / 10)]);
        assert(nat_to_decimal(n) == seq![digit_char(n / 10), digit_char(n % 10)]);
        assert(nat_to_decimal_bytes(n) =~= seq![(48 + n / 10) as u8, (48 + n % 10) as u8]);
    } else {
        assert(nat_to_decimal_bytes(n) =~= seq![(48 + n) as u8]);
    }
}

/// The other named keys, pressed without Shift, Alt or Control, send the xterm sequences:
/// Return CR, Backspace DEL, Tab HT, Shift-Tab `ESC [ Z`, Escape ESC, Home and End
/// `ESC [ H` and `ESC [ F`, Insert, Delete, Page Up and Page Down `ESC [ 2 ~`, `ESC [ 3 ~`,
/// `ESC [ 5 ~` and `ESC [ 6 ~`, F1 to F4 `ESC O P` to `ESC O S`, and F5 to F12
/// `ESC [ 15 ~`, `17`, `18`, `19`, `20`, `21`, `23` and `24`.
pub proof fn lemma_unmodified_named_keys(m: TerminalKeyModifiers, app_cursor: bool, platform: KeyPlatform)
    requires
        !m.shift,
        !m.alt,
        !m.spec_terminal_control(platform),
    ensures
        special_key_spec(seq![KEY_RETURN], m, app_cursor, platform) == Some(seq![13u8]),
        special_key_spec(seq![KEY_BACKSPACE], m, app_cursor, platform) == Some(seq![0x7fu8]),
        special_key_spec(seq![KEY_TAB], m, app_cursor, platform) == Some(seq![9u8]),
        special_key_spec(seq![KEY_BACKTAB], m, app_cursor, platform) == Some(seq![ESC, 91u8, 90u8]),
        special_key_spec(seq![KEY_ESCAPE], m, app_cursor, platform) == Some(seq![ESC]),
        special_key_spec(seq![KEY_HOME], m, app_cursor, platform) == Some(seq![ESC, 91u8, 72u8]),
        special_key_spec(seq![KEY_END], m, app_cursor, platform) == Some(seq![ESC, 91u8, 70u8]),
        special_key_spec(seq![KEY_INSERT], m, app_cursor, platform) == Some(seq![ESC, 91u8, 50u8, 126u8]),
        special_key_spec(seq![KEY_DELETE], m, app_cursor, platform) == Some(seq![ESC, 91u8, 51u8, 126u8]),
        special_key_spec(seq![KEY_PAGE_UP], m, app_cursor, platform) == Some(seq![ESC, 91u8, 53u8, 126u8]),
        special_key_spec(seq![KEY_PAGE_DOWN], m, app_cursor, platform) == Some(seq![ESC, 91u8, 54u8, 126u8]),
        special_key_spec(seq![KEY_F1], m, app_cursor, platform) == Some(seq![ESC, 79u8, 80u8]),
        special_key_spec(seq![KEY_F2], m, app_cursor, platform) == Some(seq![ESC, 79u8, 81u8]),
        special_key_spec(seq![KEY_F3], m, app_cursor, platform) == Some(seq![ESC, 79u8, 82u8]),
        special_key_spec(seq![KEY_F4], m, app_cursor, platform) == Some(seq![ESC, 79u8, 83u8]),
        special_key_spec(seq![KEY_F5], m, app_cursor, platform) == Some(seq![ESC, 91u8, 49u8, 53u8, 126u8]),
        special_key_spec(seq![KEY_F6], m, app_cursor, platform) == Some(seq![ESC, 91u8, 49u8, 55u8, 126u8]),
        special_key_spec(seq![KEY_F7], m, app_cursor, platform) == Some(seq![ESC, 91u8, 49u8, 56u8, 126u8]),
        special_key_spec(seq![KEY_F8], m, app_cursor, platform) == Some(seq![ESC, 91u8, 49u8, 57u8, 126u8]),
        special_key_spec(seq![KEY_F9], m, app_cursor, platform) == Some(seq![ESC, 91u8, 50u8, 48u8, 126u8]),
        special_key_spec(seq![KEY_F10], m, app_cursor, platform) == Some(seq![ESC, 91u8, 50u8, 49u8, 126u8]),
        special_key_spec(seq![KEY_F11], m, app_cursor, platform) == Some(seq![ESC, 91u8, 50u8, 51u8, 126u8]),
        special_key_spec(seq![KEY_F12], m, app_cursor, platform) == Some(seq![ESC, 91u8, 50u8, 52u8, 126u8]),
{
    assert(xterm_modifier_spec(m, platform) is None);
    lemma_decimal_bytes(2);
    lemma_decimal_bytes(3);
    lemma_decimal_bytes(5);
    lemma_decimal_bytes(6);
    lemma_decimal_bytes(15);
    lemma_decimal_bytes(17);
    lemma_decimal_bytes(18);
    lemma_decimal_bytes(19);
    lemma_decimal_bytes(20);
    lemma_decimal_bytes(21);
    lemma_decimal_bytes(23);
    lemma_decimal_bytes(24);
    assert(seq![KEY_RETURN][0] == KEY_RETURN);
    assert(seq![KEY_BACKSPACE][0] == KEY_BACKSPACE);
    assert(seq![KEY_TAB][0] == KEY_TAB);
    assert(seq![KEY_BACKTAB][0] == KEY_BACKTAB);
    assert(seq![KEY_ESCAPE][0] == KEY_ESCAPE);
    assert(seq![KEY_HOME][0] == KEY_HOME);
    assert(seq![KEY_END][0] == KEY_END);
    assert(seq![KEY_INSERT][0] == KEY_INSERT);
    assert(seq![KEY_DELETE][0] == KEY_DELETE);
    assert(seq![KEY_PAGE_UP][0] == KEY_PAGE_UP);
    assert(seq![KEY_PAGE_DOWN][0] == KEY_PAGE_DOWN);
    assert(seq![KEY_F1][0] == KEY_F1);
    assert(seq![KEY_F2][0] == KEY_F2);
    assert(seq![KEY_F3][0] == KEY_F3);
    assert(seq![KEY_F4][0] == KEY_F4);
    assert(seq![KEY_F5][0] == KEY_F5);
    assert(seq![KEY_F6][0] == KEY_F6);
    assert(seq![KEY_F7][0] == KEY_F7);
    assert(seq![KEY_F8][0] == KEY_F8);
    assert(seq![KEY_F9][0] == KEY_F9);
    assert(seq![KEY_F10][0] == KEY_F10);
    assert(seq![KEY_F11][0] == KEY_F11);
    assert(seq![KEY_F12][0] == KEY_F12);
    assert(special_key_spec(seq![KEY_RETURN], m, app_cursor, platform) =~~= Some(seq![13u8]));
    assert(special_key_spec(seq![KEY_BACKSPACE], m, app_cursor, platform) =~~= Some(seq![0x7fu8]));
    assert(special_key_spec(seq![KEY_TAB], m, app_cursor, platform) =~~= Some(seq![9u8]));
    assert(special_key_spec(seq![KEY_BACKTAB], m, app_cursor, platform) =~~= Some(seq![ESC, 91u8, 90u8]));
    assert(special_key_spec(seq![KEY_ESCAPE], m, app_cursor, platform) =~~= Some(seq![ESC]));
    assert(special_key_spec(seq![KEY_HOME], m, app_cursor, platform) =~~= Some(seq![ESC, 91u8, 72u8]));
    assert(special_key_spec(seq![KEY_END], m, app_cursor, platform) =~~= Some(seq![ESC, 91u8, 70u8]));
    assert(special_key_spec(seq![KEY_INSERT], m, app_cursor, platform) =~~= Some(seq![ESC, 91u8, 50u8, 126u8]));
    assert(special_key_spec(seq![KEY_DELETE], m, app_cursor, platform) =~~= Some(seq![ESC, 91u8, 51u8, 126u8]));
    assert(special_key_spec(seq![KEY_PAGE_UP], m, app_cursor, platform) =~~= Some(seq![ESC, 91u8, 53u8, 126u8]));
    assert(special_key_spec(seq![KEY_PAGE_DOWN], m, app_cursor, platform) =~~= Some(seq![ESC, 91u8, 54u8, 126u8]));
    assert(special_key_spec(seq![KEY_F1], m, app_cursor, platform) =~~= Some(seq![ESC, 79u8, 80u8]));
    assert(special_key_spec(seq![KEY_F2], m, app_cursor, platform) =~~= Some(seq![ESC, 79u8, 81u8]));
    assert(special_key_spec(seq![KEY_F3], m, app_cursor, platform) =~~= Some(seq![ESC, 79u8, 82u8]));
    assert(special_key_spec(seq![KEY_F4], m, app_cursor, platform) =~~= Some(seq![ESC, 79u8, 83u8]));
    assert(special_key_spec(seq![KEY_F5], m, app_cursor, platform) =~~= Some(seq![ESC, 91u8, 49u8, 53u8, 126u8]));
    assert(special_key_spec(seq![KEY_F6], m, app_cursor, platform) =~~= Some(seq![ESC, 91u8, 49u8, 55u8, 126u8]));
    assert(special_key_spec(seq![KEY_F7], m, app_cursor, platform) =~~= Some(seq![ESC, 91u8, 49u8, 56u8, 126u8]));
    assert(special_key_spec(seq![KEY_F8], m, app_cursor, platform) =~~= Some(seq![ESC, 91u8, 49u8, 57u8, 126u8]));
    assert(special_key_spec(seq![KEY_F9], m, app_cursor, platform) =~~= Some(seq![ESC, 91u8, 50u8, 48u8, 126u8]));
    assert(special_key_spec(seq![KEY_F10], m, app_cursor, platform) =~~= Some(seq![ESC, 91u8, 50u8, 49u8, 126u8]));
    assert(special_key_spec(seq![KEY_F11], m, app_cursor, platform) =~~= Some(seq![ESC, 91u8, 50u8, 51u8, 126u8]));
    assert(special_key_spec(seq![KEY_F12], m, app_cursor, platform) =~~= Some(seq![ESC, 91u8, 50u8, 52u8, 126u8]));
}

} // verus!
