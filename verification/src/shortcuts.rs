use vstd::prelude::*;

use crate::keys::KeyPlatform;
use crate::theme::ShortcutSettings;
use crate::text::{
    ascii_lower_char, ascii_lowercase, chars_of, is_ascii_digit_char, is_ascii_lower_char,
    is_ascii_upper_char, str_eq, to_ascii_lower, trim, trim_spec,
};

verus! {

/// The key of a shortcut.
#[derive(Debug, Clone, Copy, PartialEq, Eq, Structural)]
pub enum ShortcutKey {
    Latin(char),
    Digit(u8),
    Comma,
    BracketLeft,
    BracketRight,
}

/// A shortcut as the settings write it, such as `Command+Shift+[`.
#[derive(Debug, Clone, Copy, PartialEq, Eq, Structural)]
pub struct ShortcutPattern {
    pub command: bool,
    pub shift: bool,
    pub alt: bool,
    pub control: bool,
    pub logo: bool,
    pub key: Option<ShortcutKey>,
}

/// What one `+`-separated part of a shortcut does.
#[derive(Debug, Clone, Copy, PartialEq, Eq, Structural)]
pub enum TokenEffect {
    Skip,
    Command,
    Shift,
    Alt,
    Control,
    Logo,
    SetKey(ShortcutKey),
    Invalid,
}

/// The parts of `s` between `+` signs.
pub open spec fn split_plus(s: Seq<char>) -> Seq<Seq<char>>
    decreases s.len(),
{
    if s.len() == 0 {
        seq![Seq::empty()]
    } else {
        let p = split_plus(s.drop_last());
        if s.last() == '+' {
            p.push(Seq::empty())
        } else {
            p.update(p.len() - 1, p.last().push(s.last()))
        }
    }
}

/// What a part does, once trimmed and lower-cased (ASCII): empty parts are skipped;
/// modifier names and key names are recognised; a single ASCII digit or letter is the key;
/// anything else makes the shortcut invalid.
pub open spec fn token_effect(part: Seq<char>) -> TokenEffect {
    let t = ascii_lowercase(trim_spec(part));
    if t.len() == 0 {
        TokenEffect::Skip
    } else if t == "command"@ || t == "cmd"@ {
        TokenEffect::Command
    } else if t == "shift"@ {
        TokenEffect::Shift
    } else if t == "alt"@ || t == "option"@ {
        TokenEffect::Alt
    } else if t == "control"@ || t == "ctrl"@ {
        TokenEffect::Control
    } else if t == "super"@ || t == "meta"@ || t == "logo"@ {
        TokenEffect::Logo
    } else if t == ","@ || t == "comma"@ {
        TokenEffect::SetKey(ShortcutKey::Comma)
    } else if t == "["@ || t == "bracketleft"@ {
        TokenEffect::SetKey(ShortcutKey::BracketLeft)
    } else if t == "]"@ || t == "bracketright"@ {
        TokenEffect::SetKey(ShortcutKey::BracketRight)
    } else if t.len() == 1 && is_ascii_digit_char(t[0]) {
        TokenEffect::SetKey(ShortcutKey::Digit(((t[0] as u32) - 48) as u8))
    } else if t.len() == 1 && is_ascii_lower_char(t[0]) {
        TokenEffect::SetKey(ShortcutKey::Latin(t[0]))
    } else {
        TokenEffect::Invalid
    }
}

/// A pattern after one part has had its effect; `None` once a part was invalid.
pub open spec fn apply_effect(p: Option<ShortcutPattern>, e: TokenEffect) -> Option<ShortcutPattern> {
    match p {
        None => None,
        Some(p) => match e {
            TokenEffect::Skip => Some(p),
            TokenEffect::Command => Some(ShortcutPattern { command: true, ..p }),
            TokenEffect::Shift => Some(ShortcutPattern { shift: true, ..p }),
            TokenEffect::Alt => Some(ShortcutPattern { alt: true, ..p }),
            TokenEffect::Control => Some(ShortcutPattern { control: true, ..p }),
            TokenEffect::Logo => Some(ShortcutPattern { logo: true, ..p }),
            TokenEffect::SetKey(k) => Some(ShortcutPattern { key: Some(k), ..p }),
            TokenEffect::Invalid => None,
        },
    }
}

pub open spec fn empty_pattern() -> ShortcutPattern {
    ShortcutPattern { command: false, shift: false, alt: false, control: false, logo: false, key: None }
}

/// The pattern the parts build up, left to right.
pub open spec fn apply_parts(parts: Seq<Seq<char>>) -> Option<ShortcutPattern>
    decreases parts.len(),
{
    if parts.len() == 0 {
        Some(empty_pattern())
    } else {
        apply_effect(apply_parts(parts.drop_last()), token_effect(parts.last()))
    }
}

/// What a shortcut text means: every part applied in turn; no pattern when a part is
/// invalid or when no key was named.
pub open spec fn parse_shortcut_spec(s: Seq<char>) -> Option<ShortcutPattern> {
    match apply_parts(split_plus(s)) {
        Some(p) => if p.key is Some {
            Some(p)
        } else {
            None
        },
        None => None,
    }
}

fn lowercase_ascii(s: &str) -> (r: Vec<char>)
    ensures
        r@ == ascii_lowercase(s@),
{
    let v = chars_of(s);
    let mut r: Vec<char> = Vec::new();
    let mut i: usize = 0;
    while i < v.len()
        invariant
            v@ == s@,
            i <= v@.len(),
            r@ == ascii_lowercase(v@.take(i as int)),
        decreases v.len() - i,
    {
        r.push(to_ascii_lower(v[i]));
        assert(ascii_lowercase(v@.take(i + 1)) =~= ascii_lowercase(v@.take(i as int)).push(
            ascii_lower_char(v@[i as int]),
        ));
        i = i + 1;
    }
    assert(v@.take(v@.len() as int) =~= v@);
    r
}

fn chars_eq(v: &Vec<char>, s: &str) -> (b: bool)
    ensures
        b == (v@ == s@),
{
    let w = chars_of(s);
    if v.len() != w.len() {
        return false;
    }
    let mut i: usize = 0;
    while i < v.len()
        invariant
            w@ == s@,
            v@.len() == w@.len(),
            i <= v@.len(),
            forall|k: int| 0 <= k < i ==> v@[k] == w@[k],
        decreases v.len() - i,
    {
        if v[i] != w[i] {
            return false;
        }
        i = i + 1;
    }
    assert(v@ =~= w@);
    true
}

/// What one part of a shortcut does (see `token_effect`).
fn part_effect(part: &Vec<char>) -> (e: TokenEffect)
    ensures
        e == token_effect(part@),
{
    let mut raw = String::new();
    let mut i: usize = 0;
    while i < part.len()
        invariant
            i <= part@.len(),
            raw@ == part@.take(i as int),
        decreases part.len() - i,
    {
        crate::text::push_char(&mut raw, part[i]);
        assert(part@.take(i + 1) =~= part@.take(i as int).push(part@[i as int]));
        i = i + 1;
    }
    assert(part@.take(part@.len() as int) =~= part@);
    let trimmed = trim(raw.as_str());
    let t = lowercase_ascii(trimmed.as_str());
    if t.len() == 0 {
        TokenEffect::Skip
    } else if chars_eq(&t, "command") || chars_eq(&t, "cmd") {
        TokenEffect::Command
    } else if chars_eq(&t, "shift") {
        TokenEffect::Shift
    } else if chars_eq(&t, "alt") || chars_eq(&t, "option") {
        TokenEffect::Alt
    } else if chars_eq(&t, "control") || chars_eq(&t, "ctrl") {
        TokenEffect::Control
    } else if chars_eq(&t, "super") || chars_eq(&t, "meta") || chars_eq(&t, "logo") {
        TokenEffect::Logo
    } else if chars_eq(&t, ",") || chars_eq(&t, "comma") {
        TokenEffect::SetKey(ShortcutKey::Comma)
    } else if chars_eq(&t, "[") || chars_eq(&t, "bracketleft") {
        TokenEffect::SetKey(ShortcutKey::BracketLeft)
    } else if chars_eq(&t, "]") || chars_eq(&t, "bracketright") {
        TokenEffect::SetKey(ShortcutKey::BracketRight)
    } else if t.len() == 1 && '0' <= t[0] && t[0] <= '9' {
        TokenEffect::SetKey(ShortcutKey::Digit(((t[0] as u32) - 48) as u8))
    } else if t.len() == 1 && 'a' <= t[0] && t[0] <= 'z' {
        TokenEffect::SetKey(ShortcutKey::Latin(t[0]))
    } else {
        TokenEffect::Invalid
    }
}

fn apply(p: Option<ShortcutPattern>, e: TokenEffect) -> (r: Option<ShortcutPattern>)
    ensures
        r == apply_effect(p, e),
{
    match p {
        None => None,
        Some(p) => match e {
            TokenEffect::Skip => Some(p),
            TokenEffect::Command => Some(ShortcutPattern { command: true, ..p }),
            TokenEffect::Shift => Some(ShortcutPattern { shift: true, ..p }),
            TokenEffect::Alt => Some(ShortcutPattern { alt: true, ..p }),
            TokenEffect::Control => Some(ShortcutPattern { control: true, ..p }),
            TokenEffect::Logo => Some(ShortcutPattern { logo: true, ..p }),
            TokenEffect::SetKey(k) => Some(ShortcutPattern { key: Some(k), ..p }),
            TokenEffect::Invalid => None,
        },
    }
}

proof fn lemma_split_plus_nonempty(s: Seq<char>)
    ensures
        split_plus(s).len() >= 1,
    decreases s.len(),
{
    if s.len() > 0 {
        lemma_split_plus_nonempty(s.drop_last());
    }
}

impl ShortcutPattern {
    /// Reads a shortcut text (see `parse_shortcut_spec`).
    pub fn parse(shortcut: &str) -> (r: Option<Self>)
        ensures
            r == parse_shortcut_spec(shortcut@),
    {
        let v = chars_of(shortcut);
        let mut state: Option<ShortcutPattern> = Some(
            ShortcutPattern {
                command: false,
                shift: false,
                alt: false,
                control: false,
                logo: false,
                key: None,
            },
        );
        let mut current: Vec<char> = Vec::new();
        let mut i: usize = 0;
        while i < v.len()
            invariant
                v@ == shortcut@,
                i <= v@.len(),
                current@ == split_plus(v@.take(i as int)).last(),
                state == apply_parts(split_plus(v@.take(i as int)).drop_last()),
            decreases v.len() - i,
        {
            let ghost prev = split_plus(v@.take(i as int));
            proof {
                lemma_split_plus_nonempty(v@.take(i as int));
                assert(v@.take(i + 1).drop_last() =~= v@.take(i as int));
                assert(v@.take(i + 1).last() == v@[i as int]);
            }
            if v[i] == '+' {
                let e = part_effect(&current);
                state = apply(state, e);
                assert(prev.drop_last().push(prev.last()) =~= prev);
                current = Vec::new();
                assert(split_plus(v@.take(i + 1)).drop_last() =~= prev);
            } else {
                current.push(v[i]);
                let ghost next = prev.update(prev.len() - 1, prev.last().push(v@[i as int]));
                assert(split_plus(v@.take(i + 1)) == next);
                assert(next.drop_last() =~= prev.drop_last());
            }
            i = i + 1;
        }
        assert(v@.take(v@.len() as int) =~= v@);
        let ghost parts = split_plus(v@);
        proof {
            lemma_split_plus_nonempty(v@);
            assert(parts.drop_last().push(parts.last()) =~= parts);
        }
        let e = part_effect(&current);
        let state = apply(state, e);
        match state {
            Some(p) => if p.key.is_some() {
                Some(p)
            } else {
                None
            },
            None => None,
        }
    }
}

/// The modifier keys held with a key press.
#[derive(Debug, Clone, Copy, PartialEq, Eq, Structural)]
pub struct ShortcutModifiers {
    pub command: bool,
    pub shift: bool,
    pub alt: bool,
    pub control: bool,
    pub logo: bool,
}

/// The physical key of a key press, where it is one a shortcut can name by position.
#[derive(Debug, Clone, Copy, PartialEq, Eq, Structural)]
pub enum ShortcutPhysicalKey {
    Comma,
    BracketLeft,
    BracketRight,
    Other,
}

/// A key press as a shortcut sees it: the Latin character it stands for (if any), its
/// physical key, and the character it typed (if it typed exactly one).
#[derive(Debug, Clone, Copy, PartialEq, Eq, Structural)]
pub struct ShortcutKeyPress {
    pub latin: Option<char>,
    pub physical: ShortcutPhysicalKey,
    pub typed: Option<char>,
}

/// Whether a key press with `m` held is the shortcut `p`: Command, Shift and Alt must agree;
/// on macOS Control must agree and the logo key must be held exactly when asked for or
/// when Command is; elsewhere the logo key must agree and Control must be held when asked
/// for and may be held only then or with Command. Then the key must be the named one:
/// a letter in either case, a digit, or the comma and bracket keys by position or by the
/// characters they type.
pub open spec fn pattern_matches_spec(
    p: ShortcutPattern,
    press: ShortcutKeyPress,
    m: ShortcutModifiers,
    platform: KeyPlatform,
) -> bool {
    &&& m.command == p.command && m.shift == p.shift && m.alt == p.alt
    &&& match platform {
        KeyPlatform::MacOs => m.control == p.control && (if p.logo {
            m.logo
        } else {
            p.command || !m.logo
        }),
        KeyPlatform::Other => m.logo == p.logo && (if p.control {
            m.control
        } else {
            p.command || !m.control
        }),
    }
    &&& match p.key {
        Some(ShortcutKey::Latin(expected)) => press.latin matches Some(c) && ascii_lower_char(c)
            == ascii_lower_char(expected),
        Some(ShortcutKey::Digit(d)) => press.latin matches Some(c) && is_ascii_digit_char(c)
            && (c as u32) - 48 == d,
        Some(ShortcutKey::Comma) => press.physical == ShortcutPhysicalKey::Comma || press.typed
            == Some(',') || press.typed == Some('<'),
        Some(ShortcutKey::BracketLeft) => press.physical == ShortcutPhysicalKey::BracketLeft
            || press.typed == Some('[') || press.typed == Some('{'),
        Some(ShortcutKey::BracketRight) => press.physical == ShortcutPhysicalKey::BracketRight
            || press.typed == Some(']') || press.typed == Some('}'),
        None => false,
    }
}

impl ShortcutPattern {
    /// Whether a key press is this shortcut (see `pattern_matches_spec`).
    pub fn matches(self, press: ShortcutKeyPress, m: ShortcutModifiers, platform: KeyPlatform) -> (b:
        bool)
        ensures
            b == pattern_matches_spec(self, press, m, platform),
    {
        if m.command != self.command || m.shift != self.shift || m.alt != self.alt {
            return false;
        }
        match platform {
            KeyPlatform::MacOs => {
                if m.control != self.control {
                    return false;
                }
                if self.logo {
                    if !m.logo {
                        return false;
                    }
                } else if !self.command && m.logo {
                    return false;
                }
            },
            KeyPlatform::Other => {
                if m.logo != self.logo {
                    return false;
                }
                if self.control {
                    if !m.control {
                        return false;
                    }
                } else if !self.command && m.control {
                    return false;
                }
            },
        }
        match self.key {
            Some(ShortcutKey::Latin(expected)) => match press.latin {
                Some(c) => to_ascii_lower(c) == to_ascii_lower(expected),
                None => false,
            },
            Some(ShortcutKey::Digit(d)) => match press.latin {
                Some(c) => '0' <= c && c <= '9' && (c as u32) - 48 == d as u32,
                None => false,
            },
            Some(ShortcutKey::Comma) => press.physical == ShortcutPhysicalKey::Comma
                || press.typed == Some(',') || press.typed == Some('<'),
            Some(ShortcutKey::BracketLeft) => press.physical == ShortcutPhysicalKey::BracketLeft
                || press.typed == Some('[') || press.typed == Some('{'),
            Some(ShortcutKey::BracketRight) => press.physical == ShortcutPhysicalKey::BracketRight
                || press.typed == Some(']') || press.typed == Some('}'),
            None => false,
        }
    }
}

/// Whether a key press is the shortcut a settings text describes; a text that does not
/// describe one matches nothing.
pub fn shortcut_text_matches(
    shortcut: &str,
    press: ShortcutKeyPress,
    m: ShortcutModifiers,
    platform: KeyPlatform,
) -> (b: bool)
    ensures
        b == match parse_shortcut_spec(shortcut@) {
            Some(p) => pattern_matches_spec(p, press, m, platform),
            None => false,
        },
{
    match ShortcutPattern::parse(shortcut) {
        Some(p) => p.matches(press, m, platform),
        None => false,
    }
}

/// Whether a key press is the shortcut a settings text describes.
pub open spec fn text_matches_spec(
    shortcut: Seq<char>,
    press: ShortcutKeyPress,
    m: ShortcutModifiers,
    platform: KeyPlatform,
) -> bool {
    match parse_shortcut_spec(shortcut) {
        Some(p) => pattern_matches_spec(p, press, m, platform),
        None => false,
    }
}

/// Which of the nine tab-switching shortcuts a key press is: the first that matches, if any.
pub open spec fn tab_switch_spec(
    shortcuts: ShortcutSettings,
    press: ShortcutKeyPress,
    m: ShortcutModifiers,
    platform: KeyPlatform,
    r: Option<usize>,
) -> bool {
    match r {
        Some(k) => k < 9 && text_matches_spec(shortcuts.tab_switches@[k as int]@, press, m, platform)
            && forall|j: int|
            0 <= j < k ==> !text_matches_spec(
                #[trigger] shortcuts.tab_switches@[j]@,
                press,
                m,
                platform,
            ),
        None => forall|j: int|
            0 <= j < 9 ==> !text_matches_spec(
                #[trigger] shortcuts.tab_switches@[j]@,
                press,
                m,
                platform,
            ),
    }
}

/// Which of the nine tab-switching shortcuts a key press is (see `tab_switch_spec`).
pub fn tab_switch_shortcut_index(
    shortcuts: &ShortcutSettings,
    press: ShortcutKeyPress,
    m: ShortcutModifiers,
    platform: KeyPlatform,
) -> (r: Option<usize>)
    ensures
        tab_switch_spec(*shortcuts, press, m, platform, r),
{
    let mut i: usize = 0;
    while i < 9
        invariant
            i <= 9,
            forall|j: int|
                0 <= j < i ==> !text_matches_spec(
                    #[trigger] shortcuts.tab_switches@[j]@,
                    press,
                    m,
                    platform,
                ),
        decreases 9 - i,
    {
        if shortcut_text_matches(shortcuts.tab_switches[i].as_str(), press, m, platform) {
            return Some(i);
        }
        i = i + 1;
    }
    None
}

} // verus!
