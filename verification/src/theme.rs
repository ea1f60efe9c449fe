use vstd::prelude::*;

use crate::selection::TerminalColor;
use crate::selection::TerminalCursorShape;
use crate::text::{
    chars_of, is_ws, lemma_text_lt_irreflexive, lemma_text_lt_total, lemma_text_lt_transitive,
    owned, str_eq, string_views, text_less, text_lt, trim_bounds, trim_spec,
};

verus! {

// ---------------------------------------------------------------------------
// Colour settings as they are stored: hex strings
// ---------------------------------------------------------------------------

/// Background and foreground of the terminal.
#[derive(Debug, Clone)]
pub struct TerminalPrimaryColors {
    pub background: String,
    pub foreground: String,
}

/// Cursor block colour and the colour of the text under it.
#[derive(Debug, Clone)]
pub struct TerminalCursorColors {
    pub cursor: String,
    pub text: String,
}

/// Selection background and the colour of selected text.
#[derive(Debug, Clone)]
pub struct TerminalSelectionColors {
    pub background: String,
    pub text: String,
}

/// One group of the eight ANSI colours.
#[derive(Debug, Clone)]
pub struct TerminalAnsiGroup {
    pub black: String,
    pub red: String,
    pub green: String,
    pub yellow: String,
    pub blue: String,
    pub magenta: String,
    pub cyan: String,
    pub white: String,
}

/// The colour scheme of a terminal.
#[derive(Debug, Clone)]
pub struct TerminalColors {
    pub primary: TerminalPrimaryColors,
    pub cursor: TerminalCursorColors,
    pub selection: TerminalSelectionColors,
    pub normal: TerminalAnsiGroup,
    pub bright: TerminalAnsiGroup,
}

impl TerminalPrimaryColors {
    pub fn duplicate(&self) -> (r: Self)
        ensures
            r == *self,
    {
        TerminalPrimaryColors { background: self.background.clone(), foreground: self.foreground.clone() }
    }
}

impl TerminalCursorColors {
    pub fn duplicate(&self) -> (r: Self)
        ensures
            r == *self,
    {
        TerminalCursorColors { cursor: self.cursor.clone(), text: self.text.clone() }
    }
}

impl TerminalSelectionColors {
    pub fn duplicate(&self) -> (r: Self)
        ensures
            r == *self,
    {
        TerminalSelectionColors { background: self.background.clone(), text: self.text.clone() }
    }
}

impl TerminalAnsiGroup {
    /// The eight colours in ANSI order: black, red, green, yellow, blue, magenta, cyan, white.
    pub open spec fn spec_values(self) -> Seq<Seq<char>> {
        seq![
            self.black@,
            self.red@,
            self.green@,
            self.yellow@,
            self.blue@,
            self.magenta@,
            self.cyan@,
            self.white@,
        ]
    }

    pub fn duplicate(&self) -> (r: Self)
        ensures
            r == *self,
    {
        TerminalAnsiGroup {
            black: self.black.clone(),
            red: self.red.clone(),
            green: self.green.clone(),
            yellow: self.yellow.clone(),
            blue: self.blue.clone(),
            magenta: self.magenta.clone(),
            cyan: self.cyan.clone(),
            white: self.white.clone(),
        }
    }

    /// The eight colours as an array, in ANSI order.
    pub fn as_array(&self) -> (r: [String; 8])
        ensures
            string_views(r@) == self.spec_values(),
    {
        let r = [
            self.black.clone(),
            self.red.clone(),
            self.green.clone(),
            self.yellow.clone(),
            self.blue.clone(),
            self.magenta.clone(),
            self.cyan.clone(),
            self.white.clone(),
        ];
        assert(string_views(r@) =~= self.spec_values());
        r
    }

    /// The group whose colours are `values`, in ANSI order.
    pub fn from_array(values: [String; 8]) -> (g: Self)
        ensures
            g.spec_values() == string_views(values@),
    {
        let g = TerminalAnsiGroup {
            black: values[0].clone(),
            red: values[1].clone(),
            green: values[2].clone(),
            yellow: values[3].clone(),
            blue: values[4].clone(),
            magenta: values[5].clone(),
            cyan: values[6].clone(),
            white: values[7].clone(),
        };
        assert(g.spec_values() =~= string_views(values@));
        g
    }
}

/// The colours of the built-in light scheme, in the order of `TerminalColors::spec_fields`.
pub open spec fn atom_one_light_fields() -> Seq<Seq<char>> {
    seq![
        "#fafafa"@, "#383a42"@, "#526fff"@, "#fafafa"@, "#dbe9ff"@, "#1f2329"@,
        "#000000"@, "#e45649"@, "#50a14f"@, "#c18401"@, "#4078f2"@, "#a626a4"@, "#0184bc"@, "#a0a1a7"@,
        "#696c77"@, "#df6c75"@, "#6aaf69"@, "#e4c07b"@, "#61afef"@, "#c678dd"@, "#56b6c2"@, "#ffffff"@,
    ]
}

/// The colours of the built-in dark scheme, in the order of `TerminalColors::spec_fields`.
pub open spec fn atom_one_dark_fields() -> Seq<Seq<char>> {
    seq![
        "#1e2127"@, "#abb2bf"@, "#61afef"@, "#1e2127"@, "#3e4451"@, "#d7dae0"@,
        "#1e2127"@, "#e06c75"@, "#98c379"@, "#e5c07b"@, "#61afef"@, "#c678dd"@, "#56b6c2"@, "#abb2bf"@,
        "#5c6370"@, "#e06c75"@, "#98c379"@, "#e5c07b"@, "#61afef"@, "#c678dd"@, "#56b6c2"@, "#ffffff"@,
    ]
}

fn ansi_group(
    black: &str,
    red: &str,
    green: &str,
    yellow: &str,
    blue: &str,
    magenta: &str,
    cyan: &str,
    white: &str,
) -> (g: TerminalAnsiGroup)
    ensures
        g.spec_values() == seq![black@, red@, green@, yellow@, blue@, magenta@, cyan@, white@],
{
    let g = TerminalAnsiGroup {
        black: owned(black),
        red: owned(red),
        green: owned(green),
        yellow: owned(yellow),
        blue: owned(blue),
        magenta: owned(magenta),
        cyan: owned(cyan),
        white: owned(white),
    };
    assert(g.spec_values() =~= seq![black@, red@, green@, yellow@, blue@, magenta@, cyan@, white@]);
    g
}

impl TerminalColors {
    /// All twenty-two colours: background, foreground, cursor, cursor text, selection
    /// background, selection text, then the normal and the bright ANSI groups.
    pub open spec fn spec_fields(self) -> Seq<Seq<char>> {
        seq![
            self.primary.background@,
            self.primary.foreground@,
            self.cursor.cursor@,
            self.cursor.text@,
            self.selection.background@,
            self.selection.text@,
        ] + self.normal.spec_values() + self.bright.spec_values()
    }

    pub fn duplicate(&self) -> (r: Self)
        ensures
            r == *self,
    {
        TerminalColors {
            primary: self.primary.duplicate(),
            cursor: self.cursor.duplicate(),
            selection: self.selection.duplicate(),
            normal: self.normal.duplicate(),
            bright: self.bright.duplicate(),
        }
    }

    /// The built-in light scheme.
    pub fn atom_one_light() -> (c: Self)
        ensures
            c.spec_fields() == atom_one_light_fields(),
    {
        let c = TerminalColors {
            primary: TerminalPrimaryColors { background: owned("#fafafa"), foreground: owned("#383a42") },
            cursor: TerminalCursorColors { cursor: owned("#526fff"), text: owned("#fafafa") },
            selection: TerminalSelectionColors { background: owned("#dbe9ff"), text: owned("#1f2329") },
            normal: ansi_group(
                "#000000", "#e45649", "#50a14f", "#c18401", "#4078f2", "#a626a4", "#0184bc", "#a0a1a7",
            ),
            bright: ansi_group(
                "#696c77", "#df6c75", "#6aaf69", "#e4c07b", "#61afef", "#c678dd", "#56b6c2", "#ffffff",
            ),
        };
        assert(c.spec_fields() =~= atom_one_light_fields());
        c
    }

    /// The built-in dark scheme.
    pub fn atom_one_dark() -> (c: Self)
        ensures
            c.spec_fields() == atom_one_dark_fields(),
    {
        let c = TerminalColors {
            primary: TerminalPrimaryColors { background: owned("#1e2127"), foreground: owned("#abb2bf") },
            cursor: TerminalCursorColors { cursor: owned("#61afef"), text: owned("#1e2127") },
            selection: TerminalSelectionColors { background: owned("#3e4451"), text: owned("#d7dae0") },
            normal: ansi_group(
                "#1e2127", "#e06c75", "#98c379", "#e5c07b", "#61afef", "#c678dd", "#56b6c2", "#abb2bf",
            ),
            bright: ansi_group(
                "#5c6370", "#e06c75", "#98c379", "#e5c07b", "#61afef", "#c678dd", "#56b6c2", "#ffffff",
            ),
        };
        assert(c.spec_fields() =~= atom_one_dark_fields());
        c
    }
}

// ---------------------------------------------------------------------------
// Hex colours
// ---------------------------------------------------------------------------

/// How many bytes `c` takes in UTF-8.
pub open spec fn utf8_len(c: char) -> nat {
    let u = c as u32;
    if u < 0x80 {
        1
    } else if u < 0x800 {
        2
    } else if u < 0x10000 {
        3
    } else {
        4
    }
}

/// How many bytes `s` takes in UTF-8 (what `str::len` returns).
pub open spec fn utf8_len_seq(s: Seq<char>) -> nat
    decreases s.len(),
{
    if s.len() == 0 {
        0
    } else {
        utf8_len_seq(s.drop_last()) + utf8_len(s.last())
    }
}

/// The value of a hexadecimal digit, upper or lower case.
pub open spec fn hex_digit_value(c: char) -> Option<nat> {
    if '0' <= c && c <= '9' {
        Some(((c as u32) - 48) as nat)
    } else if 'a' <= c && c <= 'f' {
        Some(((c as u32) - 87) as nat)
    } else if 'A' <= c && c <= 'F' {
        Some(((c as u32) - 55) as nat)
    } else {
        None
    }
}

/// `u8::from_str_radix` in base 16 on the two-character ASCII string `a b`: either two
/// hex digits, or a `+` sign and one hex digit.
pub open spec fn hex_pair_spec(a: char, b: char) -> Option<u8> {
    if a == '+' {
        match hex_digit_value(b) {
            Some(y) => Some(y as u8),
            None => None,
        }
    } else {
        match (hex_digit_value(a), hex_digit_value(b)) {
            (Some(x), Some(y)) => Some((x * 16 + y) as u8),
            _ => None,
        }
    }
}

/// `s` without its leading `#` characters (`trim_start_matches('#')`).
pub open spec fn strip_hashes(s: Seq<char>) -> Seq<char>
    decreases s.len(),
{
    if s.len() > 0 && s[0] == '#' {
        strip_hashes(s.drop_first())
    } else {
        s
    }
}

/// The part of a colour string that is read as hex digits: trimmed, without leading `#`.
pub open spec fn hex_body(value: Seq<char>) -> Seq<char> {
    strip_hashes(trim_spec(value))
}

/// Whether byte pair `k` (bytes `2k..2k+2`) of the six-byte body is two ASCII characters
/// that parse as a hex byte.
pub open spec fn hex_pair_ok(v: Seq<char>, k: int) -> bool {
    &&& 2 * k + 1 < v.len()
    &&& utf8_len(v[2 * k]) == 1
    &&& utf8_len(v[2 * k + 1]) == 1
    &&& hex_pair_spec(v[2 * k], v[2 * k + 1]) is Some
}

/// Whether slicing byte pair `k` of the body would cut a character in two, once the pairs
/// before it were plain ASCII.
pub open spec fn hex_pair_cuts_char(v: Seq<char>, k: int) -> bool {
    &&& 2 * k < v.len()
    &&& (utf8_len(v[2 * k]) >= 3 || (utf8_len(v[2 * k]) == 1 && 2 * k + 1 < v.len() && utf8_len(
        v[2 * k + 1],
    ) >= 2))
}

/// The inputs on which reading a colour string slices a character in two and panics.
#[verifier::opaque]
pub open spec fn hex_color_panics(value: Seq<char>) -> bool {
    let v = hex_body(value);
    &&& utf8_len_seq(v) == 6
    &&& {
        ||| hex_pair_cuts_char(v, 0)
        ||| (hex_pair_ok(v, 0) && hex_pair_cuts_char(v, 1))
        ||| (hex_pair_ok(v, 0) && hex_pair_ok(v, 1) && hex_pair_cuts_char(v, 2))
    }
}

/// The colour a string such as `#1e2127` denotes: after trimming and dropping leading `#`,
/// six bytes read as three hex pairs; anything else denotes no colour.
#[verifier::opaque]
pub open spec fn hex_color_spec(value: Seq<char>) -> Option<TerminalColor> {
    let v = hex_body(value);
    if utf8_len_seq(v) == 6 && hex_pair_ok(v, 0) && hex_pair_ok(v, 1) && hex_pair_ok(v, 2) {
        Some(
            TerminalColor {
                red: hex_pair_spec(v[0], v[1])->0,
                green: hex_pair_spec(v[2], v[3])->0,
                blue: hex_pair_spec(v[4], v[5])->0,
                alpha: 255,
            },
        )
    } else {
        None
    }
}

fn char_utf8_len(c: char) -> (n: usize)
    ensures
        n == utf8_len(c),
{
    let u = c as u32;
    if u < 0x80 {
        1
    } else if u < 0x800 {
        2
    } else if u < 0x10000 {
        3
    } else {
        4
    }
}

fn hex_digit(c: char) -> (r: Option<u8>)
    ensures
        r matches Some(d) ==> hex_digit_value(c) == Some(d as nat),
        r is None ==> hex_digit_value(c) is None,
{
    let u = c as u32;
    if '0' <= c && c <= '9' {
        Some((u - 48) as u8)
    } else if 'a' <= c && c <= 'f' {
        Some((u - 87) as u8)
    } else if 'A' <= c && c <= 'F' {
        Some((u - 55) as u8)
    } else {
        None
    }
}

fn hex_pair(a: char, b: char) -> (r: Option<u8>)
    ensures
        r == hex_pair_spec(a, b),
{
    if a == '+' {
        hex_digit(b)
    } else {
        match (hex_digit(a), hex_digit(b)) {
            (Some(x), Some(y)) => Some(x * 16 + y),
            _ => None,
        }
    }
}

proof fn lemma_utf8_len_seq_monotone(s: Seq<char>, i: int)
    requires
        0 <= i <= s.len(),
    ensures
        utf8_len_seq(s.take(i)) <= utf8_len_seq(s),
    decreases s.len() - i,
{
    if i < s.len() {
        lemma_utf8_len_seq_monotone(s, i + 1);
        assert(s.take(i + 1).drop_last() =~= s.take(i));
    } else {
        assert(s.take(i) =~= s);
    }
}

/// Reads byte pair `k` of the body `v`, given that the pairs before it were ASCII.
fn read_hex_pair(v: &Vec<char>, k: usize) -> (r: Option<u8>)
    requires
        k <= 2,
    ensures
        r is Some <==> hex_pair_ok(v@, k as int),
        r matches Some(b) ==> Some(b) == hex_pair_spec(v@[2 * k], v@[2 * k + 1]),
{
    let i = 2 * k;
    if i + 1 < v.len() {
        let a = v[i];
        let b = v[i + 1];
        if char_utf8_len(a) == 1 && char_utf8_len(b) == 1 {
            hex_pair(a, b)
        } else {
            None
        }
    } else {
        None
    }
}

/// The characters of `value` read as hex digits (see `hex_body`).
fn hex_body_of(value: &str) -> (w: Vec<char>)
    ensures
        w@ == hex_body(value@),
{
    let v = chars_of(value);
    let (lo, hi) = trim_bounds(&v);
    let ghost t = trim_spec(value@);
    let mut start = lo;
    while start < hi && v[start] == '#'
        invariant
            lo <= start <= hi <= v@.len(),
            v@ == value@,
            t == v@.subrange(lo as int, hi as int),
            strip_hashes(t) == strip_hashes(v@.subrange(start as int, hi as int)),
        decreases hi - start,
    {
        assert(v@.subrange(start as int, hi as int).drop_first() =~= v@.subrange(
            start + 1,
            hi as int,
        ));
        start = start + 1;
    }
    let ghost body = v@.subrange(start as int, hi as int);
    assert(strip_hashes(body) == body);
    assert(hex_body(value@) == body);
    let mut w: Vec<char> = Vec::new();
    let mut j = start;
    while j < hi
        invariant
            start <= j <= hi <= v@.len(),
            w@ == v@.subrange(start as int, j as int),
        decreases hi - j,
    {
        w.push(v[j]);
        assert(v@.subrange(start as int, j + 1) =~= v@.subrange(start as int, j as int).push(
            v@[j as int],
        ));
        j = j + 1;
    }
    w
}

/// Whether `w` takes exactly six bytes in UTF-8.
fn is_six_bytes(w: &Vec<char>) -> (b: bool)
    ensures
        b == (utf8_len_seq(w@) == 6),
{
    // byte length of the body, stopping early once it is past six
    let mut total: usize = 0;
    let mut j: usize = 0;
    while j < w.len() && total <= 6
        invariant
            j <= w@.len(),
            total == utf8_len_seq(w@.take(j as int)),
            total <= 10,
        decreases w.len() - j,
    {
        assert(w@.take(j + 1).drop_last() =~= w@.take(j as int));
        total = total + char_utf8_len(w[j]);
        j = j + 1;
    }
    if total != 6 || j < w.len() {
        proof {
            lemma_utf8_len_seq_monotone(w@, j as int);
            if j == w.len() {
                assert(w@.take(j as int) =~= w@);
            }
        }
        return false;
    }
    assert(w@.take(j as int) =~= w@);
    true
}

/// Whether slicing byte pair `k` of `w` cuts a character in two (see `hex_pair_cuts_char`).
fn pair_cuts_char(w: &Vec<char>, k: usize) -> (b: bool)
    requires
        k <= 2,
    ensures
        b == hex_pair_cuts_char(w@, k as int),
{
    let i = 2 * k;
    if i >= w.len() {
        return false;
    }
    let first = char_utf8_len(w[i]);
    first >= 3 || (first == 1 && i + 1 < w.len() && char_utf8_len(w[i + 1]) >= 2)
}

/// Whether reading the colour string `value` would cut a character in two, the inputs on
/// which `parse_hex_color` may not be called.
pub fn hex_color_would_panic(value: &str) -> (b: bool)
    ensures
        b == hex_color_panics(value@),
{
    reveal(hex_color_panics);
    let w = hex_body_of(value);
    if !is_six_bytes(&w) {
        return false;
    }
    if pair_cuts_char(&w, 0) {
        return true;
    }
    if read_hex_pair(&w, 0).is_none() {
        return false;
    }
    if pair_cuts_char(&w, 1) {
        return true;
    }
    if read_hex_pair(&w, 1).is_none() {
        return false;
    }
    pair_cuts_char(&w, 2)
}

/// Reads a colour string such as `#1e2127`.
pub fn parse_hex_color(value: &str) -> (r: Option<TerminalColor>)
    requires
        !hex_color_panics(value@),
    ensures
        r == hex_color_spec(value@),
{
    reveal(hex_color_spec);
    reveal(hex_color_panics);
    let w = hex_body_of(value);
    if !is_six_bytes(&w) {
        return None;
    }
    let red = match read_hex_pair(&w, 0) {
        Some(b) => b,
        None => {
            return None;
        },
    };
    let green = match read_hex_pair(&w, 1) {
        Some(b) => b,
        None => {
            return None;
        },
    };
    let blue = match read_hex_pair(&w, 2) {
        Some(b) => b,
        None => {
            return None;
        },
    };
    Some(TerminalColor { red, green, blue, alpha: 255 })
}

// ---------------------------------------------------------------------------
// Resolved terminal theme
// ---------------------------------------------------------------------------

/// A colour scheme with every colour resolved to RGBA.
#[derive(Debug, Clone, Copy)]
pub struct TerminalTheme {
    pub background: TerminalColor,
    pub foreground: TerminalColor,
    pub cursor_color: TerminalColor,
    pub cursor_text: TerminalColor,
    pub selection_background: TerminalColor,
    pub selection_foreground: TerminalColor,
    pub ansi: [TerminalColor; 16],
}

pub open spec fn opaque_rgb(red: u8, green: u8, blue: u8) -> TerminalColor {
    TerminalColor { red, green, blue, alpha: 255 }
}

/// The colours of the light scheme, read: what each of `atom_one_light_fields` denotes.
pub open spec fn light_fallback_colors() -> Seq<TerminalColor> {
    seq![
        opaque_rgb(0xfa, 0xfa, 0xfa), opaque_rgb(0x38, 0x3a, 0x42), opaque_rgb(0x52, 0x6f, 0xff),
        opaque_rgb(0xfa, 0xfa, 0xfa), opaque_rgb(0xdb, 0xe9, 0xff), opaque_rgb(0x1f, 0x23, 0x29),
        opaque_rgb(0x00, 0x00, 0x00), opaque_rgb(0xe4, 0x56, 0x49), opaque_rgb(0x50, 0xa1, 0x4f),
        opaque_rgb(0xc1, 0x84, 0x01), opaque_rgb(0x40, 0x78, 0xf2), opaque_rgb(0xa6, 0x26, 0xa4),
        opaque_rgb(0x01, 0x84, 0xbc), opaque_rgb(0xa0, 0xa1, 0xa7),
        opaque_rgb(0x69, 0x6c, 0x77), opaque_rgb(0xdf, 0x6c, 0x75), opaque_rgb(0x6a, 0xaf, 0x69),
        opaque_rgb(0xe4, 0xc0, 0x7b), opaque_rgb(0x61, 0xaf, 0xef), opaque_rgb(0xc6, 0x78, 0xdd),
        opaque_rgb(0x56, 0xb6, 0xc2), opaque_rgb(0xff, 0xff, 0xff),
    ]
}

/// The colour that `value` denotes, or `fallback` where it denotes none.
pub open spec fn color_or(value: Seq<char>, fallback: TerminalColor) -> TerminalColor {
    match hex_color_spec(value) {
        Some(c) => c,
        None => fallback,
    }
}

/// Whether none of the colour strings of a scheme makes reading it panic.
pub open spec fn colors_readable(colors: TerminalColors) -> bool {
    forall|k: int| 0 <= k < 22 ==> !hex_color_panics(#[trigger] colors.spec_fields()[k])
}

/// The twenty-two resolved colours of a theme, in the order of `TerminalColors::spec_fields`.
pub open spec fn theme_colors(t: TerminalTheme) -> Seq<TerminalColor> {
    seq![
        t.background,
        t.foreground,
        t.cursor_color,
        t.cursor_text,
        t.selection_background,
        t.selection_foreground,
    ] + t.ansi@
}

fn read_color(value: &String, fallback: TerminalColor) -> (c: TerminalColor)
    requires
        !hex_color_panics(value@),
    ensures
        c == color_or(value@, fallback),
{
    match parse_hex_color(value.as_str()) {
        Some(c) => c,
        None => fallback,
    }
}

fn rgb(red: u8, green: u8, blue: u8) -> (c: TerminalColor)
    ensures
        c == opaque_rgb(red, green, blue),
{
    TerminalColor { red, green, blue, alpha: 255 }
}

impl TerminalTheme {
    /// Resolves a colour scheme; a colour that does not read as hex takes the colour of the
    /// light scheme in its place.
    pub fn from_settings(colors: &TerminalColors) -> (t: Self)
        requires
            colors_readable(*colors),
        ensures
            theme_colors(t).len() == 22,
            forall|k: int|
                0 <= k < 22 ==> #[trigger] theme_colors(t)[k] == color_or(
                    colors.spec_fields()[k],
                    light_fallback_colors()[k],
                ),
    {
        let ghost f = colors.spec_fields();
        assert(!hex_color_panics(f[0]) && !hex_color_panics(f[1]) && !hex_color_panics(f[2])
            && !hex_color_panics(f[3]) && !hex_color_panics(f[4]) && !hex_color_panics(f[5]));
        assert(!hex_color_panics(f[6]) && !hex_color_panics(f[7]) && !hex_color_panics(f[8])
            && !hex_color_panics(f[9]) && !hex_color_panics(f[10]) && !hex_color_panics(f[11])
            && !hex_color_panics(f[12]) && !hex_color_panics(f[13]));
        assert(!hex_color_panics(f[14]) && !hex_color_panics(f[15]) && !hex_color_panics(f[16])
            && !hex_color_panics(f[17]) && !hex_color_panics(f[18]) && !hex_color_panics(f[19])
            && !hex_color_panics(f[20]) && !hex_color_panics(f[21]));
        let n = &colors.normal;
        let b = &colors.bright;
        let ansi = [
            read_color(&n.black, rgb(0x00, 0x00, 0x00)),
            read_color(&n.red, rgb(0xe4, 0x56, 0x49)),
            read_color(&n.green, rgb(0x50, 0xa1, 0x4f)),
            read_color(&n.yellow, rgb(0xc1, 0x84, 0x01)),
            read_color(&n.blue, rgb(0x40, 0x78, 0xf2)),
            read_color(&n.magenta, rgb(0xa6, 0x26, 0xa4)),
            read_color(&n.cyan, rgb(0x01, 0x84, 0xbc)),
            read_color(&n.white, rgb(0xa0, 0xa1, 0xa7)),
            read_color(&b.black, rgb(0x69, 0x6c, 0x77)),
            read_color(&b.red, rgb(0xdf, 0x6c, 0x75)),
            read_color(&b.green, rgb(0x6a, 0xaf, 0x69)),
            read_color(&b.yellow, rgb(0xe4, 0xc0, 0x7b)),
            read_color(&b.blue, rgb(0x61, 0xaf, 0xef)),
            read_color(&b.magenta, rgb(0xc6, 0x78, 0xdd)),
            read_color(&b.cyan, rgb(0x56, 0xb6, 0xc2)),
            read_color(&b.white, rgb(0xff, 0xff, 0xff)),
        ];
        let t = TerminalTheme {
            background: read_color(&colors.primary.background, rgb(0xfa, 0xfa, 0xfa)),
            foreground: read_color(&colors.primary.foreground, rgb(0x38, 0x3a, 0x42)),
            cursor_color: read_color(&colors.cursor.cursor, rgb(0x52, 0x6f, 0xff)),
            cursor_text: read_color(&colors.cursor.text, rgb(0xfa, 0xfa, 0xfa)),
            selection_background: read_color(&colors.selection.background, rgb(0xdb, 0xe9, 0xff)),
            selection_foreground: read_color(&colors.selection.text, rgb(0x1f, 0x23, 0x29)),
            ansi,
        };
        assert(theme_colors(t) =~= Seq::new(
            22,
            |k: int| color_or(f[k], light_fallback_colors()[k]),
        ));
        t
    }
}

/// The colour of a 256-colour palette index that the terminal has not redefined: the
/// theme's sixteen ANSI colours, then the 6x6x6 colour cube, then the grey ramp.
pub open spec fn indexed_color_spec(index: u8, ansi: Seq<TerminalColor>) -> TerminalColor {
    if index < 16 {
        opaque_rgb(ansi[index as int].red, ansi[index as int].green, ansi[index as int].blue)
    } else if index <= 231 {
        let i = index - 16;
        let comp = |v: int| if v == 0 { 0u8 } else { (v * 40 + 55) as u8 };
        opaque_rgb(comp(i / 36), comp((i % 36) / 6), comp(i % 6))
    } else {
        let gray = (8 + (index - 232) * 10) as u8;
        opaque_rgb(gray, gray, gray)
    }
}

fn cube_component(v: u8) -> (c: u8)
    requires
        v < 6,
    ensures
        c == (if v == 0 { 0u8 } else { (v * 40 + 55) as u8 }),
{
    if v == 0 {
        0
    } else {
        v * 40 + 55
    }
}

/// The fallback colour of a palette index.
pub fn fallback_indexed_color(index: u8, theme: &TerminalTheme) -> (c: TerminalColor)
    ensures
        c == indexed_color_spec(index, theme.ansi@),
{
    if index < 16 {
        let a = theme.ansi[index as usize];
        return rgb(a.red, a.green, a.blue);
    }
    if index <= 231 {
        let i = index - 16;
        let r = cube_component(i / 36);
        let g = cube_component((i % 36) / 6);
        let b = cube_component(i % 6);
        return rgb(r, g, b);
    }
    let gray = 8 + (index - 232) * 10;
    rgb(gray, gray, gray)
}

/// The named colours a terminal program can ask for.
#[derive(Debug, Clone, Copy, PartialEq, Eq, Structural)]
pub enum TerminalNamedColor {
    Black,
    Red,
    Green,
    Yellow,
    Blue,
    Magenta,
    Cyan,
    White,
    BrightBlack,
    BrightRed,
    BrightGreen,
    BrightYellow,
    BrightBlue,
    BrightMagenta,
    BrightCyan,
    BrightWhite,
    Foreground,
    Background,
    Cursor,
    DimBlack,
    DimRed,
    DimGreen,
    DimYellow,
    DimBlue,
    DimMagenta,
    DimCyan,
    DimWhite,
    BrightForeground,
    DimForeground,
}

/// Where a named colour comes from in a theme: the background, the foreground, the cursor
/// colour, or one of the sixteen ANSI colours (dim colours take their normal colour).
pub open spec fn named_color_spec(named: TerminalNamedColor, t: TerminalTheme) -> TerminalColor {
    match named {
        TerminalNamedColor::Background => t.background,
        TerminalNamedColor::Foreground => t.foreground,
        TerminalNamedColor::BrightForeground => t.foreground,
        TerminalNamedColor::DimForeground => t.foreground,
        TerminalNamedColor::Cursor => t.cursor_color,
        TerminalNamedColor::Black => t.ansi[0],
        TerminalNamedColor::Red => t.ansi[1],
        TerminalNamedColor::Green => t.ansi[2],
        TerminalNamedColor::Yellow => t.ansi[3],
        TerminalNamedColor::Blue => t.ansi[4],
        TerminalNamedColor::Magenta => t.ansi[5],
        TerminalNamedColor::Cyan => t.ansi[6],
        TerminalNamedColor::White => t.ansi[7],
        TerminalNamedColor::BrightBlack => t.ansi[8],
        TerminalNamedColor::BrightRed => t.ansi[9],
        TerminalNamedColor::BrightGreen => t.ansi[10],
        TerminalNamedColor::BrightYellow => t.ansi[11],
        TerminalNamedColor::BrightBlue => t.ansi[12],
        TerminalNamedColor::BrightMagenta => t.ansi[13],
        TerminalNamedColor::BrightCyan => t.ansi[14],
        TerminalNamedColor::BrightWhite => t.ansi[15],
        TerminalNamedColor::DimBlack => t.ansi[0],
        TerminalNamedColor::DimRed => t.ansi[1],
        TerminalNamedColor::DimGreen => t.ansi[2],
        TerminalNamedColor::DimYellow => t.ansi[3],
        TerminalNamedColor::DimBlue => t.ansi[4],
        TerminalNamedColor::DimMagenta => t.ansi[5],
        TerminalNamedColor::DimCyan => t.ansi[6],
        TerminalNamedColor::DimWhite => t.ansi[7],
    }
}

/// The fallback colour of a named colour the terminal has not redefined, made opaque.
pub fn fallback_named_color(named: TerminalNamedColor, theme: &TerminalTheme) -> (c: TerminalColor)
    ensures
        c == opaque_rgb(
            named_color_spec(named, *theme).red,
            named_color_spec(named, *theme).green,
            named_color_spec(named, *theme).blue,
        ),
{
    let source = match named {
        TerminalNamedColor::Background => theme.background,
        TerminalNamedColor::Foreground => theme.foreground,
        TerminalNamedColor::BrightForeground => theme.foreground,
        TerminalNamedColor::DimForeground => theme.foreground,
        TerminalNamedColor::Cursor => theme.cursor_color,
        TerminalNamedColor::Black => theme.ansi[0],
        TerminalNamedColor::Red => theme.ansi[1],
        TerminalNamedColor::Green => theme.ansi[2],
        TerminalNamedColor::Yellow => theme.ansi[3],
        TerminalNamedColor::Blue => theme.ansi[4],
        TerminalNamedColor::Magenta => theme.ansi[5],
        TerminalNamedColor::Cyan => theme.ansi[6],
        TerminalNamedColor::White => theme.ansi[7],
        TerminalNamedColor::BrightBlack => theme.ansi[8],
        TerminalNamedColor::BrightRed => theme.ansi[9],
        TerminalNamedColor::BrightGreen => theme.ansi[10],
        TerminalNamedColor::BrightYellow => theme.ansi[11],
        TerminalNamedColor::BrightBlue => theme.ansi[12],
        TerminalNamedColor::BrightMagenta => theme.ansi[13],
        TerminalNamedColor::BrightCyan => theme.ansi[14],
        TerminalNamedColor::BrightWhite => theme.ansi[15],
        TerminalNamedColor::DimBlack => theme.ansi[0],
        TerminalNamedColor::DimRed => theme.ansi[1],
        TerminalNamedColor::DimGreen => theme.ansi[2],
        TerminalNamedColor::DimYellow => theme.ansi[3],
        TerminalNamedColor::DimBlue => theme.ansi[4],
        TerminalNamedColor::DimMagenta => theme.ansi[5],
        TerminalNamedColor::DimCyan => theme.ansi[6],
        TerminalNamedColor::DimWhite => theme.ansi[7],
    };
    rgb(source.red, source.green, source.blue)
}

/// What `fallback_named_color` gives for a named colour.
pub open spec fn named_fallback(named: TerminalNamedColor, t: TerminalTheme) -> TerminalColor {
    opaque_rgb(named_color_spec(named, t).red, named_color_spec(named, t).green, named_color_spec(named, t).blue)
}

/// The named colours and the palette agree: black, red, green, yellow, blue, magenta, cyan
/// and white are palette colours 0 to 7, their bright forms 8 to 15, and each dim form is
/// its normal colour.
pub proof fn lemma_named_colors_follow_palette(t: TerminalTheme)
    ensures
        named_fallback(TerminalNamedColor::Black, t) == indexed_color_spec(0, t.ansi@),
        named_fallback(TerminalNamedColor::Red, t) == indexed_color_spec(1, t.ansi@),
        named_fallback(TerminalNamedColor::Green, t) == indexed_color_spec(2, t.ansi@),
        named_fallback(TerminalNamedColor::Yellow, t) == indexed_color_spec(3, t.ansi@),
        named_fallback(TerminalNamedColor::Blue, t) == indexed_color_spec(4, t.ansi@),
        named_fallback(TerminalNamedColor::Magenta, t) == indexed_color_spec(5, t.ansi@),
        named_fallback(TerminalNamedColor::Cyan, t) == indexed_color_spec(6, t.ansi@),
        named_fallback(TerminalNamedColor::White, t) == indexed_color_spec(7, t.ansi@),
        named_fallback(TerminalNamedColor::BrightBlack, t) == indexed_color_spec(8, t.ansi@),
        named_fallback(TerminalNamedColor::BrightRed, t) == indexed_color_spec(9, t.ansi@),
        named_fallback(TerminalNamedColor::BrightGreen, t) == indexed_color_spec(10, t.ansi@),
        named_fallback(TerminalNamedColor::BrightYellow, t) == indexed_color_spec(11, t.ansi@),
        named_fallback(TerminalNamedColor::BrightBlue, t) == indexed_color_spec(12, t.ansi@),
        named_fallback(TerminalNamedColor::BrightMagenta, t) == indexed_color_spec(13, t.ansi@),
        named_fallback(TerminalNamedColor::BrightCyan, t) == indexed_color_spec(14, t.ansi@),
        named_fallback(TerminalNamedColor::BrightWhite, t) == indexed_color_spec(15, t.ansi@),
        named_fallback(TerminalNamedColor::DimBlack, t) == indexed_color_spec(0, t.ansi@),
        named_fallback(TerminalNamedColor::DimRed, t) == indexed_color_spec(1, t.ansi@),
        named_fallback(TerminalNamedColor::DimGreen, t) == indexed_color_spec(2, t.ansi@),
        named_fallback(TerminalNamedColor::DimYellow, t) == indexed_color_spec(3, t.ansi@),
        named_fallback(TerminalNamedColor::DimBlue, t) == indexed_color_spec(4, t.ansi@),
        named_fallback(TerminalNamedColor::DimMagenta, t) == indexed_color_spec(5, t.ansi@),
        named_fallback(TerminalNamedColor::DimCyan, t) == indexed_color_spec(6, t.ansi@),
        named_fallback(TerminalNamedColor::DimWhite, t) == indexed_color_spec(7, t.ansi@),
        named_fallback(TerminalNamedColor::Foreground, t) == opaque_rgb(t.foreground.red, t.foreground.green, t.foreground.blue),
        named_fallback(TerminalNamedColor::Background, t) == opaque_rgb(t.background.red, t.background.green, t.background.blue),
        named_fallback(TerminalNamedColor::Cursor, t) == opaque_rgb(t.cursor_color.red, t.cursor_color.green, t.cursor_color.blue),
{
}

proof fn lemma_ascii_utf8_len(s: Seq<char>)
    requires
        forall|k: int| 0 <= k < s.len() ==> (#[trigger] s[k] as u32) < 0x80,
    ensures
        utf8_len_seq(s) == s.len(),
    decreases s.len(),
{
    if s.len() > 0 {
        let t = s.drop_last();
        assert forall|k: int| 0 <= k < t.len() implies (#[trigger] t[k] as u32) < 0x80 by {
            assert(t[k] == s[k]);
        }
        lemma_ascii_utf8_len(t);
        assert((s.last() as u32) < 0x80);
    }
}

/// A seven-character string `#rrggbb` of lower-case hex digits denotes the colour its
/// three pairs spell.
proof fn lemma_hex_literal(s: Seq<char>)
    requires
        s.len() == 7,
        s[0] == '#',
        forall|k: int|
            1 <= k < 7 ==> ('0' <= #[trigger] s[k] <= '9' || ('a' <= s[k] && s[k] <= 'f')),
    ensures
        hex_color_spec(s) == Some(
            opaque_rgb(
                hex_pair_spec(s[1], s[2])->0,
                hex_pair_spec(s[3], s[4])->0,
                hex_pair_spec(s[5], s[6])->0,
            ),
        ),
        hex_pair_spec(s[1], s[2]) is Some,
        hex_pair_spec(s[3], s[4]) is Some,
        hex_pair_spec(s[5], s[6]) is Some,
{
    reveal(hex_color_spec);
    assert(s[1] != '+' && s[3] != '+' && s[5] != '+');
    assert(!is_ws(s[0]));
    assert(!is_ws(s[6]));
    assert(trim_spec(s) == s) by {
        assert(crate::text::trim_start_spec(s) == s);
        assert(s.last() == s[6]);
        assert(crate::text::trim_end_spec(s) == s);
    }
    let v = s.drop_first();
    assert(strip_hashes(v) == v) by {
        assert(v[0] == s[1]);
    }
    assert(hex_body(s) == v);
    assert forall|k: int| 0 <= k < v.len() implies (#[trigger] v[k] as u32) < 0x80 by {
        assert(v[k] == s[k + 1]);
    }
    lemma_ascii_utf8_len(v);
    assert(v[0] == s[1] && v[1] == s[2] && v[2] == s[3] && v[3] == s[4] && v[4] == s[5] && v[5]
        == s[6]);
}

/// The fallback colours are what the light scheme's colour strings denote.
#[verifier::spinoff_prover]
pub proof fn lemma_light_fallback_is_light_scheme(k: int)
    requires
        0 <= k < 22,
    ensures
        hex_color_spec(atom_one_light_fields()[k]) == Some(light_fallback_colors()[k]),
{
    if k == 0 {
        assert(hex_color_spec(atom_one_light_fields()[k]) == Some(light_fallback_colors()[k])) by {
            reveal_strlit("#fafafa");
            lemma_hex_literal("#fafafa"@);
        }
    }
    if k == 1 {
        assert(hex_color_spec(atom_one_light_fields()[k]) == Some(light_fallback_colors()[k])) by {
            reveal_strlit("#383a42");
            lemma_hex_literal("#383a42"@);
        }
    }
    if k == 2 {
        assert(hex_color_spec(atom_one_light_fields()[k]) == Some(light_fallback_colors()[k])) by {
            reveal_strlit("#526fff");
            lemma_hex_literal("#526fff"@);
        }
    }
    if k == 3 {
        assert(hex_color_spec(atom_one_light_fields()[k]) == Some(light_fallback_colors()[k])) by {
            reveal_strlit("#fafafa");
            lemma_hex_literal("#fafafa"@);
        }
    }
    if k == 4 {
        assert(hex_color_spec(atom_one_light_fields()[k]) == Some(light_fallback_colors()[k])) by {
            reveal_strlit("#dbe9ff");
            lemma_hex_literal("#dbe9ff"@);
        }
    }
    if k == 5 {
        assert(hex_color_spec(atom_one_light_fields()[k]) == Some(light_fallback_colors()[k])) by {
            reveal_strlit("#1f2329");
            lemma_hex_literal("#1f2329"@);
        }
    }
    if k == 6 {
        assert(hex_color_spec(atom_one_light_fields()[k]) == Some(light_fallback_colors()[k])) by {
            reveal_strlit("#000000");
            lemma_hex_literal("#000000"@);
        }
    }
    if k == 7 {
        assert(hex_color_spec(atom_one_light_fields()[k]) == Some(light_fallback_colors()[k])) by {
            reveal_strlit("#e45649");
            lemma_hex_literal("#e45649"@);
        }
    }
    if k == 8 {
        assert(hex_color_spec(atom_one_light_fields()[k]) == Some(light_fallback_colors()[k])) by {
            reveal_strlit("#50a14f");
            lemma_hex_literal("#50a14f"@);
        }
    }
    if k == 9 {
        assert(hex_color_spec(atom_one_light_fields()[k]) == Some(light_fallback_colors()[k])) by {
            reveal_strlit("#c18401");
            lemma_hex_literal("#c18401"@);
        }
    }
    if k == 10 {
        assert(hex_color_spec(atom_one_light_fields()[k]) == Some(light_fallback_colors()[k])) by {
            reveal_strlit("#4078f2");
            lemma_hex_literal("#4078f2"@);
        }
    }
    if k == 11 {
        assert(hex_color_spec(atom_one_light_fields()[k]) == Some(light_fallback_colors()[k])) by {
            reveal_strlit("#a626a4");
            lemma_hex_literal("#a626a4"@);
        }
    }
    if k == 12 {
        assert(hex_color_spec(atom_one_light_fields()[k]) == Some(light_fallback_colors()[k])) by {
            reveal_strlit("#0184bc");
            lemma_hex_literal("#0184bc"@);
        }
    }
    if k == 13 {
        assert(hex_color_spec(atom_one_light_fields()[k]) == Some(light_fallback_colors()[k])) by {
            reveal_strlit("#a0a1a7");
            lemma_hex_literal("#a0a1a7"@);
        }
    }
    if k == 14 {
        assert(hex_color_spec(atom_one_light_fields()[k]) == Some(light_fallback_colors()[k])) by {
            reveal_strlit("#696c77");
            lemma_hex_literal("#696c77"@);
        }
    }
    if k == 15 {
        assert(hex_color_spec(atom_one_light_fields()[k]) == Some(light_fallback_colors()[k])) by {
            reveal_strlit("#df6c75");
            lemma_hex_literal("#df6c75"@);
        }
    }
    if k == 16 {
        assert(hex_color_spec(atom_one_light_fields()[k]) == Some(light_fallback_colors()[k])) by {
            reveal_strlit("#6aaf69");
            lemma_hex_literal("#6aaf69"@);
        }
    }
    if k == 17 {
        assert(hex_color_spec(atom_one_light_fields()[k]) == Some(light_fallback_colors()[k])) by {
            reveal_strlit("#e4c07b");
            lemma_hex_literal("#e4c07b"@);
        }
    }
    if k == 18 {
        assert(hex_color_spec(atom_one_light_fields()[k]) == Some(light_fallback_colors()[k])) by {
            reveal_strlit("#61afef");
            lemma_hex_literal("#61afef"@);
        }
    }
    if k == 19 {
        assert(hex_color_spec(atom_one_light_fields()[k]) == Some(light_fallback_colors()[k])) by {
            reveal_strlit("#c678dd");
            lemma_hex_literal("#c678dd"@);
        }
    }
    if k == 20 {
        assert(hex_color_spec(atom_one_light_fields()[k]) == Some(light_fallback_colors()[k])) by {
            reveal_strlit("#56b6c2");
            lemma_hex_literal("#56b6c2"@);
        }
    }
    if k == 21 {
        assert(hex_color_spec(atom_one_light_fields()[k]) == Some(light_fallback_colors()[k])) by {
            reveal_strlit("#ffffff");
            lemma_hex_literal("#ffffff"@);
        }
    }
}

// ---------------------------------------------------------------------------
// Theme catalogue
// ---------------------------------------------------------------------------

/// A named colour scheme and the file it came from.
#[derive(Debug, Clone)]
pub struct TerminalThemeEntry {
    pub id: String,
    pub path: String,
    pub colors: TerminalColors,
}

impl TerminalThemeEntry {
    pub fn duplicate(&self) -> (r: Self)
        ensures
            r == *self,
    {
        TerminalThemeEntry { id: self.id.clone(), path: self.path.clone(), colors: self.colors.duplicate() }
    }
}

/// The identifier of the light scheme, which also stands in for unknown themes.
pub open spec fn light_theme_id() -> Seq<char> {
    "atom-one-light"@
}

pub open spec fn dark_theme_id() -> Seq<char> {
    "atom-one-dark"@
}

/// The colours of the built-in theme with identifier `id`, if there is one.
pub open spec fn builtin_theme_fields(id: Seq<char>) -> Option<Seq<Seq<char>>> {
    if id == light_theme_id() {
        Some(atom_one_light_fields())
    } else if id == dark_theme_id() {
        Some(atom_one_dark_fields())
    } else {
        None
    }
}

/// The file a built-in theme with identifier `id` is read from, if there is one.
pub open spec fn builtin_theme_path(id: Seq<char>) -> Option<Seq<char>> {
    if id == light_theme_id() {
        Some("assets/themes/atom-one-light.toml"@)
    } else if id == dark_theme_id() {
        Some("assets/themes/atom-one-dark.toml"@)
    } else {
        None
    }
}

/// The themes that ship with the program: the light scheme, then the dark one.
pub fn builtin_terminal_themes() -> (themes: Vec<TerminalThemeEntry>)
    ensures
        themes@.len() == 2,
        themes@[0].id@ == light_theme_id(),
        Some(themes@[0].path@) == builtin_theme_path(light_theme_id()),
        themes@[0].colors.spec_fields() == atom_one_light_fields(),
        themes@[1].id@ == dark_theme_id(),
        Some(themes@[1].path@) == builtin_theme_path(dark_theme_id()),
        themes@[1].colors.spec_fields() == atom_one_dark_fields(),
{
    let mut themes = Vec::new();
    themes.push(
        TerminalThemeEntry {
            id: owned("atom-one-light"),
            path: owned("assets/themes/atom-one-light.toml"),
            colors: TerminalColors::atom_one_light(),
        },
    );
    themes.push(
        TerminalThemeEntry {
            id: owned("atom-one-dark"),
            path: owned("assets/themes/atom-one-dark.toml"),
            colors: TerminalColors::atom_one_dark(),
        },
    );
    proof {
        reveal_strlit("atom-one-light");
        reveal_strlit("atom-one-dark");
        assert(light_theme_id()[9] != dark_theme_id()[9]);
    }
    themes
}

/// The built-in theme with identifier `theme_id`: the entry of `builtin_terminal_themes`
/// with that identifier, its file and its colours.
pub fn builtin_terminal_theme_by_id(theme_id: &str) -> (r: Option<TerminalThemeEntry>)
    ensures
        r is Some <==> builtin_theme_fields(theme_id@) is Some,
        r matches Some(e) ==> e.id@ == theme_id@ && Some(e.colors.spec_fields())
            == builtin_theme_fields(theme_id@) && Some(e.path@) == builtin_theme_path(theme_id@),
{
    let themes = builtin_terminal_themes();
    if str_eq(themes[0].id.as_str(), theme_id) {
        return Some(themes[0].duplicate());
    }
    if str_eq(themes[1].id.as_str(), theme_id) {
        return Some(themes[1].duplicate());
    }
    None
}

/// The index of the first theme, from `i` on, with identifier `id`.
pub open spec fn find_theme(themes: Seq<TerminalThemeEntry>, id: Seq<char>, i: int) -> Option<int>
    decreases themes.len() - i,
{
    if i < 0 || i >= themes.len() {
        None
    } else if themes[i].id@ == id {
        Some(i)
    } else {
        find_theme(themes, id, i + 1)
    }
}

proof fn lemma_find_theme_bounds(themes: Seq<TerminalThemeEntry>, id: Seq<char>, i: int)
    requires
        0 <= i,
    ensures
        find_theme(themes, id, i) matches Some(k) ==> i <= k < themes.len() && themes[k].id@ == id,
    decreases themes.len() - i,
{
    if i < themes.len() && themes[i].id@ != id {
        lemma_find_theme_bounds(themes, id, i + 1);
    }
}

fn find_theme_index(themes: &Vec<TerminalThemeEntry>, id: &str) -> (r: Option<usize>)
    ensures
        r matches Some(k) ==> find_theme(themes@, id@, 0) == Some(k as int) && k < themes@.len(),
        r is None ==> find_theme(themes@, id@, 0) is None,
{
    let mut i: usize = 0;
    while i < themes.len()
        invariant
            i <= themes@.len(),
            find_theme(themes@, id@, 0) == find_theme(themes@, id@, i as int),
        decreases themes.len() - i,
    {
        if str_eq(themes[i].id.as_str(), id) {
            return Some(i);
        }
        i = i + 1;
    }
    None
}

/// The colours a terminal uses for `theme_id`: the settings' own colours for `default` and
/// for the settings' default theme; otherwise a custom theme of that name, then a built-in
/// one; and when neither exists, the light scheme (a custom one of that name first).
pub open spec fn terminal_colors_spec(
    default_theme_id: Seq<char>,
    settings_colors: Seq<Seq<char>>,
    themes: Seq<TerminalThemeEntry>,
    theme_id: Seq<char>,
) -> Seq<Seq<char>> {
    if theme_id == "default"@ || theme_id == default_theme_id {
        settings_colors
    } else {
        match find_theme(themes, theme_id, 0) {
            Some(k) => themes[k].colors.spec_fields(),
            None => match builtin_theme_fields(theme_id) {
                Some(f) => f,
                None => match find_theme(themes, light_theme_id(), 0) {
                    Some(k) => themes[k].colors.spec_fields(),
                    None => atom_one_light_fields(),
                },
            },
        }
    }
}

/// Chooses the colour scheme of a terminal window (see `terminal_colors_spec`).
pub fn slint_terminal_colors(
    default_theme_id: &str,
    settings_colors: &TerminalColors,
    terminal_themes: &Vec<TerminalThemeEntry>,
    theme_id: &str,
) -> (c: TerminalColors)
    ensures
        c.spec_fields() == terminal_colors_spec(
            default_theme_id@,
            settings_colors.spec_fields(),
            terminal_themes@,
            theme_id@,
        ),
{
    if str_eq(theme_id, "default") || str_eq(theme_id, default_theme_id) {
        return settings_colors.duplicate();
    }
    if let Some(k) = find_theme_index(terminal_themes, theme_id) {
        return terminal_themes[k].colors.duplicate();
    }
    if let Some(e) = builtin_terminal_theme_by_id(theme_id) {
        return e.colors;
    }
    if let Some(k) = find_theme_index(terminal_themes, "atom-one-light") {
        return terminal_themes[k].colors.duplicate();
    }
    match builtin_terminal_theme_by_id("atom-one-light") {
        Some(e) => e.colors,
        None => TerminalColors::atom_one_light(),
    }
}

// ---------------------------------------------------------------------------
// Shortcut and cursor settings
// ---------------------------------------------------------------------------

/// Keyboard shortcuts of the window, written like `Command+Shift+[`.
#[derive(Debug, Clone)]
pub struct ShortcutSettings {
    pub close_tab: String,
    pub tab_switches: [String; 9],
    pub previous_tab: String,
    pub next_tab: String,
    pub open_settings: String,
    pub minimize_window: String,
}

impl Default for ShortcutSettings {
    fn default() -> (s: Self)
        ensures
            s.close_tab@ == "Command+W"@,
            string_views(s.tab_switches@) == seq![
                "Command+1"@, "Command+2"@, "Command+3"@, "Command+4"@, "Command+5"@,
                "Command+6"@, "Command+7"@, "Command+8"@, "Command+9"@,
            ],
            s.previous_tab@ == "Command+Shift+["@,
            s.next_tab@ == "Command+Shift+]"@,
            s.open_settings@ == "Command+,"@,
            s.minimize_window@ == "Command+M"@,
    {
        let tab_switches = [
            owned("Command+1"),
            owned("Command+2"),
            owned("Command+3"),
            owned("Command+4"),
            owned("Command+5"),
            owned("Command+6"),
            owned("Command+7"),
            owned("Command+8"),
            owned("Command+9"),
        ];
        let s = ShortcutSettings {
            close_tab: owned("Command+W"),
            tab_switches,
            previous_tab: owned("Command+Shift+["),
            next_tab: owned("Command+Shift+]"),
            open_settings: owned("Command+,"),
            minimize_window: owned("Command+M"),
        };
        assert(string_views(s.tab_switches@) =~= seq![
            "Command+1"@, "Command+2"@, "Command+3"@, "Command+4"@, "Command+5"@,
            "Command+6"@, "Command+7"@, "Command+8"@, "Command+9"@,
        ]);
        s
    }
}

/// Cursor shape (`block`, `beam` or `underline`) and whether it blinks.
#[derive(Debug, Clone)]
pub struct CursorSettings {
    pub shape: String,
    pub blinking: bool,
}

impl Default for CursorSettings {
    fn default() -> (c: Self)
        ensures
            c.shape@ == "block"@,
            !c.blinking,
    {
        CursorSettings { shape: owned("block"), blinking: false }
    }
}

/// The colours of a shell tab for a connection's theme: the settings' default theme when
/// the connection names none; a built-in theme of that name first, then a custom one, and
/// the settings' own colours when neither exists.
pub open spec fn connection_colors_spec(
    default_theme_id: Seq<char>,
    settings_colors: Seq<Seq<char>>,
    themes: Seq<TerminalThemeEntry>,
    theme_id: Seq<char>,
) -> Seq<Seq<char>> {
    let id = if theme_id.len() == 0 {
        default_theme_id
    } else {
        theme_id
    };
    match builtin_theme_fields(id) {
        Some(f) => f,
        None => match find_theme(themes, id, 0) {
            Some(k) => themes[k].colors.spec_fields(),
            None => settings_colors,
        },
    }
}

/// Chooses the colours of a shell tab (see `connection_colors_spec`).
pub fn slint_terminal_colors_for_connection(
    default_theme_id: &str,
    settings_colors: &TerminalColors,
    themes: &Vec<TerminalThemeEntry>,
    theme_id: &str,
) -> (c: TerminalColors)
    ensures
        c.spec_fields() == connection_colors_spec(
            default_theme_id@,
            settings_colors.spec_fields(),
            themes@,
            theme_id@,
        ),
{
    let id = if theme_id.is_empty() {
        default_theme_id
    } else {
        theme_id
    };
    if let Some(entry) = builtin_terminal_theme_by_id(id) {
        return entry.colors;
    }
    if let Some(k) = find_theme_index(themes, id) {
        return themes[k].colors.duplicate();
    }
    settings_colors.duplicate()
}

// ---------------------------------------------------------------------------
// Custom themes and cursor settings
// ---------------------------------------------------------------------------

/// `s` with theme `e` placed after every theme whose identifier does not sort after its own.
pub open spec fn insert_theme(s: Seq<TerminalThemeEntry>, e: TerminalThemeEntry) -> Seq<TerminalThemeEntry>
    decreases s.len(),
{
    if s.len() == 0 || !text_lt(e.id@, s.last().id@) {
        s.push(e)
    } else {
        insert_theme(s.drop_last(), e).push(s.last())
    }
}

/// Themes sorted by identifier; themes with the same identifier keep their order.
pub open spec fn sort_themes(s: Seq<TerminalThemeEntry>) -> Seq<TerminalThemeEntry>
    decreases s.len(),
{
    if s.len() == 0 {
        s
    } else {
        insert_theme(sort_themes(s.drop_last()), s.last())
    }
}

proof fn lemma_insert_theme_position(t: Seq<TerminalThemeEntry>, e: TerminalThemeEntry, j: int)
    requires
        0 <= j <= t.len(),
        forall|k: int| j <= k < t.len() ==> text_lt(e.id@, (#[trigger] t[k]).id@),
        j == 0 || !text_lt(e.id@, t[j - 1].id@),
    ensures
        insert_theme(t, e) == t.insert(j, e),
    decreases t.len(),
{
    if t.len() == j {
        assert(t.insert(j, e) =~= t.push(e));
    } else {
        let u = t.drop_last();
        assert forall|k: int| j <= k < u.len() implies text_lt(e.id@, (#[trigger] u[k]).id@) by {
            assert(u[k] == t[k]);
        }
        if j > 0 {
            assert(u[j - 1] == t[j - 1]);
        }
        assert(text_lt(e.id@, t[t.len() - 1].id@));
        lemma_insert_theme_position(u, e, j);
        assert(u.insert(j, e).push(t.last()) =~= t.insert(j, e));
    }
}

/// Sorts the custom themes found in the theme directory by identifier.
pub fn sort_themes_by_id(themes: Vec<TerminalThemeEntry>) -> (sorted: Vec<TerminalThemeEntry>)
    ensures
        sorted@ == sort_themes(themes@),
{
    let mut sorted: Vec<TerminalThemeEntry> = Vec::new();
    let mut i: usize = 0;
    while i < themes.len()
        invariant
            i <= themes@.len(),
            sorted@ == sort_themes(themes@.take(i as int)),
        decreases themes.len() - i,
    {
        let e = themes[i].duplicate();
        let ghost t = sorted@;
        assert(themes@.take(i + 1).drop_last() =~= themes@.take(i as int));
        assert(themes@.take(i + 1).last() == e);
        let mut j = sorted.len();
        while j > 0 && text_less(e.id.as_str(), sorted[j - 1].id.as_str())
            invariant
                j <= sorted@.len(),
                sorted@ == t,
                forall|k: int| j <= k < t.len() ==> text_lt(e.id@, (#[trigger] t[k]).id@),
            decreases j,
        {
            j = j - 1;
        }
        proof {
            lemma_insert_theme_position(t, e, j as int);
        }
        sorted.insert(j, e);
        i = i + 1;
    }
    assert(themes@.take(themes@.len() as int) =~= themes@);
    sorted
}

/// Whether themes are in order of identifier.
pub open spec fn themes_sorted(s: Seq<TerminalThemeEntry>) -> bool {
    forall|i: int, j: int| 0 <= i < j < s.len() ==> !text_lt((#[trigger] s[j]).id@, (#[trigger] s[i]).id@)
}

proof fn lemma_not_lt_transitive(a: Seq<char>, b: Seq<char>, c: Seq<char>)
    requires
        !text_lt(a, b),
        !text_lt(b, c),
    ensures
        !text_lt(a, c),
{
    lemma_text_lt_total(a, b);
    lemma_text_lt_total(b, c);
    if text_lt(a, c) && a != b {
        if b == c {
            lemma_text_lt_transitive(a, c, a);
        } else {
            lemma_text_lt_transitive(c, b, a);
            lemma_text_lt_transitive(a, c, a);
        }
        lemma_text_lt_irreflexive(a);
    }
}

proof fn lemma_insert_theme_members(t: Seq<TerminalThemeEntry>, e: TerminalThemeEntry, x: TerminalThemeEntry)
    requires
        insert_theme(t, e).contains(x),
    ensures
        t.contains(x) || x == e,
    decreases t.len(),
{
    if t.len() == 0 || !text_lt(e.id@, t.last().id@) {
        let k = choose|k: int| 0 <= k < t.push(e).len() && t.push(e)[k] == x;
        if k < t.len() {
            assert(t[k] == x);
        }
    } else {
        let u = insert_theme(t.drop_last(), e);
        let k = choose|k: int| 0 <= k < u.push(t.last()).len() && u.push(t.last())[k] == x;
        if k < u.len() {
            assert(u[k] == x);
            lemma_insert_theme_members(t.drop_last(), e, x);
            if t.drop_last().contains(x) {
                let m = choose|m: int| 0 <= m < t.drop_last().len() && t.drop_last()[m] == x;
                assert(t[m] == x);
            }
        } else {
            assert(t[t.len() - 1] == x);
        }
    }
}

proof fn lemma_insert_theme_sorted(t: Seq<TerminalThemeEntry>, e: TerminalThemeEntry)
    requires
        themes_sorted(t),
    ensures
        themes_sorted(insert_theme(t, e)),
        insert_theme(t, e).to_multiset() == t.to_multiset().insert(e),
    decreases t.len(),
{
    broadcast use vstd::seq_lib::to_multiset_build;

    if t.len() == 0 || !text_lt(e.id@, t.last().id@) {
        let r = t.push(e);
        assert forall|i: int, j: int| 0 <= i < j < r.len() implies !text_lt(
            (#[trigger] r[j]).id@,
            (#[trigger] r[i]).id@,
        ) by {
            if j == t.len() {
                assert(r[i] == t[i]);
                if i < t.len() - 1 {
                    assert(!text_lt(t[t.len() - 1].id@, t[i].id@));
                    lemma_not_lt_transitive(e.id@, t.last().id@, t[i].id@);
                }
            } else {
                assert(r[i] == t[i] && r[j] == t[j]);
            }
        }
    } else {
        let u = t.drop_last();
        assert forall|i: int, j: int| 0 <= i < j < u.len() implies !text_lt(
            (#[trigger] u[j]).id@,
            (#[trigger] u[i]).id@,
        ) by {
            assert(u[i] == t[i] && u[j] == t[j]);
        }
        lemma_insert_theme_sorted(u, e);
        let v = insert_theme(u, e);
        let r = v.push(t.last());
        assert forall|i: int, j: int| 0 <= i < j < r.len() implies !text_lt(
            (#[trigger] r[j]).id@,
            (#[trigger] r[i]).id@,
        ) by {
            if j == v.len() {
                assert(r[j] == t.last());
                assert(r[i] == v[i]);
                assert(v.contains(v[i]));
                lemma_insert_theme_members(u, e, v[i]);
                if u.contains(v[i]) {
                    let m = choose|m: int| 0 <= m < u.len() && u[m] == v[i];
                    assert(t[m] == u[m]);
                    assert(t[t.len() - 1] == t.last());
                } else {
                    if text_lt(t.last().id@, e.id@) {
                        lemma_text_lt_transitive(e.id@, t.last().id@, e.id@);
                        lemma_text_lt_irreflexive(e.id@);
                    }
                }
            } else {
                assert(r[i] == v[i] && r[j] == v[j]);
            }
        }
        assert(u.push(t.last()) =~= t);
        assert(insert_theme(t, e).to_multiset() =~= t.to_multiset().insert(e));
    }
}

/// Sorting themes keeps every theme and puts them in order of identifier.
pub proof fn lemma_sort_themes_ordered(s: Seq<TerminalThemeEntry>)
    ensures
        sort_themes(s).to_multiset() == s.to_multiset(),
        sort_themes(s).len() == s.len(),
        themes_sorted(sort_themes(s)),
    decreases s.len(),
{
    broadcast use vstd::seq_lib::to_multiset_build;
    broadcast use vstd::seq_lib::to_multiset_len;

    if s.len() > 0 {
        let u = s.drop_last();
        lemma_sort_themes_ordered(u);
        lemma_insert_theme_sorted(sort_themes(u), s.last());
        assert(u.push(s.last()) =~= s);
    }
    vstd::seq_lib::to_multiset_len(s);
    vstd::seq_lib::to_multiset_len(sort_themes(s));
}

/// The cursor shape a setting names: `beam`, `underline`, and a block for anything else.
pub fn cursor_shape_for_setting(shape: &str) -> (s: TerminalCursorShape)
    ensures
        s == (if shape@ == "beam"@ {
            TerminalCursorShape::Beam
        } else if shape@ == "underline"@ {
            TerminalCursorShape::Underline
        } else {
            TerminalCursorShape::Block
        }),
{
    if str_eq(shape, "beam") {
        TerminalCursorShape::Beam
    } else if str_eq(shape, "underline") {
        TerminalCursorShape::Underline
    } else {
        TerminalCursorShape::Block
    }
}

/// The scrollback a terminal keeps for a setting: at least one line.
pub fn scrollback_history(lines: usize) -> (n: usize)
    ensures
        n == (if lines < 1 { 1 } else { lines }),
{
    if lines < 1 {
        1
    } else {
        lines
    }
}

} // verus!
