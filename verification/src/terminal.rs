use vstd::prelude::*;

use crate::keys::{cursor_key, cursor_key_spec, KeyPlatform, TerminalKeyModifiers, ESC};
use crate::models::{Connection, ConnectionType, Identity, Key, PortForward};
use crate::session::ConnectionTarget;
use crate::selection::TerminalPoint;
use crate::shell::WorkspaceData;
use crate::text::{
    ascii_lower_char, chars_of, is_blank, is_blank_spec, nat_to_decimal_bytes, push_decimal_bytes, is_cc, is_control, is_whitespace, is_ws, owned, parse_i64,
    parse_i64_spec, push_char, str_eq, string_from_chars, string_views, to_ascii_lower,
};

verus! {

/// Events the terminal emulator raises for the window around it.
#[derive(Debug, Clone)]
pub enum TerminalEvent {
    Title(String),
    ResetTitle,
}

// ---------------------------------------------------------------------------
// Cursor blinking
// ---------------------------------------------------------------------------

/// Milliseconds between two phases of a blinking cursor.
pub const CURSOR_BLINK_INTERVAL_MILLIS: u128 = 600;

/// Whether a blinking cursor is drawn `elapsed_millis` after its blinking began: it is
/// shown during even intervals and hidden during odd ones.
pub fn cursor_visible_for_elapsed(elapsed_millis: u128) -> (b: bool)
    ensures
        b == ((elapsed_millis / 600) % 2 == 0),
{
    (elapsed_millis / CURSOR_BLINK_INTERVAL_MILLIS) % 2 == 0
}

/// The blink repeats every 1.2 s: the cursor is shown in the first 600 ms of each period
/// and hidden in the second.
pub proof fn lemma_cursor_blink_period(elapsed_millis: u128)
    ensures
        ((elapsed_millis / 600) % 2 == 0) == ((elapsed_millis % 1200) < 600),
        elapsed_millis + 1200 <= u128::MAX ==> ((elapsed_millis / 600) % 2 == 0) == ((
        (elapsed_millis + 1200) / 600) % 2 == 0),
{
    let t = elapsed_millis as int;
    assert(((t / 600) % 2 == 0) == ((t % 1200) < 600)) by (nonlinear_arith)
        requires
            t >= 0,
    ;
    assert((t + 1200) / 600 == t / 600 + 2) by (nonlinear_arith)
        requires
            t >= 0,
    ;
}

// ---------------------------------------------------------------------------
// Window title
// ---------------------------------------------------------------------------

/// Whether `c` separates words of a title: white space, or a control character (which
/// the title shows as a space).
pub open spec fn title_gap(c: char) -> bool {
    is_cc(c) || is_ws(c)
}

/// The words of `s` joined by single spaces, and whether `s` ends in a gap.
pub open spec fn collapse_gaps(s: Seq<char>) -> (Seq<char>, bool)
    decreases s.len(),
{
    if s.len() == 0 {
        (Seq::empty(), false)
    } else {
        let (acc, gap) = collapse_gaps(s.drop_last());
        let c = s.last();
        if title_gap(c) {
            (acc, true)
        } else if gap && acc.len() > 0 {
            (acc.push(' ').push(c), false)
        } else {
            (acc.push(c), false)
        }
    }
}

/// The title a terminal window shows for the title the program set: control characters
/// become spaces, runs of white space become one space and the ends are trimmed; an empty
/// result gives `fallback`; a long title keeps its first 256 characters.
pub open spec fn window_title_spec(title: Seq<char>, fallback: Seq<char>) -> Seq<char> {
    let words = collapse_gaps(title).0;
    if words.len() == 0 {
        fallback
    } else if words.len() > 256 {
        words.take(256)
    } else {
        words
    }
}

/// The title to show for a terminal window (see `window_title_spec`).
pub fn terminal_window_title(title: &str, fallback: &str) -> (r: String)
    ensures
        r@ == window_title_spec(title@, fallback@),
{
    let v = chars_of(title);
    let mut acc: Vec<char> = Vec::new();
    let mut gap = false;
    let mut i: usize = 0;
    while i < v.len()
        invariant
            v@ == title@,
            i <= v@.len(),
            (acc@, gap) == collapse_gaps(v@.take(i as int)),
        decreases v.len() - i,
    {
        let c = v[i];
        assert(v@.take(i + 1).drop_last() =~= v@.take(i as int));
        assert(v@.take(i + 1).last() == c);
        if is_control(c) || is_whitespace(c) {
            gap = true;
        } else {
            if gap && acc.len() > 0 {
                acc.push(' ');
            }
            acc.push(c);
            gap = false;
        }
        i = i + 1;
    }
    assert(v@.take(v@.len() as int) =~= v@);
    if acc.len() == 0 {
        owned(fallback)
    } else if acc.len() > 256 {
        string_from_chars(&acc, 0, 256)
    } else {
        string_from_chars(&acc, 0, acc.len())
    }
}

proof fn lemma_collapse_gaps_clean(s: Seq<char>)
    ensures
        forall|k: int|
            0 <= k < collapse_gaps(s).0.len() ==> !is_cc(#[trigger] collapse_gaps(s).0[k]),
        collapse_gaps(s).0.len() > 0 ==> !is_ws(collapse_gaps(s).0[0]) && !is_ws(
            collapse_gaps(s).0.last(),
        ),
    decreases s.len(),
{
    if s.len() > 0 {
        lemma_collapse_gaps_clean(s.drop_last());
        let (acc, gap) = collapse_gaps(s.drop_last());
        let c = s.last();
        if !title_gap(c) {
            let out = collapse_gaps(s).0;
            if gap && acc.len() > 0 {
                assert(out == acc.push(' ').push(c));
                assert forall|k: int| 0 <= k < out.len() implies !is_cc(#[trigger] out[k]) by {
                    if k < acc.len() {
                        assert(out[k] == acc[k]);
                    }
                }
                assert(out[0] == acc[0]);
            } else {
                assert(out == acc.push(c));
                assert forall|k: int| 0 <= k < out.len() implies !is_cc(#[trigger] out[k]) by {
                    if k < acc.len() {
                        assert(out[k] == acc[k]);
                    }
                }
                if acc.len() > 0 {
                    assert(out[0] == acc[0]);
                }
            }
        }
    }
}

/// A window title taken from the program holds no control characters, does not start with
/// white space and is at most 256 characters long; an empty one is replaced by the fallback.
pub proof fn lemma_window_title_clean(title: Seq<char>, fallback: Seq<char>)
    ensures
        collapse_gaps(title).0.len() == 0 ==> window_title_spec(title, fallback) == fallback,
        collapse_gaps(title).0.len() > 0 ==> {
            let t = window_title_spec(title, fallback);
            &&& 0 < t.len() <= 256
            &&& !is_ws(t[0])
            &&& forall|k: int| 0 <= k < t.len() ==> !is_cc(#[trigger] t[k])
        },
{
    lemma_collapse_gaps_clean(title);
    let w = collapse_gaps(title).0;
    if w.len() > 256 {
        let t = w.take(256);
        assert forall|k: int| 0 <= k < t.len() implies !is_cc(#[trigger] t[k]) by {
            assert(t[k] == w[k]);
        }
        assert(t[0] == w[0]);
    }
}

// ---------------------------------------------------------------------------
// Command line of the terminal window
// ---------------------------------------------------------------------------

/// The argument that names the connection a terminal window opens.
pub open spec fn connection_id_flag() -> Seq<char> {
    "--connection-id"@
}

/// The same argument in its `--connection-id=` form.
pub open spec fn connection_id_prefix() -> Seq<char> {
    "--connection-id="@
}

/// The connection a terminal window was asked to open: the first `--connection-id VALUE`
/// or `--connection-id=VALUE` from argument `i` on decides, and a value that is missing or
/// not an `i64` gives none.
pub open spec fn requested_connection_id_spec(args: Seq<Seq<char>>, i: int) -> Option<int>
    decreases args.len() - i,
{
    if i < 0 || i >= args.len() {
        None
    } else if args[i] == connection_id_flag() {
        if i + 1 < args.len() {
            parse_i64_spec(args[i + 1])
        } else {
            None
        }
    } else if connection_id_prefix().len() <= args[i].len() && args[i].take(
        connection_id_prefix().len() as int,
    ) == connection_id_prefix() {
        parse_i64_spec(args[i].skip(connection_id_prefix().len() as int))
    } else {
        requested_connection_id_spec(args, i + 1)
    }
}

/// Whether `s` starts with `prefix`, and the rest of `s` after it.
fn strip_prefix(s: &str, prefix: &str) -> (r: Option<String>)
    ensures
        r is Some <==> (prefix@.len() <= s@.len() && s@.take(prefix@.len() as int) == prefix@),
        r matches Some(rest) ==> rest@ == s@.skip(prefix@.len() as int),
{
    let v = chars_of(s);
    let p = chars_of(prefix);
    if p.len() > v.len() {
        return None;
    }
    let mut i: usize = 0;
    while i < p.len()
        invariant
            v@ == s@,
            p@ == prefix@,
            p@.len() <= v@.len(),
            i <= p@.len(),
            forall|k: int| 0 <= k < i ==> v@[k] == p@[k],
        decreases p.len() - i,
    {
        if v[i] != p[i] {
            assert(v@.take(p@.len() as int)[i as int] != p@[i as int]);
            return None;
        }
        i = i + 1;
    }
    assert(v@.take(p@.len() as int) =~= p@);
    let rest = string_from_chars(&v, p.len(), v.len());
    assert(v@.subrange(p@.len() as int, v@.len() as int) =~= v@.skip(p@.len() as int));
    Some(rest)
}

/// The connection identifier given on a terminal window's command line.
pub fn requested_connection_id(args: &Vec<String>) -> (r: Option<i64>)
    ensures
        match requested_connection_id_spec(string_views(args@), 0) {
            Some(v) => r == Some(v as i64),
            None => r is None,
        },
{
    let ghost views = string_views(args@);
    let mut i: usize = 0;
    while i < args.len()
        invariant
            views == string_views(args@),
            i <= args@.len(),
            requested_connection_id_spec(views, 0) == requested_connection_id_spec(views, i as int),
        decreases args.len() - i,
    {
        assert(views[i as int] == args@[i as int]@);
        if str_eq(args[i].as_str(), "--connection-id") {
            if i + 1 < args.len() {
                assert(views[i + 1] == args@[i + 1]@);
                return parse_i64(args[i + 1].as_str());
            }
            return None;
        }
        if let Some(rest) = strip_prefix(args[i].as_str(), "--connection-id=") {
            return parse_i64(rest.as_str());
        }
        i = i + 1;
    }
    None
}

/// The argument that starts the program as a terminal window rather than the shell.
pub const SLINT_TERMINAL_MODE_ARG: &'static str = "--timon-terminal";

/// How the program runs: the shell, or a terminal window with the arguments meant for it.
#[derive(Debug, Clone, PartialEq, Eq)]
pub enum SlintUiMode {
    Shell,
    Terminal(Vec<String>),
}

/// Which window the program opens for its arguments: a terminal window when the terminal
/// mode argument is among them, given every other argument in order; the shell otherwise.
pub open spec fn ui_mode_is(mode: SlintUiMode, args: Seq<Seq<char>>) -> bool {
    let flag = SLINT_TERMINAL_MODE_ARG@;
    if args.contains(flag) {
        mode matches SlintUiMode::Terminal(rest) && string_views(rest@) == args.filter(
            |a: Seq<char>| a != flag,
        )
    } else {
        mode is Shell
    }
}

/// In terminal mode the program's own argument is never handed on, and every other
/// argument is, in order.
pub proof fn lemma_ui_mode_strips_flag(mode: SlintUiMode, args: Seq<Seq<char>>)
    requires
        ui_mode_is(mode, args),
        mode is Terminal,
    ensures
        !string_views(mode->0@).contains(SLINT_TERMINAL_MODE_ARG@),
        string_views(mode->0@).len() < args.len(),
{
    let flag = SLINT_TERMINAL_MODE_ARG@;
    let pred = |a: Seq<char>| a != flag;
    let rest = string_views(mode->0@);
    args.filter_lemma(pred);
    if rest.contains(flag) {
        let k = choose|k: int| 0 <= k < rest.len() && rest[k] == flag;
        assert(pred(args.filter(pred)[k]));
    }
    let i = choose|i: int| 0 <= i < args.len() && args[i] == flag;
    lemma_filter_drops(args, pred, i);
}

proof fn lemma_filter_drops(s: Seq<Seq<char>>, pred: spec_fn(Seq<char>) -> bool, i: int)
    requires
        0 <= i < s.len(),
        !pred(s[i]),
    ensures
        s.filter(pred).len() < s.len(),
    decreases s.len(),
{
    reveal(Seq::filter);
    s.drop_last().lemma_filter_len(pred);
    if i < s.len() - 1 {
        assert(s.drop_last()[i] == s[i]);
        lemma_filter_drops(s.drop_last(), pred, i);
    }
}

/// Chooses the window to open from the program's arguments (see `ui_mode_is`).
pub fn slint_ui_mode(args: Vec<String>) -> (mode: SlintUiMode)
    ensures
        ui_mode_is(mode, string_views(args@)),
{
    let ghost views = string_views(args@);
    let ghost flag = SLINT_TERMINAL_MODE_ARG@;
    let ghost pred = |a: Seq<char>| a != flag;
    let mut terminal_mode = false;
    let mut forwarded: Vec<String> = Vec::new();
    let mut i: usize = 0;
    while i < args.len()
        invariant
            views == string_views(args@),
            flag == SLINT_TERMINAL_MODE_ARG@,
            pred == (|a: Seq<char>| a != flag),
            i <= args@.len(),
            terminal_mode <==> views.take(i as int).contains(flag),
            string_views(forwarded@) == views.take(i as int).filter(pred),
        decreases args.len() - i,
    {
        let ghost before = views.take(i as int);
        let ghost after = views.take(i + 1);
        assert(after.drop_last() =~= before);
        assert(after.last() == args@[i as int]@);
        proof {
            reveal(Seq::filter);
        }
        if str_eq(args[i].as_str(), SLINT_TERMINAL_MODE_ARG) {
            terminal_mode = true;
            assert(after[i as int] == flag);
        } else {
            forwarded.push(args[i].clone());
            assert(string_views(forwarded@) =~= before.filter(pred).push(args@[i as int]@));
            assert forall|a: Seq<char>| after.contains(a) implies (before.contains(a) || a
                == args@[i as int]@) by {
                let k = choose|k: int| 0 <= k < after.len() && #[trigger] after[k] == a;
                if k < i {
                    assert(before[k] == a);
                }
            }
        }
        assert forall|a: Seq<char>| before.contains(a) implies after.contains(a) by {
            let k = choose|k: int| 0 <= k < before.len() && #[trigger] before[k] == a;
            assert(after[k] == a);
        }
        i = i + 1;
    }
    assert(views.take(args@.len() as int) =~= views);
    if terminal_mode {
        SlintUiMode::Terminal(forwarded)
    } else {
        SlintUiMode::Shell
    }
}

// ---------------------------------------------------------------------------
// Clipboard shortcuts
// ---------------------------------------------------------------------------

/// Whether a key press is the clipboard shortcut for `key`: the text is that one letter in
/// either case, with Control (and not Meta) on macOS, and with Control+Shift or Meta
/// elsewhere.
pub open spec fn shortcut_matches_spec(
    text: Seq<char>,
    m: TerminalKeyModifiers,
    key: char,
    platform: KeyPlatform,
) -> bool {
    &&& text.len() == 1
    &&& ascii_lower_char(text[0]) == ascii_lower_char(key)
    &&& match platform {
        KeyPlatform::MacOs => m.control && !m.meta,
        KeyPlatform::Other => (m.control && m.shift) || m.meta,
    }
}

/// Whether a key press is the clipboard shortcut for `key` (see `shortcut_matches_spec`).
pub fn shortcut_matches(text: &str, m: TerminalKeyModifiers, key: char, platform: KeyPlatform) -> (b:
    bool)
    ensures
        b == shortcut_matches_spec(text@, m, key, platform),
{
    let v = chars_of(text);
    if v.len() != 1 {
        return false;
    }
    if to_ascii_lower(v[0]) != to_ascii_lower(key) {
        return false;
    }
    match platform {
        KeyPlatform::MacOs => m.control && !m.meta,
        KeyPlatform::Other => (m.control && m.shift) || m.meta,
    }
}

/// Whether a key press copies the selection.
pub fn is_copy_shortcut(text: &str, m: TerminalKeyModifiers, platform: KeyPlatform) -> (b: bool)
    ensures
        b == shortcut_matches_spec(text@, m, 'c', platform),
{
    shortcut_matches(text, m, 'c', platform)
}

/// Whether a key press pastes the clipboard.
pub fn is_paste_shortcut(text: &str, m: TerminalKeyModifiers, platform: KeyPlatform) -> (b: bool)
    ensures
        b == shortcut_matches_spec(text@, m, 'v', platform),
{
    shortcut_matches(text, m, 'v', platform)
}

// ---------------------------------------------------------------------------
// Pasted text
// ---------------------------------------------------------------------------

/// `s` with every `\r\n` and every lone `\r` turned into `\n`.
pub open spec fn normalize_newlines(s: Seq<char>) -> Seq<char>
    decreases s.len(),
{
    if s.len() == 0 {
        s
    } else if s[0] == '\r' && s.len() >= 2 && s[1] == '\n' {
        seq!['\n'] + normalize_newlines(s.skip(2))
    } else if s[0] == '\r' {
        seq!['\n'] + normalize_newlines(s.skip(1))
    } else {
        seq![s[0]] + normalize_newlines(s.skip(1))
    }
}

/// `s` with every `\n` turned into `\r`, the key a terminal receives for Enter.
pub open spec fn newlines_to_returns(s: Seq<char>) -> Seq<char> {
    s.map_values(|c: char| if c == '\n' { '\r' } else { c })
}

proof fn lemma_normalize_newlines_no_cr(s: Seq<char>)
    ensures
        !normalize_newlines(s).contains('\r'),
        normalize_newlines(s).len() <= s.len(),
    decreases s.len(),
{
    if s.len() > 0 {
        let k: int = if s[0] == '\r' && s.len() >= 2 && s[1] == '\n' {
            2
        } else {
            1
        };
        lemma_normalize_newlines_no_cr(s.skip(k));
        let head: Seq<char> = if s[0] == '\r' {
            seq!['\n']
        } else {
            seq![s[0]]
        };
        let rest = normalize_newlines(s.skip(k));
        assert(normalize_newlines(s) == head + rest);
        assert forall|i: int| 0 <= i < (head + rest).len() implies (head + rest)[i] != '\r' by {
            if i > 0 {
                assert((head + rest)[i] == rest[i - 1]);
                if rest[i - 1] == '\r' {
                    assert(rest.contains('\r'));
                }
            }
        }
    }
}

/// Pasted text sent without bracketed-paste markers carries no line feed and no carriage
/// return other than those that stand for line breaks: its normalised form holds no `\r`,
/// and what is sent holds no `\n`.
pub proof fn lemma_paste_line_breaks(content: Seq<char>)
    ensures
        !normalize_newlines(content).contains('\r'),
        !newlines_to_returns(normalize_newlines(content)).contains('\n'),
{
    lemma_normalize_newlines_no_cr(content);
    let r = newlines_to_returns(normalize_newlines(content));
    if r.contains('\n') {
        let i = choose|i: int| 0 <= i < r.len() && r[i] == '\n';
        assert(r[i] == (if normalize_newlines(content)[i] == '\n' {
            '\r'
        } else {
            normalize_newlines(content)[i]
        }));
    }
}

/// `ESC [ 200 ~`, which opens a bracketed paste.
pub open spec fn paste_start() -> Seq<u8> {
    seq![ESC, 91u8, 50u8, 48u8, 48u8, 126u8]
}

/// `ESC [ 201 ~`, which closes a bracketed paste.
pub open spec fn paste_end() -> Seq<u8> {
    seq![ESC, 91u8, 50u8, 48u8, 49u8, 126u8]
}

/// The bytes a terminal sends for pasted text: line breaks are normalised to `\n`; text
/// with a line break is wrapped in bracketed-paste markers when the program asked for them,
/// and otherwise every line break is sent as `\r`.
pub open spec fn paste_bytes_spec(content: Seq<char>, bracketed: bool) -> Seq<u8> {
    let n = normalize_newlines(content);
    if n.contains('\n') && bracketed {
        paste_start() + vstd::utf8::encode_utf8(n) + paste_end()
    } else {
        vstd::utf8::encode_utf8(newlines_to_returns(n))
    }
}

fn push_utf8(out: &mut Vec<u8>, v: &Vec<char>)
    ensures
        final(out)@ == old(out)@ + vstd::utf8::encode_utf8(v@),
{
    let s = string_from_chars(v, 0, v.len());
    assert(v@.subrange(0, v@.len() as int) =~= v@);
    let raw = s.as_str().as_bytes();
    let ghost start = out@;
    let mut i: usize = 0;
    while i < raw.len()
        invariant
            raw@ == vstd::utf8::encode_utf8(v@),
            i <= raw@.len(),
            out@ == start + raw@.take(i as int),
        decreases raw.len() - i,
    {
        out.push(raw[i]);
        assert(raw@.take(i + 1) =~= raw@.take(i as int).push(raw@[i as int]));
        i = i + 1;
    }
    assert(raw@.take(raw@.len() as int) =~= raw@);
}

/// The bytes a terminal sends when `content` is pasted (see `paste_bytes_spec`).
pub fn encode_text_input(content: &str, bracketed_paste: bool) -> (bytes: Vec<u8>)
    ensures
        bytes@ == paste_bytes_spec(content@, bracketed_paste),
{
    let v = chars_of(content);
    let mut n: Vec<char> = Vec::new();
    let mut has_newline = false;
    let mut i: usize = 0;
    assert(v@.skip(0) =~= v@);
    assert(n@ + normalize_newlines(v@) =~= normalize_newlines(v@));
    while i < v.len()
        invariant
            v@ == content@,
            i <= v@.len(),
            normalize_newlines(v@) == n@ + normalize_newlines(v@.skip(i as int)),
            has_newline <==> n@.contains('\n'),
        decreases v.len() - i,
    {
        let ghost rest = v@.skip(i as int);
        assert(rest[0] == v@[i as int]);
        if v[i] == '\r' && i + 1 < v.len() && v[i + 1] == '\n' {
            assert(rest[1] == v@[i + 1]);
            assert(rest.skip(2) =~= v@.skip(i + 2));
            n.push('\n');
            has_newline = true;
            assert(n@[n@.len() - 1] == '\n');
            i = i + 2;
        } else {
            assert(rest.skip(1) =~= v@.skip(i + 1));
            let c = if v[i] == '\r' {
                '\n'
            } else {
                v[i]
            };
            let ghost before = n@;
            n.push(c);
            assert forall|d: char| before.contains(d) implies n@.contains(d) by {
                let k = choose|k: int| 0 <= k < before.len() && #[trigger] before[k] == d;
                assert(n@[k] == d);
            }
            if c == '\n' {
                has_newline = true;
                assert(n@[n@.len() - 1] == '\n');
            } else {
                assert forall|d: char| n@.contains(d) implies before.contains(d) || d == c by {
                    let k = choose|k: int| 0 <= k < n@.len() && #[trigger] n@[k] == d;
                    if k < before.len() {
                        assert(before[k] == d);
                    }
                }
            }
            i = i + 1;
        }
        assert(normalize_newlines(v@) == n@ + normalize_newlines(v@.skip(i as int)));
    }
    assert(v@.skip(v@.len() as int) =~= Seq::<char>::empty());
    assert(normalize_newlines(v@) =~= n@);
    let mut bytes: Vec<u8> = Vec::new();
    if has_newline && bracketed_paste {
        bytes.push(ESC);
        bytes.push(91u8);
        bytes.push(50u8);
        bytes.push(48u8);
        bytes.push(48u8);
        bytes.push(126u8);
        push_utf8(&mut bytes, &n);
        bytes.push(ESC);
        bytes.push(91u8);
        bytes.push(50u8);
        bytes.push(48u8);
        bytes.push(49u8);
        bytes.push(126u8);
        assert(bytes@ =~= paste_start() + vstd::utf8::encode_utf8(n@) + paste_end());
    } else {
        let mut r: Vec<char> = Vec::new();
        let mut j: usize = 0;
        while j < n.len()
            invariant
                j <= n@.len(),
                r@ == newlines_to_returns(n@.take(j as int)),
            decreases n.len() - j,
        {
            r.push(
                if n[j] == '\n' {
                    '\r'
                } else {
                    n[j]
                },
            );
            assert(newlines_to_returns(n@.take(j + 1)) =~= newlines_to_returns(n@.take(j as int)).push(
                if n@[j as int] == '\n' {
                    '\r'
                } else {
                    n@[j as int]
                },
            ));
            j = j + 1;
        }
        assert(n@.take(n@.len() as int) =~= n@);
        push_utf8(&mut bytes, &r);
        assert(bytes@ =~= vstd::utf8::encode_utf8(newlines_to_returns(n@)));
    }
    bytes
}

// ---------------------------------------------------------------------------
// Focus, mouse and scroll reports
// ---------------------------------------------------------------------------

/// `ESC [ I` when the window gains focus, `ESC [ O` when it loses it.
pub open spec fn focus_report_spec(focused: bool) -> Seq<u8> {
    seq![ESC, 91u8, if focused { 73u8 } else { 79u8 }]
}

/// The focus report sent to a program that asked for them.
pub fn focus_report(focused: bool) -> (bytes: Vec<u8>)
    ensures
        bytes@ == focus_report_spec(focused),
{
    let bytes = vec![ESC, 91u8, if focused { 73u8 } else { 79u8 }];
    assert(bytes@ =~= focus_report_spec(focused));
    bytes
}

/// A grid coordinate as mouse reports number it: from one, saturating, then cut to 16 bits.
pub open spec fn report_coordinate(v: usize) -> u16 {
    let one_based: int = if v == usize::MAX { v as int } else { v + 1 };
    (one_based % 65536) as u16
}

/// A coordinate in a legacy (X10) report: offset by 32 and capped at 223 first.
pub open spec fn legacy_coordinate(c: u16) -> u8 {
    (32 + (if c < 223 { c as int } else { 223 })) as u8
}

/// A mouse report: `ESC [ < b ; x ; y M` (or `m` for a release) in SGR mode; otherwise the
/// legacy six bytes `ESC [ M` and button, column and line each offset by 32, where a
/// release reports button 3.
pub open spec fn mouse_report_spec(button: u8, point: TerminalPoint, pressed: bool, sgr: bool) -> Seq<
    u8,
> {
    let x = report_coordinate(point.column);
    let y = report_coordinate(point.line);
    if sgr {
        seq![ESC, 91u8, 60u8] + nat_to_decimal_bytes(button as nat) + seq![59u8]
            + nat_to_decimal_bytes(x as nat) + seq![59u8] + nat_to_decimal_bytes(y as nat) + seq![
            if pressed {
                77u8
            } else {
                109u8
            },
        ]
    } else {
        let b: int = if pressed { button as int } else { 3 };
        seq![ESC, 91u8, 77u8, (32 + b) as u8, legacy_coordinate(x), legacy_coordinate(y)]
    }
}

fn coordinate(v: usize) -> (c: u16)
    ensures
        c == report_coordinate(v),
{
    let one_based = if v == usize::MAX {
        v
    } else {
        v + 1
    };
    (one_based % 65536) as u16
}

fn legacy_byte(c: u16) -> (b: u8)
    ensures
        b == legacy_coordinate(c),
{
    let capped: u16 = if c < 223 {
        c
    } else {
        223
    };
    (32 + capped) as u8
}

/// The report of a mouse button press or release at `point`.
pub fn mouse_button_report(button: u8, point: TerminalPoint, pressed: bool, sgr: bool) -> (bytes: Vec<
    u8,
>)
    requires
        !sgr && pressed ==> button <= 223,
    ensures
        bytes@ == mouse_report_spec(button, point, pressed, sgr),
{
    let x = coordinate(point.column);
    let y = coordinate(point.line);
    let mut bytes: Vec<u8> = Vec::new();
    if sgr {
        bytes.push(ESC);
        bytes.push(91u8);
        bytes.push(60u8);
        push_decimal_bytes(&mut bytes, button as u64);
        bytes.push(59u8);
        push_decimal_bytes(&mut bytes, x as u64);
        bytes.push(59u8);
        push_decimal_bytes(&mut bytes, y as u64);
        bytes.push(
            if pressed {
                77u8
            } else {
                109u8
            },
        );
    } else {
        let b: u8 = if pressed {
            button
        } else {
            3
        };
        bytes.push(ESC);
        bytes.push(91u8);
        bytes.push(77u8);
        bytes.push(32 + b);
        bytes.push(legacy_byte(x));
        bytes.push(legacy_byte(y));
    }
    assert(bytes@ =~= mouse_report_spec(button, point, pressed, sgr));
    bytes
}

/// How many reports a wheel movement of `delta` steps sends.
pub open spec fn step_count(delta: i32) -> nat {
    if delta < 0 {
        (-delta) as nat
    } else {
        delta as nat
    }
}

/// The reports of a wheel movement: one press of button 64 (up, for a positive delta) or
/// 65 (down) per step.
pub fn mouse_wheel_reports(delta: i32, point: TerminalPoint, sgr: bool) -> (reports: Vec<Vec<u8>>)
    requires
        delta != i32::MIN,
    ensures
        reports@.len() == step_count(delta),
        forall|k: int|
            0 <= k < reports@.len() ==> (#[trigger] reports@[k])@ == mouse_report_spec(
                if delta > 0 {
                    64u8
                } else {
                    65u8
                },
                point,
                true,
                sgr,
            ),
{
    let steps: u32 = if delta < 0 {
        (-delta) as u32
    } else {
        delta as u32
    };
    let button: u8 = if delta > 0 {
        64
    } else {
        65
    };
    let mut reports: Vec<Vec<u8>> = Vec::new();
    let mut k: u32 = 0;
    while k < steps
        invariant
            steps == step_count(delta),
            button == (if delta > 0 { 64u8 } else { 65u8 }),
            k <= steps,
            reports@.len() == k,
            forall|j: int|
                0 <= j < reports@.len() ==> (#[trigger] reports@[j])@ == mouse_report_spec(
                    button,
                    point,
                    true,
                    sgr,
                ),
        decreases steps - k,
    {
        reports.push(mouse_button_report(button, point, true, sgr));
        k = k + 1;
    }
    reports
}

/// The key presses a wheel movement becomes on the alternate screen when the program asked
/// for that: one cursor-up (for a positive delta) or cursor-down key per step.
pub fn alternate_scroll_reports(delta: i32, app_cursor: bool, platform: KeyPlatform) -> (reports: Vec<
    Vec<u8>,
>)
    requires
        delta != i32::MIN,
    ensures
        reports@.len() == step_count(delta),
        forall|k: int|
            0 <= k < reports@.len() ==> (#[trigger] reports@[k])@ == cursor_key_spec(
                app_cursor,
                if delta > 0 {
                    65u8
                } else {
                    66u8
                },
                TerminalKeyModifiers { alt: false, control: false, shift: false, meta: false },
                platform,
            ),
{
    let none = TerminalKeyModifiers { alt: false, control: false, shift: false, meta: false };
    let suffix: u8 = if delta > 0 {
        65
    } else {
        66
    };
    let steps: u32 = if delta < 0 {
        (-delta) as u32
    } else {
        delta as u32
    };
    let mut reports: Vec<Vec<u8>> = Vec::new();
    let mut k: u32 = 0;
    while k < steps
        invariant
            steps == step_count(delta),
            suffix == (if delta > 0 { 65u8 } else { 66u8 }),
            none == (TerminalKeyModifiers { alt: false, control: false, shift: false, meta: false }),
            k <= steps,
            reports@.len() == k,
            forall|j: int|
                0 <= j < reports@.len() ==> (#[trigger] reports@[j])@ == cursor_key_spec(
                    app_cursor,
                    suffix,
                    none,
                    platform,
                ),
        decreases steps - k,
    {
        reports.push(cursor_key(app_cursor, suffix, none, platform));
        k = k + 1;
    }
    reports
}

/// The terminal modes that decide where a wheel movement goes.
#[derive(Debug, Clone, Copy, PartialEq, Eq, Structural)]
pub struct ScrollModes {
    pub alt_screen: bool,
    pub mouse_mode: bool,
    pub sgr_mouse: bool,
    pub alternate_scroll: bool,
    pub app_cursor: bool,
}

/// Where a wheel movement goes.
#[derive(Debug, Clone, Copy, PartialEq, Eq, Structural)]
pub enum ScrollAction {
    /// Nothing happens.
    Ignore,
    /// Wheel reports go to the program, in SGR form or not.
    MouseWheel { sgr: bool },
    /// Cursor keys go to the program, in application cursor form or not.
    ArrowKeys { app_cursor: bool },
    /// The view scrolls through the scrollback by this many lines.
    ScrollDisplay(i32),
}

/// Where a wheel movement of `delta` steps goes: nowhere for no movement; to a program that
/// reports the mouse; on the alternate screen, as cursor keys when the program asked for
/// alternate scrolling and nowhere otherwise; on the main screen, through the scrollback.
pub open spec fn scroll_action_spec(delta: i32, modes: ScrollModes) -> ScrollAction {
    if delta == 0 {
        ScrollAction::Ignore
    } else if modes.alt_screen {
        if modes.mouse_mode {
            ScrollAction::MouseWheel { sgr: modes.sgr_mouse }
        } else if modes.alternate_scroll {
            ScrollAction::ArrowKeys { app_cursor: modes.app_cursor }
        } else {
            ScrollAction::Ignore
        }
    } else if modes.mouse_mode {
        ScrollAction::MouseWheel { sgr: modes.sgr_mouse }
    } else {
        ScrollAction::ScrollDisplay(delta)
    }
}

/// Decides where a wheel movement goes (see `scroll_action_spec`).
pub fn scroll_action(delta: i32, modes: ScrollModes) -> (a: ScrollAction)
    ensures
        a == scroll_action_spec(delta, modes),
{
    if delta == 0 {
        ScrollAction::Ignore
    } else if modes.alt_screen {
        if modes.mouse_mode {
            ScrollAction::MouseWheel { sgr: modes.sgr_mouse }
        } else if modes.alternate_scroll {
            ScrollAction::ArrowKeys { app_cursor: modes.app_cursor }
        } else {
            ScrollAction::Ignore
        }
    } else if modes.mouse_mode {
        ScrollAction::MouseWheel { sgr: modes.sgr_mouse }
    } else {
        ScrollAction::ScrollDisplay(delta)
    }
}

/// The grid size a terminal keeps: at least two columns and two lines.
pub fn clamped_grid_size(cols: usize, rows: usize) -> (r: (usize, usize))
    ensures
        r.0 == (if cols < 2 { 2 } else { cols }),
        r.1 == (if rows < 2 { 2 } else { rows }),
{
    (if cols < 2 {
        2
    } else {
        cols
    }, if rows < 2 {
        2
    } else {
        rows
    })
}

// ---------------------------------------------------------------------------
// The connection a terminal window opens
// ---------------------------------------------------------------------------

/// The title a terminal window falls back on when its program sets none.
pub const DEFAULT_SLINT_WINDOW_TITLE: &'static str = "Timon Slint Terminal";

/// The window title of a connection before its program sets one: the connection's name, or
/// `Local Shell` (local connections) or the program's window title (others) when the name
/// is blank.
pub open spec fn fallback_title_spec(c: Connection) -> Seq<char> {
    if is_blank_spec(c.name@) {
        match c.connection_type {
            ConnectionType::Local => "Local Shell"@,
            _ => DEFAULT_SLINT_WINDOW_TITLE@,
        }
    } else {
        c.name@
    }
}

/// The window title of a connection before its program sets one (see `fallback_title_spec`).
pub fn terminal_fallback_title(connection: &Connection) -> (t: String)
    ensures
        t@ == fallback_title_spec(*connection),
{
    if is_blank(connection.name.as_str()) {
        match connection.connection_type {
            ConnectionType::Local => owned("Local Shell"),
            _ => owned(DEFAULT_SLINT_WINDOW_TITLE),
        }
    } else {
        connection.name.clone()
    }
}

/// The index of the first connection, from `i` on, with identifier `id`.
pub open spec fn find_connection_id(cs: Seq<Connection>, id: i64, i: int) -> Option<int>
    decreases cs.len() - i,
{
    if i < 0 || i >= cs.len() {
        None
    } else if cs[i].id == id {
        Some(i)
    } else {
        find_connection_id(cs, id, i + 1)
    }
}

/// The index of the first local connection from `i` on.
pub open spec fn find_local_connection(cs: Seq<Connection>, i: int) -> Option<int>
    decreases cs.len() - i,
{
    if i < 0 || i >= cs.len() {
        None
    } else if cs[i].connection_type == ConnectionType::Local {
        Some(i)
    } else {
        find_local_connection(cs, i + 1)
    }
}

/// The index of the first key, from `i` on, with identifier `id`.
pub open spec fn find_key(keys: Seq<Key>, id: i64, i: int) -> Option<int>
    decreases keys.len() - i,
{
    if i < 0 || i >= keys.len() {
        None
    } else if keys[i].id == id {
        Some(i)
    } else {
        find_key(keys, id, i + 1)
    }
}

/// The index of the first identity, from `i` on, with identifier `id`.
pub open spec fn find_identity(ids: Seq<Identity>, id: i64, i: int) -> Option<int>
    decreases ids.len() - i,
{
    if i < 0 || i >= ids.len() {
        None
    } else if ids[i].id == id {
        Some(i)
    } else {
        find_identity(ids, id, i + 1)
    }
}

/// The saved connection a terminal window opens: the requested one when it exists, else the
/// first local connection.
pub open spec fn chosen_connection(w: WorkspaceData, requested: Option<i64>) -> Option<int> {
    let by_id = match requested {
        Some(id) => find_connection_id(w.connections@, id, 0),
        None => None,
    };
    match by_id {
        Some(k) => Some(k),
        None => find_local_connection(w.connections@, 0),
    }
}

/// A new local connection named `Local Shell` with the given theme, for when the workspace
/// has none to open.
pub open spec fn is_local_placeholder(c: Connection, theme_id: Seq<char>) -> bool {
    &&& c.id == 0
    &&& c.name@ == "Local Shell"@
    &&& c.group_id is None
    &&& c.key_id is None
    &&& c.effective_key_id is None
    &&& c.identity_id is None
    &&& c.host@.len() == 0
    &&& c.port == 22
    &&& c.username@.len() == 0
    &&& c.display_username@.len() == 0
    &&& c.password@.len() == 0
    &&& c.theme_id@ == theme_id
    &&& c.shell_path@.len() == 0
    &&& c.work_dir@.len() == 0
    &&& c.startup_command@.len() == 0
    &&& c.serial_port@.len() == 0
    &&& c.baud_rate == 115200
    &&& c.connection_type == ConnectionType::Local
}

/// What a terminal window opens: the connection, the key and identity it refers to, and
/// the title to show until the program sets one.
#[derive(Debug, Clone)]
pub struct SlintConnectionSelection {
    pub connection: Connection,
    pub key: Option<Key>,
    pub identity: Option<Identity>,
    pub fallback_title: String,
}

/// Whether `sel` is what a terminal window opens for workspace `w` (see `chosen_connection`,
/// `is_local_placeholder`): the key is the one the connection's effective key identifier
/// names, the identity the one its identity identifier names, when they exist.
pub open spec fn connection_selection_ok(
    sel: SlintConnectionSelection,
    w: WorkspaceData,
    requested: Option<i64>,
    default_theme_id: Seq<char>,
) -> bool {
    &&& match chosen_connection(w, requested) {
        Some(k) => sel.connection == w.connections@[k],
        None => is_local_placeholder(sel.connection, default_theme_id),
    }
    &&& match sel.connection.effective_key_id {
        Some(id) => match find_key(w.keys@, id, 0) {
            Some(k) => sel.key == Some(w.keys@[k]),
            None => sel.key is None,
        },
        None => sel.key is None,
    }
    &&& match sel.connection.identity_id {
        Some(id) => match find_identity(w.identities@, id, 0) {
            Some(k) => sel.identity == Some(w.identities@[k]),
            None => sel.identity is None,
        },
        None => sel.identity is None,
    }
    &&& sel.fallback_title@ == fallback_title_spec(sel.connection)
}

proof fn lemma_find_connection_id_bounds(cs: Seq<Connection>, id: i64, i: int)
    requires
        0 <= i,
    ensures
        find_connection_id(cs, id, i) matches Some(k) ==> i <= k < cs.len(),
    decreases cs.len() - i,
{
    if i < cs.len() && cs[i].id != id {
        lemma_find_connection_id_bounds(cs, id, i + 1);
    }
}

proof fn lemma_find_local_bounds(cs: Seq<Connection>, i: int)
    requires
        0 <= i,
    ensures
        find_local_connection(cs, i) matches Some(k) ==> i <= k < cs.len(),
    decreases cs.len() - i,
{
    if i < cs.len() && cs[i].connection_type != ConnectionType::Local {
        lemma_find_local_bounds(cs, i + 1);
    }
}

pub(crate) fn connection_index_by_id(cs: &Vec<Connection>, id: i64) -> (r: Option<usize>)
    ensures
        r matches Some(j) ==> find_connection_id(cs@, id, 0) == Some(j as int) && j < cs@.len(),
        r is None ==> find_connection_id(cs@, id, 0) is None,
{
    proof {
        lemma_find_connection_id_bounds(cs@, id, 0);
    }
    let mut i: usize = 0;
    while i < cs.len()
        invariant
            i <= cs@.len(),
            find_connection_id(cs@, id, 0) == find_connection_id(cs@, id, i as int),
        decreases cs.len() - i,
    {
        if cs[i].id == id {
            return Some(i);
        }
        i = i + 1;
    }
    None
}

fn local_connection_index(cs: &Vec<Connection>) -> (r: Option<usize>)
    ensures
        r matches Some(j) ==> find_local_connection(cs@, 0) == Some(j as int) && j < cs@.len(),
        r is None ==> find_local_connection(cs@, 0) is None,
{
    proof {
        lemma_find_local_bounds(cs@, 0);
    }
    let mut i: usize = 0;
    while i < cs.len()
        invariant
            i <= cs@.len(),
            find_local_connection(cs@, 0) == find_local_connection(cs@, i as int),
        decreases cs.len() - i,
    {
        if cs[i].connection_type == ConnectionType::Local {
            return Some(i);
        }
        i = i + 1;
    }
    None
}

proof fn lemma_find_key_bounds(keys: Seq<Key>, id: i64, i: int)
    requires
        0 <= i,
    ensures
        find_key(keys, id, i) matches Some(k) ==> i <= k < keys.len(),
    decreases keys.len() - i,
{
    if i < keys.len() && keys[i].id != id {
        lemma_find_key_bounds(keys, id, i + 1);
    }
}

proof fn lemma_find_identity_bounds(ids: Seq<Identity>, id: i64, i: int)
    requires
        0 <= i,
    ensures
        find_identity(ids, id, i) matches Some(k) ==> i <= k < ids.len(),
    decreases ids.len() - i,
{
    if i < ids.len() && ids[i].id != id {
        lemma_find_identity_bounds(ids, id, i + 1);
    }
}

/// The key with identifier `id`, if the list has one.
pub fn key_by_id(keys: &Vec<Key>, id: i64) -> (r: Option<Key>)
    ensures
        match find_key(keys@, id, 0) {
            Some(k) => r == Some(keys@[k]),
            None => r is None,
        },
{
    proof {
        lemma_find_key_bounds(keys@, id, 0);
    }
    let mut i: usize = 0;
    while i < keys.len()
        invariant
            i <= keys@.len(),
            find_key(keys@, id, 0) == find_key(keys@, id, i as int),
        decreases keys.len() - i,
    {
        if keys[i].id == id {
            return Some(keys[i].duplicate());
        }
        i = i + 1;
    }
    None
}

/// The identity with identifier `id`, if the list has one.
pub fn identity_by_id(ids: &Vec<Identity>, id: i64) -> (r: Option<Identity>)
    ensures
        match find_identity(ids@, id, 0) {
            Some(k) => r == Some(ids@[k]),
            None => r is None,
        },
{
    proof {
        lemma_find_identity_bounds(ids@, id, 0);
    }
    let mut i: usize = 0;
    while i < ids.len()
        invariant
            i <= ids@.len(),
            find_identity(ids@, id, 0) == find_identity(ids@, id, i as int),
        decreases ids.len() - i,
    {
        if ids[i].id == id {
            return Some(ids[i].duplicate());
        }
        i = i + 1;
    }
    None
}

/// Chooses what a terminal window opens (see `connection_selection_ok`).
pub fn slint_connection_selection(
    workspace: &WorkspaceData,
    requested_connection_id: Option<i64>,
    default_theme_id: &str,
) -> (sel: SlintConnectionSelection)
    ensures
        connection_selection_ok(sel, *workspace, requested_connection_id, default_theme_id@),
{
    let by_id = match requested_connection_id {
        Some(id) => connection_index_by_id(&workspace.connections, id),
        None => None,
    };
    let index = match by_id {
        Some(k) => Some(k),
        None => local_connection_index(&workspace.connections),
    };
    assert(match index {
        Some(k) => chosen_connection(*workspace, requested_connection_id) == Some(k as int) && k
            < workspace.connections@.len(),
        None => chosen_connection(*workspace, requested_connection_id) is None,
    });
    let connection = match index {
        Some(k) => workspace.connections[k].duplicate(),
        None => {
            let mut c = Connection::default();
            c.name = owned("Local Shell");
            c.connection_type = ConnectionType::Local;
            c.theme_id = owned(default_theme_id);
            c
        },
    };
    let key = match connection.effective_key_id {
        Some(id) => key_by_id(&workspace.keys, id),
        None => None,
    };
    let identity = match connection.identity_id {
        Some(id) => identity_by_id(&workspace.identities, id),
        None => None,
    };
    let fallback_title = terminal_fallback_title(&connection);
    SlintConnectionSelection { connection, key, identity, fallback_title }
}

/// The connection a terminal window opens when none is requested.
pub fn slint_local_connection(workspace: &WorkspaceData, default_theme_id: &str) -> (c: Connection)
    ensures
        match find_local_connection(workspace.connections@, 0) {
            Some(k) => c == workspace.connections@[k],
            None => is_local_placeholder(c, default_theme_id@),
        },
{
    slint_connection_selection(workspace, None, default_theme_id).connection
}

/// What a shell tab opens for the connection whose identifier is the text `id`: an error
/// when the text is not an `i64` or no connection has that identifier; otherwise the first
/// such connection, with the key its own key identifier names and the identity it names.
pub open spec fn shell_tab_target_ok(
    r: Result<(Connection, Option<Key>, Option<Identity>), String>,
    w: WorkspaceData,
    id: Seq<char>,
) -> bool {
    match parse_i64_spec(id) {
        None => r matches Err(m) && m@ == "Invalid connection ID"@,
        Some(v) => match find_connection_id(w.connections@, v as i64, 0) {
            None => r matches Err(m) && m@ == "Connection not found"@,
            Some(k) => r matches Ok(t) && t.0 == w.connections@[k] && (match t.0.key_id {
                Some(kid) => match find_key(w.keys@, kid, 0) {
                    Some(j) => t.1 == Some(w.keys@[j]),
                    None => t.1 is None,
                },
                None => t.1 is None,
            }) && (match t.0.identity_id {
                Some(iid) => match find_identity(w.identities@, iid, 0) {
                    Some(j) => t.2 == Some(w.identities@[j]),
                    None => t.2 is None,
                },
                None => t.2 is None,
            }),
        },
    }
}

/// Finds what a shell tab opens for a connection identifier (see `shell_tab_target_ok`).
pub fn shell_tab_target(workspace: &WorkspaceData, connection_id: &str) -> (r: Result<
    (Connection, Option<Key>, Option<Identity>),
    String,
>)
    ensures
        shell_tab_target_ok(r, *workspace, connection_id@),
{
    let id = match parse_i64(connection_id) {
        Some(v) => v,
        None => {
            return Err(owned("Invalid connection ID"));
        },
    };
    let k = match connection_index_by_id(&workspace.connections, id) {
        Some(k) => k,
        None => {
            return Err(owned("Connection not found"));
        },
    };
    let connection = workspace.connections[k].duplicate();
    let key = match connection.key_id {
        Some(kid) => key_by_id(&workspace.keys, kid),
        None => None,
    };
    let identity = match connection.identity_id {
        Some(iid) => identity_by_id(&workspace.identities, iid),
        None => None,
    };
    Ok((connection, key, identity))
}

/// The key a connection's effective key identifier names, when the list has it.
pub open spec fn key_for(keys: Seq<Key>, id: Option<i64>) -> Option<Key> {
    match id {
        Some(kid) => match find_key(keys, kid, 0) {
            Some(k) => Some(keys[k]),
            None => None,
        },
        None => None,
    }
}

/// The identity a connection's identity identifier names, when the list has it.
pub open spec fn identity_for(ids: Seq<Identity>, id: Option<i64>) -> Option<Identity> {
    match id {
        Some(iid) => match find_identity(ids, iid, 0) {
            Some(k) => Some(ids[k]),
            None => None,
        },
        None => None,
    }
}

/// What enabling a port forward connects to (see `port_forward_target`).
pub open spec fn port_forward_target_spec(
    connections: Seq<Connection>,
    keys: Seq<Key>,
    identities: Seq<Identity>,
    forward: PortForward,
    known_hosts_path: Seq<char>,
    r: Result<ConnectionTarget, String>,
) -> bool {
    match forward.connection_id {
        None => r matches Err(m) && m@ == "端口转发需要绑定一个 SSH connection"@,
        Some(cid) => match find_connection_id(connections, cid, 0) {
            None => r matches Err(m) && m@ == "端口转发绑定的 connection 不存在"@,
            Some(j) => r matches Ok(t) && {
                &&& t.connection == connections[j]
                &&& t.key == key_for(keys, connections[j].effective_key_id)
                &&& t.identity == identity_for(identities, connections[j].identity_id)
                &&& t.known_hosts_path@ == known_hosts_path
                &&& t.cols == 80
                &&& t.rows == 24
            },
        },
    }
}

/// What enabling a port forward connects to: its bound connection, with the key and identity
/// that connection names, the known_hosts file and an 80 by 24 terminal. A forward bound to
/// no connection, or to one that does not exist, is an error saying so.
pub fn port_forward_target(
    connections: &Vec<Connection>,
    keys: &Vec<Key>,
    identities: &Vec<Identity>,
    forward: &PortForward,
    known_hosts_path: &str,
) -> (r: Result<ConnectionTarget, String>)
    ensures
        port_forward_target_spec(connections@, keys@, identities@, *forward, known_hosts_path@, r),
{
    let cid = match forward.connection_id {
        Some(c) => c,
        None => {
            return Err(owned("端口转发需要绑定一个 SSH connection"));
        },
    };
    let j = match connection_index_by_id(connections, cid) {
        Some(j) => j,
        None => {
            return Err(owned("端口转发绑定的 connection 不存在"));
        },
    };
    let connection = connections[j].duplicate();
    let key = match connection.effective_key_id {
        Some(kid) => key_by_id(keys, kid),
        None => None,
    };
    let identity = match connection.identity_id {
        Some(iid) => identity_by_id(identities, iid),
        None => None,
    };
    Ok(ConnectionTarget {
        connection,
        key,
        identity,
        known_hosts_path: owned(known_hosts_path),
        cols: 80,
        rows: 24,
    })
}

} // verus!
