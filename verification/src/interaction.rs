use vstd::prelude::*;

use crate::selection::{
    cells_in_range, normalize_selection, normalize_selection_spec, selection_at, selection_at_spec,
    SelectionGranularity, TerminalCell, TerminalCursorShape, TerminalPoint, TerminalSelection,
    TerminalSnapshot,
};
use crate::session::{SessionCommand, SessionEvent};
use crate::terminal::{cursor_visible_for_elapsed, terminal_window_title, window_title_spec, TerminalEvent};
use crate::text::{chars_of, owned, push_char};

verus! {

// ---------------------------------------------------------------------------
// Pointer and selection
// ---------------------------------------------------------------------------

/// Milliseconds within which a second click on the same cell counts as a repeated click.
pub const MULTI_CLICK_INTERVAL_MILLIS: u64 = 500;

/// What the pointer is doing in a terminal window: the selection being made, whether the
/// program has the mouse, and the clicks so far.
#[derive(Debug, Clone, Copy)]
pub struct PointerState {
    pub selection_anchor: Option<TerminalPoint>,
    pub selection: Option<TerminalSelection>,
    pub dragging_selection: bool,
    pub terminal_mouse_button_down: bool,
    pub last_click_at_millis: Option<u64>,
    pub last_click_point: Option<TerminalPoint>,
    pub click_count: u8,
}

/// Whether a click at `point` at time `now` repeats the previous one: same cell, and at
/// most half a second later.
pub open spec fn repeated_click(s: PointerState, point: TerminalPoint, now: u64) -> bool {
    &&& s.last_click_point == Some(point)
    &&& s.last_click_at_millis matches Some(last) && (if now >= last {
        now - last
    } else {
        0
    }) <= 500
}

/// The state after a button press at `point` (none when the press is outside the grid).
/// When the program reports the mouse (`press_reported`) it takes the press and any
/// selection goes; otherwise one click starts a drag selection, two select a word and
/// three or more a token.
pub open spec fn pointer_down_spec(
    s: PointerState,
    point: Option<TerminalPoint>,
    press_reported: bool,
    now: u64,
    cells: Seq<TerminalCell>,
) -> PointerState {
    match point {
        None => PointerState { dragging_selection: false, ..s },
        Some(p) => if press_reported {
            PointerState {
                terminal_mouse_button_down: true,
                dragging_selection: false,
                selection_anchor: None,
                selection: None,
                ..s
            }
        } else {
            let count: u8 = if repeated_click(s, p, now) {
                if s.click_count == 255 {
                    255
                } else {
                    (s.click_count + 1) as u8
                }
            } else {
                1
            };
            let clicked = PointerState {
                click_count: count,
                last_click_at_millis: Some(now),
                last_click_point: Some(p),
                ..s
            };
            if count == 2 {
                PointerState {
                    dragging_selection: false,
                    selection_anchor: None,
                    selection: Some(selection_at_spec(cells, p, SelectionGranularity::Word)),
                    ..clicked
                }
            } else if count >= 3 {
                PointerState {
                    dragging_selection: false,
                    selection_anchor: None,
                    selection: Some(selection_at_spec(cells, p, SelectionGranularity::Token)),
                    ..clicked
                }
            } else {
                PointerState {
                    selection_anchor: Some(p),
                    selection: Some(normalize_selection_spec(p, p)),
                    dragging_selection: true,
                    ..clicked
                }
            }
        },
    }
}

/// Whether the window must be redrawn after a button press: not for a press outside the
/// grid; for a press the program takes, when a selection went away; otherwise always.
pub open spec fn pointer_down_redraw(s: PointerState, point: Option<TerminalPoint>, press_reported: bool) -> bool {
    match point {
        None => false,
        Some(_) => if press_reported {
            s.selection is Some
        } else {
            true
        },
    }
}

/// What a pointer movement leads to.
#[derive(Debug, Clone, Copy, PartialEq, Eq, Structural)]
pub enum PointerMove {
    /// The program has the mouse: report the drag to it.
    ReportDrag,
    /// Nothing to redraw.
    Unchanged,
    /// The selection changed.
    SelectionChanged,
}

/// What a pointer movement to `point` does: the program gets a drag report while it
/// holds the button; a drag selection follows the pointer from its anchor (and is redrawn
/// only when it changed); otherwise nothing happens.
pub open spec fn pointer_moved_spec(s: PointerState, point: TerminalPoint) -> (PointerState, PointerMove) {
    if s.terminal_mouse_button_down {
        (s, PointerMove::ReportDrag)
    } else if !s.dragging_selection {
        (s, PointerMove::Unchanged)
    } else {
        let anchor = match s.selection_anchor {
            Some(a) => a,
            None => point,
        };
        let next = normalize_selection_spec(anchor, point);
        if s.selection == Some(next) {
            (s, PointerMove::Unchanged)
        } else {
            (PointerState { selection: Some(next), ..s }, PointerMove::SelectionChanged)
        }
    }
}

/// The state after the button is released: no button held, no drag.
pub open spec fn released(s: PointerState) -> PointerState {
    PointerState { terminal_mouse_button_down: false, dragging_selection: false, ..s }
}

/// The state with its selection dropped.
pub open spec fn cleared(s: PointerState) -> PointerState {
    PointerState { selection_anchor: None, dragging_selection: false, selection: None, ..s }
}

impl PointerState {
    /// No selection, no button held, no click yet.
    pub fn new() -> (s: Self)
        ensures
            s.selection_anchor is None,
            s.selection is None,
            !s.dragging_selection,
            !s.terminal_mouse_button_down,
            s.last_click_at_millis is None,
            s.last_click_point is None,
            s.click_count == 0,
    {
        PointerState {
            selection_anchor: None,
            selection: None,
            dragging_selection: false,
            terminal_mouse_button_down: false,
            last_click_at_millis: None,
            last_click_point: None,
            click_count: 0,
        }
    }

    /// A button press at `point` (see `pointer_down_spec`); returns whether to redraw.
    pub fn pointer_down(
        &mut self,
        point: Option<TerminalPoint>,
        press_reported: bool,
        now_millis: u64,
        cells: &Vec<TerminalCell>,
    ) -> (redraw: bool)
        requires
            cells_in_range(cells@),
        ensures
            *final(self) == pointer_down_spec(*old(self), point, press_reported, now_millis, cells@),
            redraw == pointer_down_redraw(*old(self), point, press_reported),
    {
        let p = match point {
            None => {
                self.dragging_selection = false;
                return false;
            },
            Some(p) => p,
        };
        if press_reported {
            self.terminal_mouse_button_down = true;
            self.dragging_selection = false;
            self.selection_anchor = None;
            let had_selection = self.selection.is_some();
            self.selection = None;
            return had_selection;
        }
        let repeated = match (self.last_click_point, self.last_click_at_millis) {
            (Some(last_point), Some(last)) => last_point == p && (if now_millis >= last {
                now_millis - last
            } else {
                0
            }) <= MULTI_CLICK_INTERVAL_MILLIS,
            _ => false,
        };
        self.click_count = if repeated {
            if self.click_count == 255 {
                255
            } else {
                self.click_count + 1
            }
        } else {
            1
        };
        self.last_click_at_millis = Some(now_millis);
        self.last_click_point = Some(p);
        if self.click_count == 2 {
            self.dragging_selection = false;
            self.selection_anchor = None;
            self.selection = Some(selection_at(cells, p, SelectionGranularity::Word));
            return true;
        }
        if self.click_count >= 3 {
            self.dragging_selection = false;
            self.selection_anchor = None;
            self.selection = Some(selection_at(cells, p, SelectionGranularity::Token));
            return true;
        }
        self.selection_anchor = Some(p);
        self.selection = Some(normalize_selection(p, p));
        self.dragging_selection = true;
        true
    }

    /// The pointer moved to the grid position `point` (clamped to the grid): see
    /// `pointer_moved_spec`.
    pub fn pointer_moved(&mut self, point: TerminalPoint) -> (m: PointerMove)
        ensures
            (*final(self), m) == pointer_moved_spec(*old(self), point),
    {
        if self.terminal_mouse_button_down {
            return PointerMove::ReportDrag;
        }
        if !self.dragging_selection {
            return PointerMove::Unchanged;
        }
        let anchor = match self.selection_anchor {
            Some(a) => a,
            None => point,
        };
        let next = normalize_selection(anchor, point);
        let same = match self.selection {
            Some(s) => s.start == next.start && s.end == next.end,
            None => false,
        };
        if same {
            return PointerMove::Unchanged;
        }
        self.selection = Some(next);
        PointerMove::SelectionChanged
    }

    /// The button was released: the drag selection ends; returns whether the program held
    /// the button and must get the release.
    pub fn pointer_up(&mut self) -> (report_release: bool)
        ensures
            report_release == old(self).terminal_mouse_button_down,
            *final(self) == released(*old(self)),
    {
        let report = self.terminal_mouse_button_down;
        self.terminal_mouse_button_down = false;
        self.dragging_selection = false;
        report
    }

    /// Drops the selection; returns whether there was one.
    pub fn clear_selection(&mut self) -> (had: bool)
        ensures
            had == old(self).selection is Some,
            *final(self) == cleared(*old(self)),
    {
        self.selection_anchor = None;
        self.dragging_selection = false;
        let had = self.selection.is_some();
        self.selection = None;
        had
    }
}

// ---------------------------------------------------------------------------
// Cursor blinking
// ---------------------------------------------------------------------------

/// What decides whether the cursor blink restarts: where the cursor is, how it looks and
/// whether it blinks.
#[derive(Debug, Clone, Copy, PartialEq, Eq, Structural)]
pub struct CursorBlinkKey {
    pub line: usize,
    pub column: usize,
    pub width: usize,
    pub shape: TerminalCursorShape,
    pub show_cursor: bool,
    pub blinking: bool,
}

/// The blink key of a snapshot.
pub fn cursor_blink_key(snapshot: &TerminalSnapshot) -> (k: CursorBlinkKey)
    ensures
        k == (CursorBlinkKey {
            line: snapshot.cursor_line,
            column: snapshot.cursor_column,
            width: snapshot.cursor_width,
            shape: snapshot.cursor_shape,
            show_cursor: snapshot.show_cursor,
            blinking: snapshot.cursor_blinking,
        }),
{
    CursorBlinkKey {
        line: snapshot.cursor_line,
        column: snapshot.cursor_column,
        width: snapshot.cursor_width,
        shape: snapshot.cursor_shape,
        show_cursor: snapshot.show_cursor,
        blinking: snapshot.cursor_blinking,
    }
}

/// The blink state of a cursor: the key it last saw, whether it is drawn, and when the
/// current blink started.
#[derive(Debug, Clone, Copy)]
pub struct CursorBlink {
    pub last_key: Option<CursorBlinkKey>,
    pub visible: bool,
    pub started_at_millis: u64,
}

/// Whether the cursor is drawn at `now`: a shown, blinking cursor is visible in the even
/// 600 ms phases since its blink started; any other cursor always.
pub open spec fn blink_visible(key: CursorBlinkKey, started: u64, now: u64) -> bool {
    if key.show_cursor && key.blinking {
        let elapsed: int = if now >= started {
            now - started
        } else {
            0
        };
        (elapsed / 600) % 2 == 0
    } else {
        true
    }
}

impl CursorBlink {
    /// A visible cursor whose blink starts at `now_millis`.
    pub fn new(now_millis: u64) -> (b: Self)
        ensures
            b.last_key is None,
            b.visible,
            b.started_at_millis == now_millis,
    {
        CursorBlink { last_key: None, visible: true, started_at_millis: now_millis }
    }

    /// Makes the cursor visible and restarts its blink.
    pub fn reset(&mut self, now_millis: u64)
        ensures
            final(self).last_key == old(self).last_key,
            final(self).visible,
            final(self).started_at_millis == now_millis,
    {
        self.visible = true;
        self.started_at_millis = now_millis;
    }

    /// Advances the blink to `now_millis` for the cursor described by `key`; returns
    /// whether the cursor must be redrawn. A cursor that moved or changed restarts its
    /// blink visible; a blinking, shown cursor is visible in even half-second-ish phases
    /// (see `cursor_visible_for_elapsed`); any other cursor is always visible.
    pub fn update(&mut self, key: CursorBlinkKey, now_millis: u64) -> (redraw: bool)
        ensures
            old(self).last_key != Some(key) ==> redraw && final(self).last_key == Some(key)
                && final(self).visible && final(self).started_at_millis == now_millis,
            old(self).last_key == Some(key) ==> final(self).last_key == old(self).last_key
                && final(self).started_at_millis == old(self).started_at_millis
                && final(self).visible == blink_visible(key, old(self).started_at_millis, now_millis)
                && redraw == (old(self).visible != blink_visible(
                key,
                old(self).started_at_millis,
                now_millis,
            )),
    {
        let changed = match self.last_key {
            Some(k) => k != key,
            None => true,
        };
        if changed {
            self.last_key = Some(key);
            self.visible = true;
            self.started_at_millis = now_millis;
            return true;
        }
        let next = if key.show_cursor && key.blinking {
            let elapsed: u64 = if now_millis >= self.started_at_millis {
                now_millis - self.started_at_millis
            } else {
                0
            };
            cursor_visible_for_elapsed(elapsed as u128)
        } else {
            true
        };
        if self.visible == next {
            return false;
        }
        self.visible = next;
        true
    }
}

// ---------------------------------------------------------------------------
// Messages to the session
// ---------------------------------------------------------------------------

/// A size as a session takes it: at most `u16::MAX`.
pub open spec fn capped_u16(n: usize) -> u16 {
    if n < 65535 {
        n as u16
    } else {
        65535u16
    }
}

/// The resize a session is told about for a grid: each size capped at `u16::MAX`.
pub fn resize_command(cols: usize, rows: usize) -> (c: SessionCommand)
    ensures
        c == (SessionCommand::Resize { cols: capped_u16(cols), rows: capped_u16(rows) }),
{
    let c: u16 = if cols < 65535 {
        cols as u16
    } else {
        65535
    };
    let r: u16 = if rows < 65535 {
        rows as u16
    } else {
        65535
    };
    SessionCommand::Resize { cols: c, rows: r }
}

// ---------------------------------------------------------------------------
// Events from the session and the emulator
// ---------------------------------------------------------------------------

/// What a terminal window does with a session event.
#[derive(Debug, Clone)]
pub enum SessionEventEffect {
    /// Feed the program's output to the emulator.
    Feed(Vec<u8>),
    /// Show a line of the window's own in the terminal.
    LocalLine(String),
    /// Nothing to show.
    Nothing,
}

/// What a terminal window does with a session event: output is fed to the emulator; an
/// error or a disconnection shows `Disconnected: ` and its message; the rest is ignored.
pub fn session_event_effect(event: SessionEvent) -> (e: SessionEventEffect)
    ensures
        match event {
            SessionEvent::Output(bytes) => e matches SessionEventEffect::Feed(b) && b@ == bytes@,
            SessionEvent::Error(m) => e matches SessionEventEffect::LocalLine(l) && l@
                == "Disconnected: "@ + m@,
            SessionEvent::Disconnected(m) => e matches SessionEventEffect::LocalLine(l) && l@
                == "Disconnected: "@ + m@,
            _ => e is Nothing,
        },
{
    match event {
        SessionEvent::Output(bytes) => SessionEventEffect::Feed(bytes),
        SessionEvent::Error(message) => SessionEventEffect::LocalLine(disconnected_line(&message)),
        SessionEvent::Disconnected(reason) => SessionEventEffect::LocalLine(disconnected_line(&reason)),
        _ => SessionEventEffect::Nothing,
    }
}

fn disconnected_line(message: &String) -> (l: String)
    ensures
        l@ == "Disconnected: "@ + message@,
{
    let mut l = owned("Disconnected: ");
    let v = chars_of(message.as_str());
    let ghost start = l@;
    let mut i: usize = 0;
    while i < v.len()
        invariant
            v@ == message@,
            i <= v@.len(),
            l@ == start + v@.take(i as int),
        decreases v.len() - i,
    {
        push_char(&mut l, v[i]);
        assert(v@.take(i + 1) =~= v@.take(i as int).push(v@[i as int]));
        i = i + 1;
    }
    assert(v@.take(v@.len() as int) =~= v@);
    l
}

/// The window title after an emulator event: a title the program set, cleaned up (see
/// `window_title_spec`), or the default title when it resets it.
pub fn title_after_event(event: &TerminalEvent, default_title: &str) -> (t: String)
    ensures
        match event {
            TerminalEvent::Title(title) => t@ == window_title_spec(title@, default_title@),
            TerminalEvent::ResetTitle => t@ == default_title@,
        },
{
    match event {
        TerminalEvent::Title(title) => terminal_window_title(title.as_str(), default_title),
        TerminalEvent::ResetTitle => owned(default_title),
    }
}

} // verus!
