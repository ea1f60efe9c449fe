use vstd::prelude::*;

use crate::text::{
    char_is_alphanumeric, chars_of, is_whitespace, is_ws, string_from_chars, unicode_alphanumeric,
};

verus! {

/// A cell position on the visible terminal grid.
#[derive(Debug, Clone, Copy, PartialEq, Eq, Hash, Structural)]
pub struct TerminalPoint {
    pub line: usize,
    pub column: usize,
}

/// A selected range of cells, from `start` to `end` inclusive, in reading order.
#[derive(Debug, Clone, Copy, PartialEq, Eq, Structural)]
pub struct TerminalSelection {
    pub start: TerminalPoint,
    pub end: TerminalPoint,
}

/// An RGBA color.
#[derive(Debug, Clone, Copy, PartialEq, Eq, Structural)]
pub struct TerminalColor {
    pub red: u8,
    pub green: u8,
    pub blue: u8,
    pub alpha: u8,
}

impl TerminalColor {
    /// The four channels in the order red, green, blue, alpha.
    pub fn rgba8(self) -> (r: [u8; 4])
        ensures
            r@ == seq![self.red, self.green, self.blue, self.alpha],
    {
        let r = [self.red, self.green, self.blue, self.alpha];
        assert(r@ =~= seq![self.red, self.green, self.blue, self.alpha]);
        r
    }
}

/// The underline styles a cell can carry.
#[derive(Debug, Clone, Copy, PartialEq, Eq, Structural)]
pub enum TerminalUnderlineStyle {
    Single,
    Double,
    Curly,
    Dotted,
    Dashed,
}

/// The underline attributes a terminal cell carries; a cell may carry several.
#[derive(Debug, Clone, Copy, Default, PartialEq, Eq, Structural)]
pub struct UnderlineFlags {
    pub single: bool,
    pub double: bool,
    pub curly: bool,
    pub dotted: bool,
    pub dashed: bool,
}

/// The underline a cell is drawn with: of the attributes it carries, the first of double,
/// curly, dotted, dashed and single; none when it carries none.
pub open spec fn underline_style_spec(f: UnderlineFlags) -> Option<TerminalUnderlineStyle> {
    if f.double {
        Some(TerminalUnderlineStyle::Double)
    } else if f.curly {
        Some(TerminalUnderlineStyle::Curly)
    } else if f.dotted {
        Some(TerminalUnderlineStyle::Dotted)
    } else if f.dashed {
        Some(TerminalUnderlineStyle::Dashed)
    } else if f.single {
        Some(TerminalUnderlineStyle::Single)
    } else {
        None
    }
}

/// The underline a cell is drawn with (see `underline_style_spec`).
pub fn underline_style(f: UnderlineFlags) -> (u: Option<TerminalUnderlineStyle>)
    ensures
        u == underline_style_spec(f),
{
    if f.double {
        Some(TerminalUnderlineStyle::Double)
    } else if f.curly {
        Some(TerminalUnderlineStyle::Curly)
    } else if f.dotted {
        Some(TerminalUnderlineStyle::Dotted)
    } else if f.dashed {
        Some(TerminalUnderlineStyle::Dashed)
    } else if f.single {
        Some(TerminalUnderlineStyle::Single)
    } else {
        None
    }
}

/// One rendered cell of the terminal grid.
#[derive(Debug, Clone)]
pub struct TerminalCell {
    pub text: String,
    pub fg: TerminalColor,
    pub bg: TerminalColor,
    pub underline: Option<TerminalUnderlineStyle>,
    pub underline_color: TerminalColor,
    pub width: usize,
    pub bold: bool,
    pub italic: bool,
    pub strikeout: bool,
    pub dim: bool,
    pub hidden: bool,
    pub line: usize,
    pub column: usize,
}

/// Reading order on grid positions: by line, then by column.
pub open spec fn point_lt(a: TerminalPoint, b: TerminalPoint) -> bool {
    a.line < b.line || (a.line == b.line && a.column < b.column)
}

pub open spec fn point_le(a: TerminalPoint, b: TerminalPoint) -> bool {
    !point_lt(b, a)
}

/// The selection between an anchor and the current pointer position, in reading order.
pub open spec fn normalize_selection_spec(anchor: TerminalPoint, head: TerminalPoint) -> TerminalSelection {
    if point_lt(head, anchor) {
        TerminalSelection { start: head, end: anchor }
    } else {
        TerminalSelection { start: anchor, end: head }
    }
}

/// The selection between `anchor` and `head`, whichever comes first in reading order.
pub fn normalize_selection(anchor: TerminalPoint, head: TerminalPoint) -> (s: TerminalSelection)
    ensures
        s == normalize_selection_spec(anchor, head),
{
    if head.line < anchor.line || (head.line == anchor.line && head.column < anchor.column) {
        TerminalSelection { start: head, end: anchor }
    } else {
        TerminalSelection { start: anchor, end: head }
    }
}

/// A normalized selection starts no later than it ends, and its two ends are the anchor and
/// the head; swapping anchor and head gives the same selection.
pub proof fn lemma_normalize_selection(anchor: TerminalPoint, head: TerminalPoint)
    ensures
        point_le(normalize_selection_spec(anchor, head).start, normalize_selection_spec(anchor, head).end),
        (normalize_selection_spec(anchor, head).start == anchor && normalize_selection_spec(anchor, head).end == head)
            || (normalize_selection_spec(anchor, head).start == head && normalize_selection_spec(anchor, head).end == anchor),
        normalize_selection_spec(anchor, head) == normalize_selection_spec(head, anchor),
{
}

/// The last column a cell covers: a cell of width 0 or 1 covers its own column.
pub open spec fn cell_last_column(column: usize, width: usize) -> int {
    column + (if width == 0 {
        0int
    } else {
        width - 1
    })
}

/// Whether the cell at `line`, `column` with `width` overlaps the selection.
pub open spec fn cell_in_selection_spec(
    selection: TerminalSelection,
    line: usize,
    column: usize,
    width: usize,
) -> bool {
    let last = cell_last_column(column, width);
    let ends_after_start = line > selection.start.line || (line == selection.start.line && last
        >= selection.start.column);
    let starts_before_end = line < selection.end.line || (line == selection.end.line && column
        <= selection.end.column);
    ends_after_start && starts_before_end
}

/// Whether a cell overlaps a selection.
pub fn cell_in_selection(selection: &TerminalSelection, line: usize, column: usize, width: usize) -> (b:
    bool)
    requires
        cell_last_column(column, width) <= usize::MAX,
    ensures
        b == cell_in_selection_spec(*selection, line, column, width),
{
    let last = column + if width == 0 {
        0
    } else {
        width - 1
    };
    let ends_after_start = line > selection.start.line || (line == selection.start.line && last
        >= selection.start.column);
    let starts_before_end = line < selection.end.line || (line == selection.end.line && column
        <= selection.end.column);
    ends_after_start && starts_before_end
}

/// Whether a cell overlaps the selection, if there is one.
pub fn selection_contains_cell(selection: Option<&TerminalSelection>, cell: &TerminalCell) -> (b:
    bool)
    requires
        cell_last_column(cell.column, cell.width) <= usize::MAX,
    ensures
        b == match selection {
            Some(s) => cell_in_selection_spec(*s, cell.line, cell.column, cell.width),
            None => false,
        },
{
    match selection {
        Some(s) => cell_in_selection(s, cell.line, cell.column, cell.width),
        None => false,
    }
}

// ---------------------------------------------------------------------------
// Word and token selection
// ---------------------------------------------------------------------------

/// How a double or triple click groups cells: by words, or by terminal tokens such as paths
/// and `user@host:dir`.
#[derive(Debug, Clone, Copy, PartialEq, Eq, Structural)]
pub enum SelectionGranularity {
    Word,
    Token,
}

/// The class of a cell for grouping.
#[derive(Debug, Clone, Copy, PartialEq, Eq, Structural)]
pub enum WordCellClass {
    Word,
    Whitespace,
    Symbol,
}

/// A character that belongs to a plain word.
pub open spec fn plain_word_char(c: char) -> bool {
    unicode_alphanumeric(c) || c == '_' || c == '-'
}

/// A character that belongs to a terminal token: word characters and path punctuation.
pub open spec fn terminal_word_char(c: char) -> bool {
    unicode_alphanumeric(c) || c == '_' || c == '-' || c == '.' || c == '/' || c == '\\' || c
        == '@' || c == '~' || c == ':'
}

pub open spec fn granularity_char(g: SelectionGranularity, c: char) -> bool {
    match g {
        SelectionGranularity::Word => plain_word_char(c),
        SelectionGranularity::Token => terminal_word_char(c),
    }
}

/// White space when every character is white space (so an empty cell too), a word when every
/// character is a word character, a symbol otherwise.
pub open spec fn cell_class_spec(g: SelectionGranularity, text: Seq<char>) -> WordCellClass {
    if forall|k: int| 0 <= k < text.len() ==> is_ws(#[trigger] text[k]) {
        WordCellClass::Whitespace
    } else if forall|k: int| 0 <= k < text.len() ==> granularity_char(g, #[trigger] text[k]) {
        WordCellClass::Word
    } else {
        WordCellClass::Symbol
    }
}

fn is_granularity_char(g: SelectionGranularity, c: char) -> (b: bool)
    ensures
        b == granularity_char(g, c),
{
    let alnum = char_is_alphanumeric(c);
    match g {
        SelectionGranularity::Word => alnum || c == '_' || c == '-',
        SelectionGranularity::Token => alnum || c == '_' || c == '-' || c == '.' || c == '/' || c
            == '\\' || c == '@' || c == '~' || c == ':',
    }
}

/// The class of a cell's text.
pub fn cell_class(g: SelectionGranularity, text: &str) -> (c: WordCellClass)
    ensures
        c == cell_class_spec(g, text@),
{
    let v = chars_of(text);
    let mut all_ws = true;
    let mut all_word = true;
    let mut i: usize = 0;
    while i < v.len()
        invariant
            v@ == text@,
            i <= v@.len(),
            all_ws == (forall|k: int| 0 <= k < i ==> is_ws(#[trigger] v@[k])),
            all_word == (forall|k: int| 0 <= k < i ==> granularity_char(g, #[trigger] v@[k])),
        decreases v.len() - i,
    {
        let c = v[i];
        let w = is_whitespace(c);
        let g_ok = is_granularity_char(g, c);
        proof {
            if all_ws && w {
                assert forall|k: int| 0 <= k < i + 1 implies is_ws(#[trigger] v@[k]) by {}
            }
            if !w {
                assert(!is_ws(v@[i as int]));
            }
            if all_word && g_ok {
                assert forall|k: int| 0 <= k < i + 1 implies granularity_char(g, #[trigger] v@[k]) by {}
            }
            if !g_ok {
                assert(!granularity_char(g, v@[i as int]));
            }
        }
        all_ws = all_ws && w;
        all_word = all_word && g_ok;
        i = i + 1;
    }
    if all_ws {
        WordCellClass::Whitespace
    } else if all_word {
        WordCellClass::Word
    } else {
        WordCellClass::Symbol
    }
}

/// The number of columns a cell occupies on screen: its width, and at least one.
pub open spec fn span(width: usize) -> nat {
    if width == 0 {
        1
    } else {
        width as nat
    }
}

/// Cells whose positions stay within machine range when a column and a span are added.
pub open spec fn cells_in_range(cells: Seq<TerminalCell>) -> bool {
    forall|i: int| 0 <= i < cells.len() ==> #[trigger] cells[i].column + span(cells[i].width) + 1 <= usize::MAX
}

/// Whether cell `c` covers grid position `p`.
pub open spec fn covers(c: TerminalCell, p: TerminalPoint) -> bool {
    c.line == p.line && c.column <= p.column && p.column < c.column + span(c.width)
}

/// The index of the first cell, from `i` on, that covers `p`.
pub open spec fn first_covering(cells: Seq<TerminalCell>, p: TerminalPoint, i: int) -> Option<int>
    decreases cells.len() - i,
{
    if i < 0 || i >= cells.len() {
        None
    } else if covers(cells[i], p) {
        Some(i)
    } else {
        first_covering(cells, p, i + 1)
    }
}

/// Whether cell `m` sits immediately left of cell `m + 1` on `line`, with the same class.
pub open spec fn links(
    cells: Seq<TerminalCell>,
    g: SelectionGranularity,
    line: usize,
    class: WordCellClass,
    m: int,
) -> bool {
    &&& 0 <= m
    &&& m + 1 < cells.len()
    &&& cells[m].line == line
    &&& cells[m + 1].line == line
    &&& cell_class_spec(g, cells[m].text@) == class
    &&& cell_class_spec(g, cells[m + 1].text@) == class
    &&& cells[m].column + span(cells[m].width) == cells[m + 1].column
}

/// How far left of cell `i` the run of linked cells reaches.
pub open spec fn left_extent(
    cells: Seq<TerminalCell>,
    g: SelectionGranularity,
    line: usize,
    class: WordCellClass,
    i: int,
) -> int
    decreases i,
{
    if i > 0 && links(cells, g, line, class, i - 1) {
        left_extent(cells, g, line, class, i - 1)
    } else {
        i
    }
}

/// How far right of cell `i` the run of linked cells reaches.
pub open spec fn right_extent(
    cells: Seq<TerminalCell>,
    g: SelectionGranularity,
    line: usize,
    class: WordCellClass,
    i: int,
) -> int
    decreases cells.len() - i,
{
    if 0 <= i && i + 1 < cells.len() && links(cells, g, line, class, i) {
        right_extent(cells, g, line, class, i + 1)
    } else {
        i
    }
}

/// The selection a double (word) or triple (token) click at `p` makes: the point itself when no
/// cell covers it; otherwise the run of cells around the first covering cell that lie side by
/// side on its line and share its class.
pub open spec fn selection_at_spec(cells: Seq<TerminalCell>, p: TerminalPoint, g: SelectionGranularity) -> TerminalSelection {
    match first_covering(cells, p, 0) {
        None => TerminalSelection { start: p, end: p },
        Some(i) => {
            let line = cells[i].line;
            let class = cell_class_spec(g, cells[i].text@);
            let l = left_extent(cells, g, line, class, i);
            let r = right_extent(cells, g, line, class, i);
            TerminalSelection {
                start: TerminalPoint { line, column: cells[l].column },
                end: TerminalPoint {
                    line,
                    column: (cells[r].column + span(cells[r].width) - 1) as usize,
                },
            }
        },
    }
}

proof fn lemma_first_covering_none(cells: Seq<TerminalCell>, p: TerminalPoint, i: int)
    requires
        0 <= i <= cells.len(),
        forall|k: int| i <= k < cells.len() ==> !covers(cells[k], p),
    ensures
        first_covering(cells, p, i) is None,
    decreases cells.len() - i,
{
    if i < cells.len() {
        lemma_first_covering_none(cells, p, i + 1);
    }
}

proof fn lemma_first_covering_skip(cells: Seq<TerminalCell>, p: TerminalPoint, i: int, j: int)
    requires
        0 <= i <= j < cells.len(),
        forall|k: int| i <= k < j ==> !covers(cells[k], p),
        covers(cells[j], p),
    ensures
        first_covering(cells, p, i) == Some(j),
    decreases j - i,
{
    if i < j {
        lemma_first_covering_skip(cells, p, i + 1, j);
    }
}

fn cell_span(width: usize) -> (s: usize)
    ensures
        s == span(width),
{
    if width == 0 {
        1
    } else {
        width
    }
}

/// The selection a double (word) or triple (token) click at `point` makes.
pub fn selection_at(cells: &Vec<TerminalCell>, point: TerminalPoint, g: SelectionGranularity) -> (s:
    TerminalSelection)
    requires
        cells_in_range(cells@),
    ensures
        s == selection_at_spec(cells@, point, g),
{
    let n = cells.len();
    let mut idx: usize = 0;
    while idx < n && !(cells[idx].line == point.line && cells[idx].column <= point.column
        && point.column < cells[idx].column + cell_span(cells[idx].width))
        invariant
            n == cells@.len(),
            idx <= n,
            cells_in_range(cells@),
            forall|k: int| 0 <= k < idx ==> !covers(cells@[k], point),
        decreases n - idx,
    {
        proof {
            assert(cells@[idx as int].column + span(cells@[idx as int].width) + 1 <= usize::MAX);
        }
        idx = idx + 1;
    }
    if idx == n {
        proof {
            lemma_first_covering_none(cells@, point, 0);
        }
        return TerminalSelection { start: point, end: point };
    }
    proof {
        lemma_first_covering_skip(cells@, point, 0, idx as int);
    }
    let line = cells[idx].line;
    let class = cell_class(g, cells[idx].text.as_str());
    let mut l: usize = idx;
    while l > 0 && cells[l - 1].line == line && cells[l].line == line && cells[l - 1].column
        + cell_span(cells[l - 1].width) == cells[l].column && cell_class(
        g,
        cells[l - 1].text.as_str(),
    ) == class
        invariant
            n == cells@.len(),
            l <= idx < n,
            cells_in_range(cells@),
            line == cells@[idx as int].line,
            class == cell_class_spec(g, cells@[idx as int].text@),
            l == idx || cell_class_spec(g, cells@[l as int].text@) == class,
            l == idx || cells@[l as int].line == line,
            left_extent(cells@, g, line, class, idx as int) == left_extent(
                cells@,
                g,
                line,
                class,
                l as int,
            ),
        decreases l,
    {
        proof {
            assert(cells@[l - 1].column + span(cells@[l - 1].width) + 1 <= usize::MAX);
            assert(links(cells@, g, line, class, l - 1));
        }
        l = l - 1;
    }
    proof {
        assert(cells@[l as int].column + span(cells@[l as int].width) + 1 <= usize::MAX);
        if l > 0 {
            assert(cells@[l - 1].column + span(cells@[l - 1].width) + 1 <= usize::MAX);
            assert(!links(cells@, g, line, class, l - 1));
        }
    }
    let mut r: usize = idx;
    while r + 1 < n && cells[r].line == line && cells[r + 1].line == line && cells[r].column
        + cell_span(cells[r].width) == cells[r + 1].column && cell_class(
        g,
        cells[r + 1].text.as_str(),
    ) == class
        invariant
            n == cells@.len(),
            idx <= r < n,
            cells_in_range(cells@),
            line == cells@[idx as int].line,
            class == cell_class_spec(g, cells@[idx as int].text@),
            cell_class_spec(g, cells@[r as int].text@) == class,
            right_extent(cells@, g, line, class, idx as int) == right_extent(
                cells@,
                g,
                line,
                class,
                r as int,
            ),
        decreases n - r,
    {
        proof {
            assert(cells@[r as int].column + span(cells@[r as int].width) + 1 <= usize::MAX);
            assert(links(cells@, g, line, class, r as int));
        }
        r = r + 1;
    }
    proof {
        assert(cells@[r as int].column + span(cells@[r as int].width) + 1 <= usize::MAX);
        if r + 1 < n {
            assert(!links(cells@, g, line, class, r as int));
        }
    }
    let end_column = cells[r].column + cell_span(cells[r].width) - 1;
    TerminalSelection {
        start: TerminalPoint { line, column: cells[l].column },
        end: TerminalPoint { line, column: end_column },
    }
}

// ---------------------------------------------------------------------------
// Text of a selection
// ---------------------------------------------------------------------------

/// Whether cell `c` lies on grid line `line` and overlaps the selection.
pub open spec fn selected_on_line(sel: TerminalSelection, line: int) -> spec_fn(TerminalCell) -> bool {
    |c: TerminalCell| c.line == line && cell_in_selection_spec(sel, c.line, c.column, c.width)
}

/// The selected cells of one line, in the order the snapshot lists them.
pub open spec fn row_cells(cells: Seq<TerminalCell>, sel: TerminalSelection, line: int) -> Seq<
    TerminalCell,
> {
    cells.filter(selected_on_line(sel, line))
}

/// `s` with `c` placed after every cell whose column is not greater than its own.
pub open spec fn insert_by_column(s: Seq<TerminalCell>, c: TerminalCell) -> Seq<TerminalCell>
    decreases s.len(),
{
    if s.len() == 0 || s.last().column <= c.column {
        s.push(c)
    } else {
        insert_by_column(s.drop_last(), c).push(s.last())
    }
}

/// `s` sorted by column; cells with the same column keep their order (a stable sort).
pub open spec fn sort_by_column(s: Seq<TerminalCell>) -> Seq<TerminalCell>
    decreases s.len(),
{
    if s.len() == 0 {
        s
    } else {
        insert_by_column(sort_by_column(s.drop_last()), s.last())
    }
}

/// `n` spaces.
pub open spec fn spaces(n: nat) -> Seq<char> {
    Seq::new(n, |i: int| ' ')
}

/// The text of cells laid out from column `col` on: the gap before each cell is filled with
/// spaces, a hidden cell adds nothing, and the next cell is placed after the columns the cell
/// covers.
pub open spec fn row_text(cells: Seq<TerminalCell>, col: int) -> Seq<char>
    decreases cells.len(),
{
    if cells.len() == 0 {
        Seq::empty()
    } else {
        let c = cells[0];
        let pad = if c.column > col {
            spaces((c.column - col) as nat)
        } else {
            Seq::empty()
        };
        let shown = if c.hidden {
            Seq::empty()
        } else {
            c.text@
        };
        pad + shown + row_text(cells.skip(1), c.column + span(c.width))
    }
}

/// `s` without its trailing spaces.
pub open spec fn trim_trailing_spaces(s: Seq<char>) -> Seq<char>
    decreases s.len(),
{
    if s.len() > 0 && s.last() == ' ' {
        trim_trailing_spaces(s.drop_last())
    } else {
        s
    }
}

/// The text of one selected line: its selected cells by column, laid out from the
/// selection's start column on the first line and from column 0 on the others, without
/// trailing spaces.
pub open spec fn line_text(cells: Seq<TerminalCell>, sel: TerminalSelection, line: int) -> Seq<char> {
    let col: int = if line == sel.start.line {
        sel.start.column as int
    } else {
        0
    };
    trim_trailing_spaces(row_text(sort_by_column(row_cells(cells, sel, line)), col))
}

/// The first `count` lines of the selection, joined by line breaks.
pub open spec fn joined_lines(cells: Seq<TerminalCell>, sel: TerminalSelection, count: nat) -> Seq<
    char,
>
    decreases count,
{
    if count == 0 {
        Seq::empty()
    } else if count == 1 {
        line_text(cells, sel, sel.start.line as int)
    } else {
        joined_lines(cells, sel, (count - 1) as nat) + seq!['\n'] + line_text(
            cells,
            sel,
            sel.start.line + count - 1,
        )
    }
}

/// Whether some cell overlaps the selection.
pub open spec fn has_selected_cell(cells: Seq<TerminalCell>, sel: TerminalSelection) -> bool {
    exists|i: int|
        0 <= i < cells.len() && #[trigger] cell_in_selection_spec(
            sel,
            cells[i].line,
            cells[i].column,
            cells[i].width,
        )
}

/// The text a selection copies: nothing when no cell overlaps it; otherwise each line from
/// its first to its last, joined by line breaks.
pub open spec fn selection_text_spec(cells: Seq<TerminalCell>, sel: TerminalSelection) -> Option<
    Seq<char>,
> {
    if !has_selected_cell(cells, sel) {
        None
    } else {
        Some(joined_lines(cells, sel, (sel.end.line - sel.start.line + 1) as nat))
    }
}

/// The inputs on which copying a selection stays within machine arithmetic: every cell's
/// last column, the end of every selected cell, and the number of selected lines fit in a
/// `usize`.
pub open spec fn selection_text_in_range(cells: Seq<TerminalCell>, sel: TerminalSelection) -> bool {
    &&& forall|i: int|
        0 <= i < cells.len() ==> #[trigger] cell_last_column(cells[i].column, cells[i].width)
            <= usize::MAX
    &&& forall|i: int|
        0 <= i < cells.len() && cell_in_selection_spec(
            sel,
            cells[i].line,
            cells[i].column,
            cells[i].width,
        ) ==> #[trigger] cells[i].column + span(cells[i].width) <= usize::MAX
    &&& has_selected_cell(cells, sel) ==> sel.end.line - sel.start.line + 1 <= usize::MAX
}

/// The cells that a list of indices names.
pub open spec fn cells_at(cells: Seq<TerminalCell>, idx: Seq<usize>) -> Seq<TerminalCell> {
    idx.map_values(|k: usize| cells[k as int])
}

proof fn lemma_insert_position(t: Seq<TerminalCell>, c: TerminalCell, j: int)
    requires
        0 <= j <= t.len(),
        forall|k: int| j <= k < t.len() ==> #[trigger] t[k].column > c.column,
        j == 0 || t[j - 1].column <= c.column,
    ensures
        insert_by_column(t, c) == t.insert(j, c),
    decreases t.len(),
{
    if t.len() == j {
        assert(t.insert(j, c) =~= t.push(c));
    } else {
        let u = t.drop_last();
        assert forall|k: int| j <= k < u.len() implies #[trigger] u[k].column > c.column by {
            assert(u[k] == t[k]);
        }
        if j > 0 {
            assert(u[j - 1] == t[j - 1]);
        }
        lemma_insert_position(u, c, j);
        assert(t.last().column > c.column);
        assert(u.insert(j, c).push(t.last()) =~= t.insert(j, c));
    }
}

/// Inserts index `i` into `sorted` after every cell whose column is not greater.
fn insert_sorted(cells: &Vec<TerminalCell>, sorted: &mut Vec<usize>, i: usize)
    requires
        i < cells@.len(),
        forall|k: int| 0 <= k < old(sorted)@.len() ==> #[trigger] old(sorted)@[k] < cells@.len(),
    ensures
        forall|k: int| 0 <= k < final(sorted)@.len() ==> #[trigger] final(sorted)@[k] < cells@.len(),
        cells_at(cells@, final(sorted)@) == insert_by_column(cells_at(cells@, old(sorted)@), cells@[i as int]),
{
    let ghost t = cells_at(cells@, sorted@);
    let ghost c = cells@[i as int];
    let col = cells[i].column;
    let mut j = sorted.len();
    while j > 0 && cells[sorted[j - 1]].column > col
        invariant
            j <= sorted@.len(),
            sorted@ == old(sorted)@,
            t == cells_at(cells@, sorted@),
            c == cells@[i as int],
            col == c.column,
            forall|k: int| 0 <= k < sorted@.len() ==> #[trigger] sorted@[k] < cells@.len(),
            forall|k: int| j <= k < t.len() ==> #[trigger] t[k].column > c.column,
        decreases j,
    {
        j = j - 1;
    }
    proof {
        lemma_insert_position(t, c, j as int);
    }
    sorted.insert(j, i);
    assert(cells_at(cells@, sorted@) =~= t.insert(j as int, c));
    assert forall|k: int| 0 <= k < sorted@.len() implies #[trigger] sorted@[k] < cells@.len() by {
        if k < j {
            assert(sorted@[k] == old(sorted)@[k]);
        } else if k > j {
            assert(sorted@[k] == old(sorted)@[k - 1]);
        }
    }
}

/// The selected cells of `line`, sorted by column, as indices into `cells`.
fn sorted_row(cells: &Vec<TerminalCell>, sel: &TerminalSelection, line: usize) -> (sorted: Vec<usize>)
    requires
        forall|i: int|
            0 <= i < cells@.len() ==> #[trigger] cell_last_column(cells@[i].column, cells@[i].width)
                <= usize::MAX,
    ensures
        forall|k: int| 0 <= k < sorted@.len() ==> #[trigger] sorted@[k] < cells@.len(),
        cells_at(cells@, sorted@) == sort_by_column(row_cells(cells@, *sel, line as int)),
{
    let ghost pred = selected_on_line(*sel, line as int);
    let mut sorted: Vec<usize> = Vec::new();
    let mut i: usize = 0;
    while i < cells.len()
        invariant
            i <= cells@.len(),
            pred == selected_on_line(*sel, line as int),
            forall|j: int|
                0 <= j < cells@.len() ==> #[trigger] cell_last_column(cells@[j].column, cells@[j].width)
                    <= usize::MAX,
            forall|k: int| 0 <= k < sorted@.len() ==> #[trigger] sorted@[k] < cells@.len(),
            cells_at(cells@, sorted@) == sort_by_column(cells@.take(i as int).filter(pred)),
        decreases cells.len() - i,
    {
        let ghost before = cells@.take(i as int).filter(pred);
        proof {
            reveal(Seq::filter);
            assert(cells@.take(i + 1).drop_last() =~= cells@.take(i as int));
        }
        let c = &cells[i];
        assert(cell_last_column(cells@[i as int].column, cells@[i as int].width) <= usize::MAX);
        if c.line == line && cell_in_selection(sel, c.line, c.column, c.width) {
            assert(pred(cells@[i as int]));
            assert(cells@.take(i + 1).filter(pred) == before.push(cells@[i as int]));
            assert(before.push(cells@[i as int]).drop_last() =~= before);
            insert_sorted(cells, &mut sorted, i);
        } else {
            assert(!pred(cells@[i as int]));
            assert(cells@.take(i + 1).filter(pred) == before);
        }
        i = i + 1;
    }
    assert(cells@.take(cells@.len() as int) =~= cells@);
    sorted
}

proof fn lemma_row_text_step(s: Seq<TerminalCell>, j: int, col: int)
    requires
        0 <= j < s.len(),
    ensures
        row_text(s.skip(j), col) == (if s[j].column > col {
            spaces((s[j].column - col) as nat)
        } else {
            Seq::empty()
        }) + (if s[j].hidden {
            Seq::empty()
        } else {
            s[j].text@
        }) + row_text(s.skip(j + 1), s[j].column + span(s[j].width)),
{
    assert(s.skip(j)[0] == s[j]);
    assert(s.skip(j).skip(1) =~= s.skip(j + 1));
}

proof fn lemma_insert_members(t: Seq<TerminalCell>, c: TerminalCell, x: TerminalCell)
    requires
        insert_by_column(t, c).contains(x),
    ensures
        t.contains(x) || x == c,
    decreases t.len(),
{
    if t.len() == 0 || t.last().column <= c.column {
        let k = choose|k: int| 0 <= k < t.push(c).len() && t.push(c)[k] == x;
        if k < t.len() {
            assert(t[k] == x);
        }
    } else {
        let u = insert_by_column(t.drop_last(), c);
        let k = choose|k: int| 0 <= k < u.push(t.last()).len() && u.push(t.last())[k] == x;
        if k < u.len() {
            assert(u[k] == x);
            lemma_insert_members(t.drop_last(), c, x);
            if t.drop_last().contains(x) {
                let m = choose|m: int| 0 <= m < t.drop_last().len() && t.drop_last()[m] == x;
                assert(t[m] == x);
            }
        } else {
            assert(t[t.len() - 1] == x);
        }
    }
}

proof fn lemma_sort_members(s: Seq<TerminalCell>, x: TerminalCell)
    requires
        sort_by_column(s).contains(x),
    ensures
        s.contains(x),
    decreases s.len(),
{
    if s.len() > 0 {
        lemma_insert_members(sort_by_column(s.drop_last()), s.last(), x);
        if sort_by_column(s.drop_last()).contains(x) {
            lemma_sort_members(s.drop_last(), x);
            let m = choose|m: int| 0 <= m < s.drop_last().len() && s.drop_last()[m] == x;
            assert(s[m] == x);
        } else {
            assert(s[s.len() - 1] == x);
        }
    }
}

/// A cell of a sorted selected row is a selected cell of the snapshot.
proof fn lemma_sorted_cell_selected(
    cells: Seq<TerminalCell>,
    sel: TerminalSelection,
    line: int,
    x: TerminalCell,
)
    requires
        sort_by_column(row_cells(cells, sel, line)).contains(x),
    ensures
        exists|i: int| 0 <= i < cells.len() && cells[i] == x,
        x.line == line,
        cell_in_selection_spec(sel, x.line, x.column, x.width),
{
    let p = selected_on_line(sel, line);
    let row = cells.filter(p);
    lemma_sort_members(row, x);
    cells.lemma_filter_contains_rev(p, x);
    let m = choose|m: int| 0 <= m < row.len() && row[m] == x;
    cells.lemma_filter_pred(p, m);
}

/// Appends the text of one line of the selection to `out`.
fn push_line_text(
    cells: &Vec<TerminalCell>,
    sel: &TerminalSelection,
    line: usize,
    out: &mut Vec<char>,
)
    requires
        selection_text_in_range(cells@, *sel),
    ensures
        final(out)@ == old(out)@ + line_text(cells@, *sel, line as int),
{
    let sorted = sorted_row(cells, sel, line);
    let ghost s = cells_at(cells@, sorted@);
    let col0: usize = if line == sel.start.line {
        sel.start.column
    } else {
        0
    };
    let mut text: Vec<char> = Vec::new();
    let mut col = col0;
    let mut j: usize = 0;
    assert(s.skip(0) =~= s);
    assert(text@ + row_text(s, col0 as int) =~= row_text(s, col0 as int));
    while j < sorted.len()
        invariant
            selection_text_in_range(cells@, *sel),
            s == cells_at(cells@, sorted@),
            s == sort_by_column(row_cells(cells@, *sel, line as int)),
            forall|k: int| 0 <= k < sorted@.len() ==> #[trigger] sorted@[k] < cells@.len(),
            j <= sorted@.len(),
            text@ + row_text(s.skip(j as int), col as int) == row_text(s, col0 as int),
        decreases sorted.len() - j,
    {
        let k = sorted[j];
        let c = &cells[k];
        assert(s[j as int] == cells@[k as int]);
        proof {
            lemma_row_text_step(s, j as int, col as int);
            assert(s.contains(s[j as int]));
            lemma_sorted_cell_selected(cells@, *sel, line as int, s[j as int]);
            let i = choose|i: int| 0 <= i < cells@.len() && cells@[i] == s[j as int];
            assert(cells@[i].column + span(cells@[i].width) <= usize::MAX);
        }
        let ghost before = text@;
        if c.column > col {
            let mut p: usize = col;
            while p < c.column
                invariant
                    col <= p <= c.column,
                    text@ == before + spaces((p - col) as nat),
                decreases c.column - p,
            {
                text.push(' ');
                assert(spaces((p + 1 - col) as nat) =~= spaces((p - col) as nat).push(' '));
                p = p + 1;
            }
        } else {
            assert(text@ =~= before + Seq::<char>::empty());
        }
        let ghost padded = text@;
        if !c.hidden {
            let t = chars_of(c.text.as_str());
            let mut q: usize = 0;
            while q < t.len()
                invariant
                    t@ == c.text@,
                    q <= t@.len(),
                    text@ == padded + t@.take(q as int),
                decreases t.len() - q,
            {
                text.push(t[q]);
                assert(t@.take(q + 1) =~= t@.take(q as int).push(t@[q as int]));
                q = q + 1;
            }
            assert(t@.take(t@.len() as int) =~= t@);
        } else {
            assert(text@ =~= padded + Seq::<char>::empty());
        }
        col = c.column + if c.width == 0 {
            1
        } else {
            c.width
        };
        j = j + 1;
    }
    assert(s.skip(j as int) =~= Seq::<TerminalCell>::empty());
    assert(text@ =~= row_text(s, col0 as int));
    let ghost full = text@;
    while text.len() > 0 && text[text.len() - 1] == ' '
        invariant
            trim_trailing_spaces(text@) == trim_trailing_spaces(full),
        decreases text.len(),
    {
        text.pop();
    }
    let ghost before_out = out@;
    let mut m: usize = 0;
    while m < text.len()
        invariant
            m <= text@.len(),
            out@ == before_out + text@.take(m as int),
        decreases text.len() - m,
    {
        out.push(text[m]);
        assert(text@.take(m + 1) =~= text@.take(m as int).push(text@[m as int]));
        m = m + 1;
    }
    assert(text@.take(text@.len() as int) =~= text@);
}

/// The shape the cursor is drawn in.
#[derive(Debug, Clone, Copy, PartialEq, Eq, Structural)]
pub enum TerminalCursorShape {
    Block,
    Underline,
    Beam,
    HollowBlock,
    Hidden,
}

/// What the terminal shows at one moment: its cells, its cursor and the theme colours.
#[derive(Debug, Clone)]
pub struct TerminalSnapshot {
    pub cells: Vec<TerminalCell>,
    pub cursor_line: usize,
    pub cursor_column: usize,
    pub cursor_width: usize,
    pub cursor_shape: TerminalCursorShape,
    pub show_cursor: bool,
    pub cursor_blinking: bool,
    pub background: TerminalColor,
    pub cursor_color: TerminalColor,
    pub cursor_text: TerminalColor,
    pub selection_background: TerminalColor,
    pub selection_foreground: TerminalColor,
}

/// The text a selection copies (see `selection_text_spec`), or nothing without a selection.
pub fn selection_contents(snapshot: &TerminalSnapshot, selection: Option<&TerminalSelection>) -> (r:
    Option<String>)
    requires
        selection matches Some(sel) ==> selection_text_in_range(snapshot.cells@, *sel),
    ensures
        match selection {
            None => r is None,
            Some(sel) => match selection_text_spec(snapshot.cells@, *sel) {
                None => r is None,
                Some(t) => r matches Some(s) && s@ == t,
            },
        },
{
    let sel = match selection {
        Some(sel) => sel,
        None => {
            return None;
        },
    };
    let cells = &snapshot.cells;
    let mut any = false;
    let mut i: usize = 0;
    while i < cells.len()
        invariant
            i <= cells@.len(),
            selection_text_in_range(cells@, *sel),
            any ==> has_selected_cell(cells@, *sel),
            !any ==> forall|k: int|
                0 <= k < i ==> !#[trigger] cell_in_selection_spec(
                    *sel,
                    cells@[k].line,
                    cells@[k].column,
                    cells@[k].width,
                ),
        decreases cells.len() - i,
    {
        assert(cell_last_column(cells@[i as int].column, cells@[i as int].width) <= usize::MAX);
        if cell_in_selection(sel, cells[i].line, cells[i].column, cells[i].width) {
            any = true;
        }
        i = i + 1;
    }
    if !any {
        return None;
    }
    let count = sel.end.line - sel.start.line + 1;
    let mut out: Vec<char> = Vec::new();
    let mut index: usize = 0;
    while index < count
        invariant
            selection_text_in_range(cells@, *sel),
            has_selected_cell(cells@, *sel),
            count == sel.end.line - sel.start.line + 1,
            index <= count,
            out@ == joined_lines(cells@, *sel, index as nat),
        decreases count - index,
    {
        if index > 0 {
            out.push('\n');
        }
        let line = sel.start.line + index;
        push_line_text(cells, sel, line, &mut out);
        assert(out@ =~= joined_lines(cells@, *sel, (index + 1) as nat));
        index = index + 1;
    }
    Some(string_from_chars(&out, 0, out.len()))
}

/// Whether the cursor, `cursor_width` columns wide at the snapshot's cursor position, covers
/// any column of `cell`.
pub open spec fn cursor_covers_cell_spec(s: TerminalSnapshot, cell: TerminalCell) -> bool {
    &&& cell.line == s.cursor_line
    &&& cell.column < s.cursor_column + span(s.cursor_width)
    &&& cell.column + span(cell.width) > s.cursor_column
}

/// Whether the cursor of a snapshot covers a cell, so that the cell is drawn in cursor colours.
pub fn slint_cursor_covers_cell(snapshot: &TerminalSnapshot, cell: &TerminalCell) -> (b: bool)
    requires
        snapshot.cursor_column + span(snapshot.cursor_width) <= usize::MAX,
        cell.column + span(cell.width) <= usize::MAX,
    ensures
        b == cursor_covers_cell_spec(*snapshot, *cell),
{
    cell.line == snapshot.cursor_line && cell.column < snapshot.cursor_column + cell_span(
        snapshot.cursor_width,
    ) && cell.column + cell_span(cell.width) > snapshot.cursor_column
}

/// How wide the cursor is drawn at `point`: as wide as the first cell that covers the
/// point, and one column where no cell does.
pub open spec fn cursor_width_spec(cells: Seq<TerminalCell>, point: TerminalPoint) -> nat {
    match first_covering(cells, point, 0) {
        Some(k) => span(cells[k].width),
        None => 1,
    }
}

/// The width of the cursor at `point` (see `cursor_width_spec`).
pub fn cursor_cell_width(cells: &Vec<TerminalCell>, point: TerminalPoint) -> (w: usize)
    requires
        forall|i: int| 0 <= i < cells@.len() ==> #[trigger] cells@[i].column + span(cells@[i].width) <= usize::MAX,
    ensures
        w == cursor_width_spec(cells@, point),
{
    let n = cells.len();
    let mut idx: usize = 0;
    while idx < n
        invariant
            n == cells@.len(),
            idx <= n,
            forall|i: int| 0 <= i < cells@.len() ==> #[trigger] cells@[i].column + span(cells@[i].width) <= usize::MAX,
            first_covering(cells@, point, 0) == first_covering(cells@, point, idx as int),
        decreases n - idx,
    {
        let c = &cells[idx];
        assert(cells@[idx as int].column + span(cells@[idx as int].width) <= usize::MAX);
        if c.line == point.line && c.column <= point.column && point.column < c.column + cell_span(
            c.width,
        ) {
            return cell_span(c.width);
        }
        idx = idx + 1;
    }
    1
}

// ---------------------------------------------------------------------------
// Building a snapshot from the grid
// ---------------------------------------------------------------------------

/// A cell as the grid holds it: its line counted from the top of the screen (negative in
/// the scrollback), whether it is the spacer that follows or precedes a wide character,
/// and the cell as drawn, whose `line` is replaced by its line in the view.
#[derive(Debug, Clone)]
pub struct GridCell {
    pub grid_line: i32,
    pub spacer: bool,
    pub cell: TerminalCell,
}

/// The line of the view a grid line shows on, when the view is scrolled back
/// `display_offset` lines.
pub open spec fn view_line(grid_line: i32, display_offset: usize) -> int {
    grid_line + display_offset
}

/// Whether a grid cell is drawn in a view of `cols` columns and `rows` lines: it is no
/// spacer and falls inside the view.
pub open spec fn grid_cell_shown(g: GridCell, display_offset: usize, cols: usize, rows: usize) -> bool {
    &&& !g.spacer
    &&& 0 <= view_line(g.grid_line, display_offset) < rows
    &&& g.cell.column < cols
}

/// The cell drawn for a grid cell: the same cell, on its line of the view.
pub open spec fn grid_cell_drawn(g: GridCell, display_offset: usize) -> TerminalCell {
    TerminalCell { line: view_line(g.grid_line, display_offset) as usize, ..g.cell }
}

/// The cells drawn for a run of grid cells, in order.
pub open spec fn drawn_cells(
    grid: Seq<GridCell>,
    display_offset: usize,
    cols: usize,
    rows: usize,
) -> Seq<TerminalCell>
    decreases grid.len(),
{
    if grid.len() == 0 {
        Seq::empty()
    } else {
        let rest = drawn_cells(grid.drop_last(), display_offset, cols, rows);
        if grid_cell_shown(grid.last(), display_offset, cols, rows) {
            rest.push(grid_cell_drawn(grid.last(), display_offset))
        } else {
            rest
        }
    }
}

/// Each drawn cell is one of the grid's cells, inside the view.
proof fn lemma_drawn_cells_from_grid(grid: Seq<GridCell>, display_offset: usize, cols: usize, rows: usize)
    ensures
        forall|k: int|
            0 <= k < drawn_cells(grid, display_offset, cols, rows).len() ==> exists|j: int|
                0 <= j < grid.len() && grid_cell_shown(grid[j], display_offset, cols, rows)
                    && #[trigger] drawn_cells(grid, display_offset, cols, rows)[k]
                    == grid_cell_drawn(grid[j], display_offset),
    decreases grid.len(),
{
    if grid.len() > 0 {
        let u = grid.drop_last();
        lemma_drawn_cells_from_grid(u, display_offset, cols, rows);
        let d = drawn_cells(grid, display_offset, cols, rows);
        let e = drawn_cells(u, display_offset, cols, rows);
        assert forall|k: int| 0 <= k < d.len() implies exists|j: int|
            0 <= j < grid.len() && grid_cell_shown(grid[j], display_offset, cols, rows)
                && #[trigger] d[k] == grid_cell_drawn(grid[j], display_offset) by {
            if k < e.len() {
                let j = choose|j: int|
                    0 <= j < u.len() && grid_cell_shown(u[j], display_offset, cols, rows)
                        && #[trigger] e[k] == grid_cell_drawn(u[j], display_offset);
                assert(grid[j] == u[j]);
            } else {
                assert(grid[grid.len() - 1] == grid.last());
            }
        }
    }
}

/// What a snapshot of the view holds: the drawn cells; the cursor, at its grid position
/// (a position above the screen counts as the top line) clamped into the view, as wide as
/// the cell under its unclamped position, shown only when the view is not scrolled back and
/// the cursor is not hidden; and the theme's colours.
pub open spec fn snapshot_spec(
    s: TerminalSnapshot,
    grid: Seq<GridCell>,
    display_offset: usize,
    cursor_line: i32,
    cursor_column: usize,
    cursor_shape: TerminalCursorShape,
    cursor_blinking: bool,
    cols: usize,
    rows: usize,
    background: TerminalColor,
    cursor_color: TerminalColor,
    cursor_text: TerminalColor,
    selection_background: TerminalColor,
    selection_foreground: TerminalColor,
) -> bool {
    let cells = drawn_cells(grid, display_offset, cols, rows);
    let line: int = if cursor_line < 0 { 0 } else { cursor_line as int };
    let last_row: int = if rows == 0 { 0 } else { rows - 1 };
    let last_col: int = if cols == 0 { 0 } else { cols - 1 };
    &&& s.cells@ == cells
    &&& s.cursor_line == (if line < last_row { line } else { last_row })
    &&& s.cursor_column == (if cursor_column < last_col { cursor_column as int } else { last_col })
    &&& s.cursor_width == cursor_width_spec(
        cells,
        TerminalPoint { line: line as usize, column: cursor_column },
    )
    &&& s.cursor_shape == cursor_shape
    &&& s.show_cursor == (display_offset == 0 && cursor_shape != TerminalCursorShape::Hidden)
    &&& s.cursor_blinking == cursor_blinking
    &&& s.background == background
    &&& s.cursor_color == cursor_color
    &&& s.cursor_text == cursor_text
    &&& s.selection_background == selection_background
    &&& s.selection_foreground == selection_foreground
}

/// The snapshot of a view of `cols` columns and `rows` lines scrolled back `display_offset`
/// lines (see `snapshot_spec`); the colours are the background, cursor, cursor text and
/// selection colours of the theme.
pub fn snapshot_from_grid(
    grid: Vec<GridCell>,
    display_offset: usize,
    cursor_line: i32,
    cursor_column: usize,
    cursor_shape: TerminalCursorShape,
    cursor_blinking: bool,
    cols: usize,
    rows: usize,
    theme: &crate::theme::TerminalTheme,
) -> (s: TerminalSnapshot)
    requires
        forall|i: int|
            0 <= i < grid@.len() ==> #[trigger] grid@[i].cell.column + span(grid@[i].cell.width)
                <= usize::MAX,
    ensures
        snapshot_spec(
            s,
            grid@,
            display_offset,
            cursor_line,
            cursor_column,
            cursor_shape,
            cursor_blinking,
            cols,
            rows,
            theme.background,
            theme.cursor_color,
            theme.cursor_text,
            theme.selection_background,
            theme.selection_foreground,
        ),
{
    let mut cells: Vec<TerminalCell> = Vec::new();
    let mut i: usize = 0;
    while i < grid.len()
        invariant
            i <= grid@.len(),
            cells@ == drawn_cells(grid@.take(i as int), display_offset, cols, rows),
        decreases grid.len() - i,
    {
        let g = &grid[i];
        assert(grid@.take(i + 1).drop_last() =~= grid@.take(i as int));
        assert(grid@.take(i + 1).last() == grid@[i as int]);
        let line: i128 = g.grid_line as i128 + display_offset as i128;
        if !g.spacer && 0 <= line && line < rows as i128 && g.cell.column < cols {
            let c = TerminalCell {
                text: g.cell.text.clone(),
                fg: g.cell.fg,
                bg: g.cell.bg,
                underline: g.cell.underline,
                underline_color: g.cell.underline_color,
                width: g.cell.width,
                bold: g.cell.bold,
                italic: g.cell.italic,
                strikeout: g.cell.strikeout,
                dim: g.cell.dim,
                hidden: g.cell.hidden,
                line: line as usize,
                column: g.cell.column,
            };
            assert(c.text@ == g.cell.text@);
            assert(c == grid_cell_drawn(*g, display_offset));
            cells.push(c);
        }
        i = i + 1;
    }
    assert(grid@.take(grid@.len() as int) =~= grid@);
    proof {
        lemma_drawn_cells_from_grid(grid@, display_offset, cols, rows);
    }
    assert forall|k: int| 0 <= k < cells@.len() implies #[trigger] cells@[k].column + span(
        cells@[k].width,
    ) <= usize::MAX by {
        let j = choose|j: int|
            0 <= j < grid@.len() && grid_cell_shown(grid@[j], display_offset, cols, rows)
                && #[trigger] drawn_cells(grid@, display_offset, cols, rows)[k] == grid_cell_drawn(
                grid@[j],
                display_offset,
            );
        assert(grid@[j].cell.column + span(grid@[j].cell.width) <= usize::MAX);
    }
    let line: usize = if cursor_line < 0 {
        0
    } else {
        cursor_line as usize
    };
    let width = cursor_cell_width(&cells, TerminalPoint { line, column: cursor_column });
    let last_row: usize = if rows == 0 {
        0
    } else {
        rows - 1
    };
    let last_col: usize = if cols == 0 {
        0
    } else {
        cols - 1
    };
    let show = display_offset == 0 && match cursor_shape {
        TerminalCursorShape::Hidden => false,
        _ => true,
    };
    TerminalSnapshot {
        cells,
        cursor_line: if line < last_row {
            line
        } else {
            last_row
        },
        cursor_column: if cursor_column < last_col {
            cursor_column
        } else {
            last_col
        },
        cursor_width: width,
        cursor_shape,
        show_cursor: show,
        cursor_blinking,
        background: theme.background,
        cursor_color: theme.cursor_color,
        cursor_text: theme.cursor_text,
        selection_background: theme.selection_background,
        selection_foreground: theme.selection_foreground,
    }
}

// ---------------------------------------------------------------------------
// A double or triple click selects around the clicked cell
// ---------------------------------------------------------------------------

proof fn lemma_first_covering_found(cells: Seq<TerminalCell>, p: TerminalPoint, i: int)
    requires
        0 <= i,
    ensures
        first_covering(cells, p, i) matches Some(k) ==> i <= k < cells.len() && covers(cells[k], p),
    decreases cells.len() - i,
{
    if i < cells.len() && !covers(cells[i], p) {
        lemma_first_covering_found(cells, p, i + 1);
    }
}

proof fn lemma_left_extent(
    cells: Seq<TerminalCell>,
    g: SelectionGranularity,
    line: usize,
    class: WordCellClass,
    i: int,
)
    requires
        0 <= i < cells.len(),
    ensures
        0 <= left_extent(cells, g, line, class, i) <= i,
        cells[left_extent(cells, g, line, class, i)].column <= cells[i].column,
    decreases i,
{
    if i > 0 && links(cells, g, line, class, i - 1) {
        lemma_left_extent(cells, g, line, class, i - 1);
    }
}

proof fn lemma_right_extent(
    cells: Seq<TerminalCell>,
    g: SelectionGranularity,
    line: usize,
    class: WordCellClass,
    i: int,
)
    requires
        0 <= i < cells.len(),
    ensures
        i <= right_extent(cells, g, line, class, i) < cells.len(),
        cells[i].column + span(cells[i].width) <= cells[right_extent(cells, g, line, class, i)].column
            + span(cells[right_extent(cells, g, line, class, i)].width),
    decreases cells.len() - i,
{
    if i + 1 < cells.len() && links(cells, g, line, class, i) {
        lemma_right_extent(cells, g, line, class, i + 1);
    }
}

/// The selection a double or triple click makes lies on the clicked line and covers the
/// clicked column.
pub proof fn lemma_selection_at_covers_point(
    cells: Seq<TerminalCell>,
    p: TerminalPoint,
    g: SelectionGranularity,
)
    requires
        cells_in_range(cells),
    ensures
        selection_at_spec(cells, p, g).start.line == p.line,
        selection_at_spec(cells, p, g).end.line == p.line,
        selection_at_spec(cells, p, g).start.column <= p.column,
        p.column <= selection_at_spec(cells, p, g).end.column,
{
    lemma_first_covering_found(cells, p, 0);
    if let Some(i) = first_covering(cells, p, 0) {
        let line = cells[i].line;
        let class = cell_class_spec(g, cells[i].text@);
        lemma_left_extent(cells, g, line, class, i);
        lemma_right_extent(cells, g, line, class, i);
        let r = right_extent(cells, g, line, class, i);
        assert(cells[r].column + span(cells[r].width) + 1 <= usize::MAX);
    }
}

/// Whether `cells` are one-column cells laid side by side on `line` from column 0, each
/// holding one character.
pub open spec fn plain_row(cells: Seq<TerminalCell>, line: usize) -> bool {
    forall|i: int|
        0 <= i < cells.len() ==> (#[trigger] cells[i]).line == line && cells[i].column == i
            && cells[i].width == 1 && cells[i].text@.len() == 1
}

/// Whether `c` is a character of an identifier-like word: a letter or digit that is not
/// white space, `_` or `-`.
pub open spec fn identifier_char(c: char) -> bool {
    c == '_' || c == '-' || (unicode_alphanumeric(c) && !is_ws(c))
}

/// The characters a double click (words) or a triple click (tokens) keeps together: word
/// characters, and for tokens also the path and address punctuation `. / \ @ ~ :`.
pub open spec fn run_char(g: SelectionGranularity, c: char) -> bool {
    match g {
        SelectionGranularity::Word => identifier_char(c),
        SelectionGranularity::Token => identifier_char(c) || c == '.' || c == '/' || c == '\\'
            || c == '@' || c == '~' || c == ':',
    }
}

proof fn lemma_first_covering_plain_row(cells: Seq<TerminalCell>, p: TerminalPoint, i: int)
    requires
        plain_row(cells, p.line),
        0 <= i <= p.column < cells.len(),
    ensures
        first_covering(cells, p, i) == Some(p.column as int),
    decreases p.column - i,
{
    assert(cells[i].column == i);
    if i < p.column {
        lemma_first_covering_plain_row(cells, p, i + 1);
    }
}

proof fn lemma_plain_row_word_class(cells: Seq<TerminalCell>, g: SelectionGranularity, line: usize, i: int)
    requires
        plain_row(cells, line),
        0 <= i < cells.len(),
        run_char(g, cells[i].text@[0]),
    ensures
        cell_class_spec(g, cells[i].text@) == WordCellClass::Word,
{
    let t = cells[i].text@;
    assert(t.len() == 1);
    assert(!is_ws(t[0]));
    assert(!(forall|k: int| 0 <= k < t.len() ==> is_ws(#[trigger] t[k])));
    assert(forall|k: int| 0 <= k < t.len() ==> granularity_char(g, #[trigger] t[k]));
}

proof fn lemma_run_left(cells: Seq<TerminalCell>, g: SelectionGranularity, line: usize, i: int)
    requires
        plain_row(cells, line),
        0 <= i < cells.len(),
        forall|k: int| 0 <= k < cells.len() ==> run_char(g, #[trigger] cells[k].text@[0]),
    ensures
        left_extent(cells, g, line, WordCellClass::Word, i) == 0,
    decreases i,
{
    if i > 0 {
        assert(cells[i - 1].column == i - 1 && cells[i].column == i);
        assert(run_char(g, cells[i - 1].text@[0]));
        assert(run_char(g, cells[i].text@[0]));
        lemma_plain_row_word_class(cells, g, line, i - 1);
        lemma_plain_row_word_class(cells, g, line, i);
        assert(links(cells, g, line, WordCellClass::Word, i - 1));
        lemma_run_left(cells, g, line, i - 1);
    }
}

proof fn lemma_run_right(cells: Seq<TerminalCell>, g: SelectionGranularity, line: usize, i: int)
    requires
        plain_row(cells, line),
        0 <= i < cells.len(),
        forall|k: int| 0 <= k < cells.len() ==> run_char(g, #[trigger] cells[k].text@[0]),
    ensures
        right_extent(cells, g, line, WordCellClass::Word, i) == cells.len() - 1,
    decreases cells.len() - i,
{
    if i + 1 < cells.len() {
        assert(cells[i + 1].column == i + 1 && cells[i].column == i);
        assert(run_char(g, cells[i + 1].text@[0]));
        assert(run_char(g, cells[i].text@[0]));
        lemma_plain_row_word_class(cells, g, line, i + 1);
        lemma_plain_row_word_class(cells, g, line, i);
        assert(links(cells, g, line, WordCellClass::Word, i));
        lemma_run_right(cells, g, line, i + 1);
    }
}

/// A double click on a run of letters, digits, `_` and `-` (such as `my_var` or `foo-bar`)
/// selects the whole run, so underscores and hyphens do not split a word; a triple click
/// also keeps `.`, `/`, `\`, `@`, `~` and `:` inside the run (such as `~/src/main.rs`).
pub proof fn lemma_word_selection_spans_identifier(
    cells: Seq<TerminalCell>,
    p: TerminalPoint,
    g: SelectionGranularity,
)
    requires
        plain_row(cells, p.line),
        p.column < cells.len(),
        forall|k: int| 0 <= k < cells.len() ==> run_char(g, #[trigger] cells[k].text@[0]),
    ensures
        selection_at_spec(cells, p, g) == (TerminalSelection {
            start: TerminalPoint { line: p.line, column: 0 },
            end: TerminalPoint { line: p.line, column: (cells.len() - 1) as usize },
        }),
{
    let i = p.column as int;
    lemma_first_covering_plain_row(cells, p, 0);
    assert(run_char(g, cells[i].text@[0]));
    lemma_plain_row_word_class(cells, g, p.line, i);
    assert(cells[i].line == p.line);
    lemma_run_left(cells, g, p.line, i);
    lemma_run_right(cells, g, p.line, i);
    assert(cells[0].column == 0);
    let n = cells.len() - 1;
    assert(cells[n].column == n && cells[n].width == 1);
}

} // verus!
