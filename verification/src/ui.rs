//! What the presentation layer is handed for one frame: the labels and names
//! to paint, the places to highlight, and the window of the query that fits
//! the search bar.

use crate::app::{shown_categories, visible_entries, App, AppView};
use crate::config::{CursorShape, LauncherTheme};
use crate::desktop::texts;
use crate::events::{get_matching_category_indices, visible_indices};
use crate::score::ints;
use crate::text::{chars_of, lower, lower_chars, seq_eq, slice, string_of};
use vstd::prelude::*;

verus! {

/// The place to highlight in a list of `len` items: the selection, or the
/// first place where the selection points beyond the list.
pub fn list_selection(selected: usize, len: usize) -> (r: usize)
    ensures
        r == if selected >= len {
            0
        } else {
            selected
        },
{
    if selected >= len {
        0
    } else {
        selected
    }
}

/// How the selected item of a list is set off.
#[derive(Debug, Clone, Copy, PartialEq, Eq, Structural)]
pub enum HighlightKind {
    Foreground,
    Background,
}

/// The highlight that a text names, case aside: `foreground`, or else the
/// background.
pub open spec fn highlight_of(text: Seq<char>) -> HighlightKind {
    if lower(text) == "foreground"@ {
        HighlightKind::Foreground
    } else {
        HighlightKind::Background
    }
}

/// Reads how the selected item is set off.
pub fn parse_highlight_type(text: &str) -> (r: HighlightKind)
    ensures
        r == highlight_of(text@),
{
    if seq_eq(&lower_chars(text), &chars_of("foreground")) {
        HighlightKind::Foreground
    } else {
        HighlightKind::Background
    }
}

/// The first character of the query that the search bar shows: the bar
/// scrolls as far as it takes for the cursor to stand in its last column. A
/// bar without room scrolls up to the cursor.
pub open spec fn scroll_offset(cursor: int, width: int) -> int {
    if width == 0 {
        cursor
    } else if cursor >= width {
        cursor - width + 1
    } else {
        0
    }
}

/// The smaller of two numbers.
pub open spec fn least(a: int, b: int) -> int {
    if a <= b {
        a
    } else {
        b
    }
}

/// The part of the query that a search bar of `width` columns shows: from the
/// scroll offset on, as many characters as fit. Nothing is shown where the
/// offset lies beyond the query.
pub open spec fn bar_text(query: Seq<char>, cursor: int, width: int) -> Seq<char> {
    let start = least(scroll_offset(cursor, width), query.len() as int);
    let end = least(start + width, query.len() as int);
    query.subrange(start, end)
}

/// What a search bar shows.
#[derive(Debug, Clone)]
pub struct SearchBarView {
    /// The part of the query that fits the bar.
    pub text: String,
    /// The column of the cursor, counted from the first column of the text.
    pub cursor_column: usize,
}

/// What a search bar with room for `width` characters shows of the query, and
/// the column in which the cursor stands.
pub fn search_bar_view(query: &str, cursor_position: usize, width: usize) -> (r: SearchBarView)
    ensures
        r.text@ == bar_text(query@, cursor_position as int, width as int),
        r.cursor_column == cursor_position - scroll_offset(
            cursor_position as int,
            width as int,
        ),
{
    let q = chars_of(query);
    let offset = if width == 0 {
        cursor_position
    } else if cursor_position >= width {
        cursor_position - width + 1
    } else {
        0
    };
    let start = if offset < q.len() {
        offset
    } else {
        q.len()
    };
    let end = if width < q.len() - start {
        start + width
    } else {
        q.len()
    };
    let text = slice(&q, start, end);
    SearchBarView { text: string_of(&text), cursor_column: cursor_position - offset }
}

/// The column of the cursor in a search bar that is `bar_width` columns wide,
/// borders and padding included, counted from the first column of the text:
/// the cursor position, but at most the room that the bar has for text.
pub fn cursor_column_in_bar(cursor_position: usize, bar_width: u16) -> (r: usize)
    ensures
        r == least(
            cursor_position as int,
            if bar_width >= 4 {
                bar_width - 4
            } else {
                0
            },
        ),
{
    let room: usize = if bar_width >= 4 {
        (bar_width - 4) as usize
    } else {
        0
    };
    if cursor_position > room {
        room
    } else {
        cursor_position
    }
}

/// How the terminal is asked to draw the cursor.
#[derive(Debug, Clone, Copy, PartialEq, Eq, Structural)]
pub enum CursorStyle {
    SteadyBlock,
    SteadyUnderline,
    SteadyBar,
    BlinkingBlock,
    BlinkingUnderline,
    BlinkingBar,
}

/// The cursor style of a theme: its shape, steady where the theme sets a
/// blink interval of its own, blinking by the terminal otherwise.
pub fn cursor_style(theme: &LauncherTheme) -> (r: CursorStyle)
    ensures
        r == if theme.cursor_blink_interval > 0 {
            match theme.cursor_shape {
                CursorShape::Block => CursorStyle::SteadyBlock,
                CursorShape::Underline => CursorStyle::SteadyUnderline,
                CursorShape::Pipe => CursorStyle::SteadyBar,
            }
        } else {
            match theme.cursor_shape {
                CursorShape::Block => CursorStyle::BlinkingBlock,
                CursorShape::Underline => CursorStyle::BlinkingUnderline,
                CursorShape::Pipe => CursorStyle::BlinkingBar,
            }
        },
{
    if theme.cursor_blink_interval > 0 {
        match theme.cursor_shape {
            CursorShape::Block => CursorStyle::SteadyBlock,
            CursorShape::Underline => CursorStyle::SteadyUnderline,
            CursorShape::Pipe => CursorStyle::SteadyBar,
        }
    } else {
        match theme.cursor_shape {
            CursorShape::Block => CursorStyle::BlinkingBlock,
            CursorShape::Underline => CursorStyle::BlinkingUnderline,
            CursorShape::Pipe => CursorStyle::BlinkingBar,
        }
    }
}

/// Whether a session that has been idle for `idle_seconds` has run out of
/// time. A timeout of zero never runs out.
pub fn timed_out(timeout: u64, idle_seconds: u64) -> (r: bool)
    ensures
        r == (timeout > 0 && idle_seconds >= timeout),
{
    timeout > 0 && idle_seconds >= timeout
}

/// The lower-case hexadecimal digit of a value below sixteen.
pub open spec fn hex_digit_char(v: int) -> char {
    if v < 10 {
        ('0' as int + v) as char
    } else {
        ('a' as int + v - 10) as char
    }
}

/// The two lower-case hexadecimal digits of a byte.
pub open spec fn hex_pair(b: u8) -> Seq<char> {
    seq![hex_digit_char(b as int / 16), hex_digit_char(b as int % 16)]
}

/// The control sequence that sets the colour of the terminal's cursor.
pub open spec fn cursor_color_text(red: u8, green: u8, blue: u8) -> Seq<char> {
    seq!['\x1b', ']', '1', '2', ';', 'r', 'g', 'b', ':'] + hex_pair(red) + seq!['/'] + hex_pair(
        green,
    ) + seq!['/'] + hex_pair(blue) + seq!['\x07']
}

/// The control sequence that gives the terminal's cursor its own colour back.
pub open spec fn cursor_reset_text() -> Seq<char> {
    seq!['\x1b', ']', '1', '1', '2', '\x07']
}

/// The lower-case hexadecimal digit of a value below sixteen.
fn hex_digit_of(v: u8) -> (c: char)
    requires
        v < 16,
    ensures
        c == hex_digit_char(v as int),
{
    if v == 0 {
        '0'
    } else if v == 1 {
        '1'
    } else if v == 2 {
        '2'
    } else if v == 3 {
        '3'
    } else if v == 4 {
        '4'
    } else if v == 5 {
        '5'
    } else if v == 6 {
        '6'
    } else if v == 7 {
        '7'
    } else if v == 8 {
        '8'
    } else if v == 9 {
        '9'
    } else if v == 10 {
        'a'
    } else if v == 11 {
        'b'
    } else if v == 12 {
        'c'
    } else if v == 13 {
        'd'
    } else if v == 14 {
        'e'
    } else {
        'f'
    }
}

/// Appends the two hexadecimal digits of a byte.
fn push_hex_pair(out: &mut Vec<char>, b: u8)
    ensures
        final(out)@ == old(out)@ + hex_pair(b),
{
    out.push(hex_digit_of(b / 16));
    out.push(hex_digit_of(b % 16));
    assert(out@ =~= old(out)@ + hex_pair(b));
}

/// The control sequence that sets the terminal's cursor to the colour that
/// `color_hex` spells; none where it spells no colour.
pub fn set_cursor_color(color_hex: &str) -> (r: Option<String>)
    ensures
        match crate::config::hex_color(color_hex@) {
            Some((red, green, blue)) => r is Some && r->0@ == cursor_color_text(
                red as u8,
                green as u8,
                blue as u8,
            ),
            None => r is None,
        },
{
    match crate::config::parse_hex_color(color_hex) {
        Some((red, green, blue)) => {
            let mut out: Vec<char> = Vec::new();
            out.push('\x1b');
            out.push(']');
            out.push('1');
            out.push('2');
            out.push(';');
            out.push('r');
            out.push('g');
            out.push('b');
            out.push(':');
            push_hex_pair(&mut out, red);
            out.push('/');
            push_hex_pair(&mut out, green);
            out.push('/');
            push_hex_pair(&mut out, blue);
            out.push('\x07');
            assert(out@ =~= cursor_color_text(red, green, blue));
            Some(string_of(&out))
        },
        None => None,
    }
}

/// The control sequence that gives the terminal's cursor its own colour back.
pub fn reset_cursor_color() -> (r: String)
    ensures
        r@ == cursor_reset_text(),
{
    let mut out: Vec<char> = Vec::new();
    out.push('\x1b');
    out.push(']');
    out.push('1');
    out.push('1');
    out.push('2');
    out.push('\x07');
    assert(out@ =~= cursor_reset_text());
    string_of(&out)
}

/// The labels and names of one frame, and the places to highlight.
#[derive(Debug, Clone)]
pub struct PaneView {
    /// Labels of the categories that are shown; empty in one pane.
    pub categories: Vec<String>,
    /// Place to highlight among `categories`.
    pub category_index: usize,
    /// Names of the entries that are shown.
    pub apps: Vec<String>,
    /// Place to highlight among `apps`.
    pub app_index: usize,
}

/// The labels of the categories that are shown.
pub open spec fn shown_labels(v: AppView) -> Seq<Seq<char>> {
    shown_categories(v).map_values(|c: int| v.categories[c])
}

/// The names of the entries that are shown.
pub open spec fn shown_names(v: AppView) -> Seq<Seq<char>> {
    visible_entries(v).map_values(|i: int| v.apps[i].name)
}

/// The place to highlight in the list of entries: the selection, but the
/// last place where the selection points beyond the list.
pub open spec fn clamped(selected: int, len: int) -> int {
    if len == 0 {
        0
    } else if selected >= len {
        len - 1
    } else {
        selected
    }
}

/// What to paint for the state of a session with two panes: the categories
/// that show an entry, the entries of the selected one, and the places to
/// highlight.
pub fn dual_pane_view(app: &App) -> (r: PaneView)
    ensures
        texts(r.categories@) == shown_labels(app@),
        r.category_index == if app.selected_category < shown_labels(app@).len() {
            app.selected_category
        } else {
            0
        },
        texts(r.apps@) == shown_names(app@),
        r.app_index == clamped(app.selected_app as int, shown_names(app@).len() as int),
{
    let shown = get_matching_category_indices(app);
    let mut categories: Vec<String> = Vec::new();
    let mut i: usize = 0;
    while i < shown.len()
        invariant
            i <= shown.len(),
            categories@.len() == i,
            forall|k: int| 0 <= k < shown@.len() ==> #[trigger] shown@[k] < app.categories@.len(),
            forall|k: int|
                0 <= k < i ==> (#[trigger] categories@[k])@ == app.categories@[shown@[k] as int]@,
        decreases shown.len() - i,
    {
        categories.push(app.categories[shown[i]].clone());
        i = i + 1;
    }
    assert(texts(categories@) =~= shown_labels(app@)) by {
        assert(ints(shown@) == shown_categories(app@));
        assert forall|k: int| 0 <= k < categories@.len() implies texts(categories@)[k]
            == shown_labels(app@)[k] by {
            assert(ints(shown@)[k] == shown@[k]);
        }
    }
    let apps = names_shown(app);
    let category_index = list_selection(app.selected_category, categories.len());
    let app_index = if apps.len() == 0 {
        0
    } else if app.selected_app >= apps.len() {
        apps.len() - 1
    } else {
        app.selected_app
    };
    PaneView { categories, category_index, apps, app_index }
}

/// The names of the entries that the state shows.
pub fn names_shown(app: &App) -> (r: Vec<String>)
    ensures
        texts(r@) == shown_names(app@),
{
    let order = visible_indices(app);
    let mut r: Vec<String> = Vec::new();
    let mut i: usize = 0;
    while i < order.len()
        invariant
            i <= order.len(),
            r@.len() == i,
            forall|k: int| 0 <= k < order@.len() ==> #[trigger] order@[k] < app.apps@.len(),
            forall|k: int| 0 <= k < i ==> (#[trigger] r@[k])@ == app.apps@[order@[k] as int]@.name,
        decreases order.len() - i,
    {
        r.push(app.apps[order[i]].name.clone());
        i = i + 1;
    }
    assert(texts(r@) =~= shown_names(app@)) by {
        assert(ints(order@) == visible_entries(app@));
        assert forall|k: int| 0 <= k < r@.len() implies texts(r@)[k] == shown_names(app@)[k] by {
            assert(ints(order@)[k] == order@[k]);
        }
    }
    r
}

/// What to paint for the state of a session with one pane: the entries that
/// are shown, and the place to highlight.
pub fn single_pane_view(app: &App) -> (r: PaneView)
    ensures
        r.categories@.len() == 0,
        r.category_index == 0,
        texts(r.apps@) == shown_names(app@),
        r.app_index == if app.selected_app >= shown_names(app@).len() {
            0
        } else {
            app.selected_app
        },
{
    let apps = names_shown(app);
    let app_index = list_selection(app.selected_app, apps.len());
    assert(texts(apps@).len() == apps@.len());
    PaneView { categories: Vec::new(), category_index: 0, apps, app_index }
}

} // verus!
