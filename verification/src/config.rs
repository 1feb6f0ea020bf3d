//! Session configuration: the settings that the engine is started with, and the
//! reading of the few of them that arrive as text.

use crate::text::{chars_of, lower, lower_chars, seq_eq, string_of, trimmed};
use vstd::prelude::*;

verus! {

/// Where the search bar stands relative to the lists.
#[derive(Debug, Clone, Copy, PartialEq, Eq, Structural)]
pub enum SearchPosition {
    Top,
    Bottom,
}

/// Pane mode that a session starts in.
#[derive(Debug, Clone, Copy, PartialEq, Eq, Structural)]
pub enum StartMode {
    Single,
    Dual,
}

/// Shape of the text cursor in the search bar.
#[derive(Debug, Clone, Copy, PartialEq, Eq, Structural)]
pub enum CursorShape {
    Block,
    Underline,
    Pipe,
}

/// Colours and cursor settings, as the configuration gives them.
#[derive(Debug, Clone)]
pub struct LauncherTheme {
    pub border: String,
    pub focus: String,
    pub highlight: String,
    pub border_style: String,
    pub highlight_type: String,
    pub cursor_color: String,
    pub cursor_shape: CursorShape,
    pub cursor_blink_interval: u64,
}

/// Everything a session is configured with.
#[derive(Debug, Clone)]
pub struct DstlConfig {
    pub dmenu: bool,
    pub search_position: SearchPosition,
    pub start_mode: StartMode,
    pub focus_search_on_switch: bool,
    pub colors: LauncherTheme,
    pub terminal: String,
    pub timeout: u64,
    pub max_recent_apps: usize,
    pub recent_first: bool,
}

/// A colour of the theme: a red, green and blue value, or the terminal's own
/// colour where the text names none.
#[derive(Debug, Clone, Copy, PartialEq, Eq, Structural)]
pub enum ThemeColor {
    Rgb(u8, u8, u8),
    Reset,
}

/// Line style of a pane's border.
#[derive(Debug, Clone, Copy, PartialEq, Eq, Structural)]
pub enum BorderKind {
    Plain,
    Rounded,
    Thick,
    Double,
}

/// The value of a hexadecimal digit, if `c` is one.
pub open spec fn hex_value(c: char) -> Option<int> {
    if '0' <= c <= '9' {
        Some(c as int - '0' as int)
    } else if 'a' <= c <= 'f' {
        Some(c as int - 'a' as int + 10)
    } else if 'A' <= c <= 'F' {
        Some(c as int - 'A' as int + 10)
    } else {
        None
    }
}

/// The value of a one-digit or two-digit hexadecimal number, read as
/// `u8::from_str_radix` reads it with radix 16: the first of two characters may
/// be a plus sign, every other character has to be a digit.
pub open spec fn hex_byte(s: Seq<char>) -> Option<int> {
    if s.len() == 1 {
        hex_value(s[0])
    } else if s.len() == 2 {
        match hex_value(s[1]) {
            Some(low) => if s[0] == '+' {
                Some(low)
            } else {
                match hex_value(s[0]) {
                    Some(high) => Some(16 * high + low),
                    None => None,
                }
            },
            None => None,
        }
    } else {
        None
    }
}

/// The colour that the digits after the `#` spell: three digits stand for
/// their doubled forms (`f` for `ff`), six digits are red, green and blue, and
/// of eight digits the last two are left aside.
pub open spec fn hex_digits_color(hex: Seq<char>) -> Option<(int, int, int)> {
    if hex.len() == 3 {
        match (hex_byte(hex.subrange(0, 1)), hex_byte(hex.subrange(1, 2)), hex_byte(hex.subrange(2, 3))) {
            (Some(r), Some(g), Some(b)) => Some((r * 17, g * 17, b * 17)),
            _ => None,
        }
    } else if hex.len() == 6 || hex.len() == 8 {
        match (hex_byte(hex.subrange(0, 2)), hex_byte(hex.subrange(2, 4)), hex_byte(hex.subrange(4, 6))) {
            (Some(r), Some(g), Some(b)) => Some((r, g, b)),
            _ => None,
        }
    } else {
        None
    }
}

/// The colour that a text such as `#1e90ff` spells, if it spells one. The text
/// is trimmed first and has to begin with `#`.
pub open spec fn hex_color(color: Seq<char>) -> Option<(int, int, int)> {
    let c = trimmed(color);
    if c.len() > 0 && c[0] == '#' {
        hex_digits_color(c.skip(1))
    } else {
        None
    }
}

/// The value of a hexadecimal digit.
fn hex_digit(c: char) -> (r: Option<u8>)
    ensures
        match r {
            Some(v) => hex_value(c) == Some(v as int) && v < 16,
            None => hex_value(c) is None,
        },
{
    if '0' <= c && c <= '9' {
        Some((c as u32 - '0' as u32) as u8)
    } else if 'a' <= c && c <= 'f' {
        Some((c as u32 - 'a' as u32 + 10) as u8)
    } else if 'A' <= c && c <= 'F' {
        Some((c as u32 - 'A' as u32 + 10) as u8)
    } else {
        None
    }
}

/// The value of the hexadecimal number that stands in `s` from `from` up to,
/// not including, `to`.
fn parse_hex_byte(s: &Vec<char>, from: usize, to: usize) -> (r: Option<u8>)
    requires
        from <= to <= s.len(),
        to - from <= 2,
    ensures
        match r {
            Some(v) => hex_byte(s@.subrange(from as int, to as int)) == Some(v as int),
            None => hex_byte(s@.subrange(from as int, to as int)) is None,
        },
{
    let ghost piece = s@.subrange(from as int, to as int);
    if to - from == 1 {
        assert(piece[0] == s@[from as int]);
        hex_digit(s[from])
    } else if to - from == 2 {
        assert(piece[0] == s@[from as int]);
        assert(piece[1] == s@[from + 1]);
        match hex_digit(s[from + 1]) {
            Some(low) => {
                if s[from] == '+' {
                    Some(low)
                } else {
                    match hex_digit(s[from]) {
                        Some(high) => Some(16 * high + low),
                        None => None,
                    }
                }
            },
            None => None,
        }
    } else {
        None
    }
}

/// Reads a colour such as `#fff`, `#1e90ff` or `#1e90ff80`.
pub fn parse_hex_color(color: &str) -> (r: Option<(u8, u8, u8)>)
    ensures
        match r {
            Some((red, green, blue)) => hex_color(color@) == Some(
                (red as int, green as int, blue as int),
            ),
            None => hex_color(color@) is None,
        },
{
    let c = crate::text::trim_text(color);
    if c.len() == 0 || c[0] != '#' {
        return None;
    }
    let ghost hex = c@.skip(1);
    let n = c.len() - 1;
    if n == 3 {
        assert(hex.subrange(0, 1) == c@.subrange(1, 2));
        assert(hex.subrange(1, 2) == c@.subrange(2, 3));
        assert(hex.subrange(2, 3) == c@.subrange(3, 4));
        match (parse_hex_byte(&c, 1, 2), parse_hex_byte(&c, 2, 3), parse_hex_byte(&c, 3, 4)) {
            (Some(r), Some(g), Some(b)) => {
                assert(hex_byte(c@.subrange(1, 2)) == Some(r as int) ==> r < 16);
                assert(hex_byte(c@.subrange(2, 3)) == Some(g as int) ==> g < 16);
                assert(hex_byte(c@.subrange(3, 4)) == Some(b as int) ==> b < 16);
                Some((r * 17, g * 17, b * 17))
            },
            _ => None,
        }
    } else if n == 6 || n == 8 {
        assert(hex.subrange(0, 2) == c@.subrange(1, 3));
        assert(hex.subrange(2, 4) == c@.subrange(3, 5));
        assert(hex.subrange(4, 6) == c@.subrange(5, 7));
        match (parse_hex_byte(&c, 1, 3), parse_hex_byte(&c, 3, 5), parse_hex_byte(&c, 5, 7)) {
            (Some(r), Some(g), Some(b)) => Some((r, g, b)),
            _ => None,
        }
    } else {
        None
    }
}

impl LauncherTheme {
    /// A copy of the theme.
    pub fn duplicate(&self) -> (r: LauncherTheme)
        ensures
            r == *self,
    {
        LauncherTheme {
            border: self.border.clone(),
            focus: self.focus.clone(),
            highlight: self.highlight.clone(),
            border_style: self.border_style.clone(),
            highlight_type: self.highlight_type.clone(),
            cursor_color: self.cursor_color.clone(),
            cursor_shape: self.cursor_shape,
            cursor_blink_interval: self.cursor_blink_interval,
        }
    }

    /// Reads a colour of the theme. A text that spells no colour stands for the
    /// terminal's own colour.
    pub fn parse_color(color: &str) -> (r: ThemeColor)
        ensures
            r == match hex_color(color@) {
                Some((red, green, blue)) => ThemeColor::Rgb(red as u8, green as u8, blue as u8),
                None => ThemeColor::Reset,
            },
    {
        match parse_hex_color(color) {
            Some((red, green, blue)) => ThemeColor::Rgb(red, green, blue),
            None => ThemeColor::Reset,
        }
    }

    /// Reads a border style, case aside. An unknown style is plain.
    pub fn parse_border_type(style: &str) -> (r: BorderKind)
        ensures
            r == border_kind(style@),
    {
        let s = lower_chars(style);
        if seq_eq(&s, &chars_of("rounded")) {
            BorderKind::Rounded
        } else if seq_eq(&s, &chars_of("thick")) {
            BorderKind::Thick
        } else if seq_eq(&s, &chars_of("double")) {
            BorderKind::Double
        } else {
            BorderKind::Plain
        }
    }
}

impl DstlConfig {
    /// A copy of the configuration.
    pub fn duplicate(&self) -> (r: DstlConfig)
        ensures
            r == *self,
    {
        DstlConfig {
            dmenu: self.dmenu,
            search_position: self.search_position,
            start_mode: self.start_mode,
            focus_search_on_switch: self.focus_search_on_switch,
            colors: self.colors.duplicate(),
            terminal: self.terminal.clone(),
            timeout: self.timeout,
            max_recent_apps: self.max_recent_apps,
            recent_first: self.recent_first,
        }
    }
}

/// The border style that a text names, case aside.
pub open spec fn border_kind(style: Seq<char>) -> BorderKind {
    let s = lower(style);
    if s == "rounded"@ {
        BorderKind::Rounded
    } else if s == "thick"@ {
        BorderKind::Thick
    } else if s == "double"@ {
        BorderKind::Double
    } else {
        BorderKind::Plain
    }
}

/// The search bar position that a text names, case aside: `bottom`, or else the top.
pub open spec fn search_position_of(text: Seq<char>) -> SearchPosition {
    if lower(text) == "bottom"@ {
        SearchPosition::Bottom
    } else {
        SearchPosition::Top
    }
}

/// The start mode that a text names, case aside: `dual`, or else single.
pub open spec fn start_mode_of(text: Seq<char>) -> StartMode {
    if lower(text) == "dual"@ {
        StartMode::Dual
    } else {
        StartMode::Single
    }
}

/// The cursor shape that a text names, case aside: `underline`, `pipe`, or
/// else a block.
pub open spec fn cursor_shape_of(text: Seq<char>) -> CursorShape {
    if lower(text) == "underline"@ {
        CursorShape::Underline
    } else if lower(text) == "pipe"@ {
        CursorShape::Pipe
    } else {
        CursorShape::Block
    }
}

/// Reads a search bar position.
pub fn parse_search_position(text: &str) -> (r: SearchPosition)
    ensures
        r == search_position_of(text@),
{
    if seq_eq(&lower_chars(text), &chars_of("bottom")) {
        SearchPosition::Bottom
    } else {
        SearchPosition::Top
    }
}

/// Reads a start mode.
pub fn parse_start_mode(text: &str) -> (r: StartMode)
    ensures
        r == start_mode_of(text@),
{
    if seq_eq(&lower_chars(text), &chars_of("dual")) {
        StartMode::Dual
    } else {
        StartMode::Single
    }
}

/// Reads a cursor shape.
pub fn parse_cursor_shape(text: &str) -> (r: CursorShape)
    ensures
        r == cursor_shape_of(text@),
{
    let l = lower_chars(text);
    if seq_eq(&l, &chars_of("underline")) {
        CursorShape::Underline
    } else if seq_eq(&l, &chars_of("pipe")) {
        CursorShape::Pipe
    } else {
        CursorShape::Block
    }
}

/// `s` with every `from` turned into `to`.
pub open spec fn with_char_replaced(s: Seq<char>, from: char, to: char) -> Seq<char> {
    s.map_values(
        |c: char|
            if c == from {
                to
            } else {
                c
            },
    )
}

/// `s` with every `from` turned into `to`.
pub fn replace_char(s: &str, from: char, to: char) -> (r: String)
    ensures
        r@ == with_char_replaced(s@, from, to),
{
    let v = chars_of(s);
    let mut out: Vec<char> = Vec::new();
    let mut i: usize = 0;
    while i < v.len()
        invariant
            i <= v.len(),
            out@.len() == i,
            forall|j: int|
                0 <= j < i ==> #[trigger] out@[j] == if v@[j] == from {
                    to
                } else {
                    v@[j]
                },
        decreases v.len() - i,
    {
        out.push(
            if v[i] == from {
                to
            } else {
                v[i]
            },
        );
        i = i + 1;
    }
    assert(out@ =~= with_char_replaced(s@, from, to));
    string_of(&out)
}

/// The spellings under which a setting is looked up, in the order in which
/// they are tried: the key as it is, with every underscore as a hyphen, and
/// with every hyphen as an underscore.
pub fn key_variants(key: &str) -> (r: Vec<String>)
    ensures
        r@.len() == 3,
        r@[0]@ == key@,
        r@[1]@ == with_char_replaced(key@, '_', '-'),
        r@[2]@ == with_char_replaced(key@, '-', '_'),
{
    let mut r: Vec<String> = Vec::new();
    r.push(key.to_owned());
    r.push(replace_char(key, '_', '-'));
    r.push(replace_char(key, '-', '_'));
    r
}

/// The first position of `found` that holds a value.
pub open spec fn first_found<T>(found: Seq<Option<T>>) -> Option<int>
    decreases found.len(),
{
    if found.len() == 0 {
        None
    } else if found[0] is Some {
        Some(0)
    } else {
        match first_found(found.skip(1)) {
            Some(i) => Some(i + 1),
            None => None,
        }
    }
}

/// The value of the first spelling under which a setting was found, or
/// `default` where it was found under none.
pub fn first_or<T>(found: Vec<Option<T>>, default: T) -> (r: T)
    ensures
        r == match first_found(found@) {
            Some(i) => found@[i]->0,
            None => default,
        },
        first_found(found@) matches Some(i) ==> 0 <= i < found@.len() && found@[i] is Some,
{
    let mut items = found;
    let ghost all = items@;
    let mut i: usize = 0;
    assert(all.skip(0) == all);
    while i < items.len()
        invariant
            i <= items.len(),
            items@ == all,
            all == found@,
            first_found(all) == match first_found(all.skip(i as int)) {
                Some(k) => Some(k + i),
                None => None,
            },
        decreases items.len() - i,
    {
        assert(all.skip(i as int).skip(1) == all.skip(i + 1));
        assert(all.skip(i as int)[0] == all[i as int]);
        if items[i].is_some() {
            assert(first_found(all.skip(i as int)) == Some(0int));
            assert(first_found(all) == Some(i as int));
            let value = items.swap_remove(i);
            assert(value == all[i as int]);
            return value.unwrap();
        }
        i = i + 1;
    }
    assert(first_found(all.skip(i as int)) is None);
    default
}

/// The colours that one place of the configuration gives, each where it is set.
#[derive(Debug, Clone)]
pub struct ThemeSource {
    pub border: Option<String>,
    pub focus: Option<String>,
    pub highlight: Option<String>,
    pub cursor_color: Option<String>,
}

/// The four colours of a theme: border, focus, highlight and cursor.
#[derive(Debug, Clone)]
pub struct ThemeColors {
    pub border: String,
    pub focus: String,
    pub highlight: String,
    pub cursor_color: String,
}

/// The first of the places that sets a border colour.
pub open spec fn first_with_border(places: Seq<ThemeSource>) -> Option<int>
    decreases places.len(),
{
    if places.len() == 0 {
        None
    } else if places[0].border is Some {
        Some(0)
    } else {
        match first_with_border(places.skip(1)) {
            Some(i) => Some(i + 1),
            None => None,
        }
    }
}

/// The place that the colours are taken from: the first place under an import alias that
/// sets a border colour; else the top level if it sets one; else the theme
/// document if there is one; else the top level.
pub open spec fn chosen_source(
    aliased: Seq<ThemeSource>,
    top: ThemeSource,
    theme_document: Option<ThemeSource>,
) -> ThemeSource {
    match first_with_border(aliased) {
        Some(i) => aliased[i],
        None => if top.border is Some {
            top
        } else {
            match theme_document {
                Some(d) => d,
                None => top,
            }
        },
    }
}

/// The text if it is set, the fallback otherwise.
pub open spec fn text_or(o: Option<String>, fallback: Seq<char>) -> Seq<char> {
    match o {
        Some(s) => s@,
        None => fallback,
    }
}

/// A copy of the text if it is set, of the fallback otherwise.
fn owned_or(o: &Option<String>, fallback: &str) -> (r: String)
    ensures
        r@ == text_or(*o, fallback@),
{
    match o {
        Some(s) => s.clone(),
        None => fallback.to_owned(),
    }
}

/// Settles the four colours of the theme. They are taken from one place, see
/// `chosen_source`; a colour that this place does not set is white for the
/// border, green for the focus and blue for the highlight, and the cursor has
/// the colour of the focus.
pub fn resolve_theme_colors(
    aliased: &Vec<ThemeSource>,
    top: &ThemeSource,
    theme_document: &Option<ThemeSource>,
) -> (r: ThemeColors)
    ensures
        ({
            let src = chosen_source(aliased@, *top, *theme_document);
            &&& r.border@ == text_or(src.border, "#ffffff"@)
            &&& r.focus@ == text_or(src.focus, "#00ff00"@)
            &&& r.highlight@ == text_or(src.highlight, "#0000ff"@)
            &&& r.cursor_color@ == text_or(src.cursor_color, r.focus@)
        }),
{
    let mut i: usize = 0;
    let mut at: Option<usize> = None;
    assert(aliased@.skip(0) == aliased@);
    while i < aliased.len() && at.is_none()
        invariant
            i <= aliased.len(),
            match at {
                Some(k) => first_with_border(aliased@) == Some(k as int) && k < aliased@.len(),
                None => first_with_border(aliased@) == match first_with_border(
                    aliased@.skip(i as int),
                ) {
                    Some(k) => Some(k + i),
                    None => None,
                },
            },
        decreases aliased.len() - i + if at is None { 1int } else { 0int },
    {
        assert(aliased@.skip(i as int).skip(1) == aliased@.skip(i + 1));
        assert(aliased@.skip(i as int)[0] == aliased@[i as int]);
        if aliased[i].border.is_some() {
            at = Some(i);
        } else {
            i = i + 1;
        }
    }
    let src: &ThemeSource = match at {
        Some(k) => &aliased[k],
        None => {
            if top.border.is_some() {
                top
            } else {
                match theme_document {
                    Some(d) => d,
                    None => top,
                }
            }
        },
    };
    let focus = owned_or(&src.focus, "#00ff00");
    let cursor_color = match &src.cursor_color {
        Some(c) => c.clone(),
        None => focus.clone(),
    };
    ThemeColors {
        border: owned_or(&src.border, "#ffffff"),
        focus,
        highlight: owned_or(&src.highlight, "#0000ff"),
        cursor_color,
    }
}

/// The settings as the configuration spells them, each where it is set.
#[derive(Debug, Clone)]
pub struct RawConfig {
    pub dmenu: Option<bool>,
    pub terminal: Option<String>,
    pub timeout: Option<u64>,
    pub max_recent_apps: Option<u64>,
    pub recent_first: Option<bool>,
    pub search_position: Option<String>,
    pub startup_mode: Option<String>,
    pub focus_search_on_switch: Option<bool>,
    pub cursor_shape: Option<String>,
    pub cursor_blink_interval: Option<u64>,
    pub border_style: Option<String>,
    pub highlight_type: Option<String>,
}

/// The number as a length, the greatest length where it is beyond all lengths.
pub open spec fn as_length(n: u64) -> usize {
    if n <= usize::MAX {
        n as usize
    } else {
        usize::MAX
    }
}

impl DstlConfig {
    /// Settles the configuration of a session from the settings as they are
    /// spelled and the colours of the theme. A setting that is not set has its
    /// default: no executables' list, terminal `foot`, no timeout, fifteen
    /// recent names, recency not first, search bar at the top, one pane, focus
    /// on the search bar after a switch, a block cursor that the terminal
    /// blinks, plain borders, and a highlighted background.
    pub fn from_raw(raw: &RawConfig, colors: ThemeColors) -> (r: DstlConfig)
        ensures
            r.dmenu == raw.dmenu.unwrap_or(false),
            r.terminal@ == text_or(raw.terminal, "foot"@),
            r.timeout == raw.timeout.unwrap_or(0),
            r.max_recent_apps == as_length(raw.max_recent_apps.unwrap_or(15)),
            r.recent_first == raw.recent_first.unwrap_or(false),
            r.search_position == search_position_of(text_or(raw.search_position, "top"@)),
            r.start_mode == start_mode_of(text_or(raw.startup_mode, "single"@)),
            r.focus_search_on_switch == raw.focus_search_on_switch.unwrap_or(true),
            r.colors.border == colors.border,
            r.colors.focus == colors.focus,
            r.colors.highlight == colors.highlight,
            r.colors.cursor_color == colors.cursor_color,
            r.colors.border_style@ == text_or(raw.border_style, "plain"@),
            r.colors.highlight_type@ == text_or(raw.highlight_type, "background"@),
            r.colors.cursor_shape == cursor_shape_of(text_or(raw.cursor_shape, "block"@)),
            r.colors.cursor_blink_interval == raw.cursor_blink_interval.unwrap_or(0),
    {
        let max = match raw.max_recent_apps {
            Some(n) => n,
            None => 15,
        };
        let max_recent_apps = if max <= usize::MAX as u64 {
            max as usize
        } else {
            usize::MAX
        };
        let search_position = parse_search_position(
            owned_or(&raw.search_position, "top").as_str(),
        );
        let start_mode = parse_start_mode(owned_or(&raw.startup_mode, "single").as_str());
        let cursor_shape = parse_cursor_shape(owned_or(&raw.cursor_shape, "block").as_str());
        DstlConfig {
            dmenu: match raw.dmenu {
                Some(b) => b,
                None => false,
            },
            search_position,
            start_mode,
            focus_search_on_switch: match raw.focus_search_on_switch {
                Some(b) => b,
                None => true,
            },
            colors: LauncherTheme {
                border: colors.border,
                focus: colors.focus,
                highlight: colors.highlight,
                border_style: owned_or(&raw.border_style, "plain"),
                highlight_type: owned_or(&raw.highlight_type, "background"),
                cursor_color: colors.cursor_color,
                cursor_shape,
                cursor_blink_interval: match raw.cursor_blink_interval {
                    Some(n) => n,
                    None => 0,
                },
            },
            terminal: owned_or(&raw.terminal, "foot"),
            timeout: match raw.timeout {
                Some(n) => n,
                None => 0,
            },
            max_recent_apps,
            recent_first: match raw.recent_first {
                Some(b) => b,
                None => false,
            },
        }
    }

    /// What the flat list of this configuration holds.
    pub fn single_pane_mode(&self) -> (r: crate::app::SinglePaneMode)
        ensures
            r == if self.dmenu {
                crate::app::SinglePaneMode::Dmenu
            } else {
                crate::app::SinglePaneMode::DesktopApps
            },
    {
        if self.dmenu {
            crate::app::SinglePaneMode::Dmenu
        } else {
            crate::app::SinglePaneMode::DesktopApps
        }
    }

    /// The pane mode that a session of this configuration starts in.
    pub fn pane_mode(&self) -> (r: crate::app::Mode)
        ensures
            r == match self.start_mode {
                StartMode::Dual => crate::app::Mode::DualPane,
                StartMode::Single => crate::app::Mode::SinglePane,
            },
    {
        match self.start_mode {
            StartMode::Dual => crate::app::Mode::DualPane,
            StartMode::Single => crate::app::Mode::SinglePane,
        }
    }
}

} // verus!
