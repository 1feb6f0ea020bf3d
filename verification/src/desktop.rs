//! Desktop entry files: reading the primary section of one file, and the rules
//! that decide whether what was read is shown.

use crate::text::{
    chars_of, find_char, first_index, has_char, lower, lower_chars, seq_eq, slice, split,
    split_on, string_of, trim, trimmed, views,
};
use vstd::prelude::*;

verus! {

/// What the primary section of a desktop entry file says, before any rule is
/// applied to it.
#[derive(Debug, Clone)]
pub struct RawEntry {
    /// Value of `Name`.
    pub name: Option<String>,
    /// Value of `GenericName`.
    pub generic_name: Option<String>,
    /// Value of `Exec`.
    pub command: Option<String>,
    /// Value of `Categories`.
    pub categories: Option<String>,
    /// Whether the last `NoDisplay` was `true`.
    pub no_display: bool,
    /// Whether some `Hidden` was `true`.
    pub hidden: bool,
    /// Whether the last `Terminal` was `true`.
    pub terminal: bool,
    /// Items of `OnlyShowIn`.
    pub only_show_in: Option<Vec<String>>,
    /// Items of `NotShowIn`.
    pub not_show_in: Option<Vec<String>>,
}

/// A raw entry as contracts see it.
pub ghost struct RawEntryView {
    pub name: Option<Seq<char>>,
    pub generic_name: Option<Seq<char>>,
    pub command: Option<Seq<char>>,
    pub categories: Option<Seq<char>>,
    pub no_display: bool,
    pub hidden: bool,
    pub terminal: bool,
    pub only_show_in: Option<Seq<Seq<char>>>,
    pub not_show_in: Option<Seq<Seq<char>>>,
}

/// The views of a list of texts.
pub open spec fn texts(v: Seq<String>) -> Seq<Seq<char>> {
    v.map_values(|s: String| s@)
}

/// The view of a text that may be absent.
pub open spec fn opt_text(o: Option<String>) -> Option<Seq<char>> {
    match o {
        Some(s) => Some(s@),
        None => None,
    }
}

/// The views of a list of texts that may be absent.
pub open spec fn opt_texts(o: Option<Vec<String>>) -> Option<Seq<Seq<char>>> {
    match o {
        Some(v) => Some(texts(v@)),
        None => None,
    }
}

impl View for RawEntry {
    type V = RawEntryView;

    open spec fn view(&self) -> RawEntryView {
        RawEntryView {
            name: opt_text(self.name),
            generic_name: opt_text(self.generic_name),
            command: opt_text(self.command),
            categories: opt_text(self.categories),
            no_display: self.no_display,
            hidden: self.hidden,
            terminal: self.terminal,
            only_show_in: opt_texts(self.only_show_in),
            not_show_in: opt_texts(self.not_show_in),
        }
    }
}

/// The raw entry of a file that says nothing.
pub open spec fn blank_entry() -> RawEntryView {
    RawEntryView {
        name: None,
        generic_name: None,
        command: None,
        categories: None,
        no_display: false,
        hidden: false,
        terminal: false,
        only_show_in: None,
        not_show_in: None,
    }
}

/// The pieces of a list, trimmed, without those that are empty once trimmed.
pub open spec fn trimmed_items(pieces: Seq<Seq<char>>) -> Seq<Seq<char>>
    decreases pieces.len(),
{
    if pieces.len() == 0 {
        Seq::empty()
    } else {
        let t = trimmed(pieces.last());
        if t.len() > 0 {
            trimmed_items(pieces.drop_last()).push(t)
        } else {
            trimmed_items(pieces.drop_last())
        }
    }
}

/// The items of a list value: its pieces between semicolons, trimmed, the
/// empty ones left out.
pub open spec fn list_items(value: Seq<char>) -> Seq<Seq<char>> {
    trimmed_items(split_on(value, ';'))
}

/// The raw entry after `key` was given `value`. `Hidden` can only raise the
/// hide flag; every other key holds the value that was given last. A key
/// that is not one of the nine recognised ones changes nothing.
pub open spec fn set_field(e: RawEntryView, key: Seq<char>, value: Seq<char>) -> RawEntryView {
    if key == "Name"@ {
        RawEntryView { name: Some(value), ..e }
    } else if key == "GenericName"@ {
        RawEntryView { generic_name: Some(value), ..e }
    } else if key == "Exec"@ {
        RawEntryView { command: Some(value), ..e }
    } else if key == "Categories"@ {
        RawEntryView { categories: Some(value), ..e }
    } else if key == "NoDisplay"@ {
        RawEntryView { no_display: value == "true"@, ..e }
    } else if key == "Hidden"@ {
        RawEntryView { hidden: e.hidden || value == "true"@, ..e }
    } else if key == "Terminal"@ {
        RawEntryView { terminal: value == "true"@, ..e }
    } else if key == "OnlyShowIn"@ {
        RawEntryView { only_show_in: Some(list_items(value)), ..e }
    } else if key == "NotShowIn"@ {
        RawEntryView { not_show_in: Some(list_items(value)), ..e }
    } else {
        e
    }
}

/// The state of the reader after one more line. The state is whether the
/// reader stands inside the primary section, and the raw entry so far.
///
/// The line is trimmed. A line that begins with `[` opens a section, the
/// primary one if the line is exactly `[Desktop Entry]`. Outside the primary
/// section every other line is passed over. Inside it, a line with `=` gives
/// the key before the first `=` the value after it, both trimmed, unless the
/// key holds `[`, which marks a localised variant.
pub open spec fn parse_line(st: (bool, RawEntryView), raw_line: Seq<char>) -> (
    bool,
    RawEntryView,
) {
    let line = trimmed(raw_line);
    if line.len() > 0 && line[0] == '[' {
        (line == "[Desktop Entry]"@, st.1)
    } else if !st.0 {
        st
    } else {
        match first_index(line, '=') {
            None => st,
            Some(i) => {
                if line.take(i).contains('[') {
                    st
                } else {
                    (true, set_field(st.1, trimmed(line.take(i)), trimmed(line.skip(i + 1))))
                }
            },
        }
    }
}

/// The state of the reader after all of `lines`, read in order.
pub open spec fn parse_lines(lines: Seq<Seq<char>>) -> (bool, RawEntryView)
    decreases lines.len(),
{
    if lines.len() == 0 {
        (false, blank_entry())
    } else {
        parse_line(parse_lines(lines.drop_last()), lines.last())
    }
}

/// What the primary section of a file with this content says. Lines are parted
/// by line feeds.
pub open spec fn parse_entry(content: Seq<char>) -> RawEntryView {
    parse_lines(split_on(content, '\n')).1
}

/// The items of a list value.
pub fn parse_list(value: &Vec<char>) -> (r: Vec<String>)
    ensures
        texts(r@) == list_items(value@),
{
    let pieces = split(value, ';');
    let mut r: Vec<String> = Vec::new();
    let mut i: usize = 0;
    assert(texts(r@) =~= trimmed_items(views(pieces@).take(0)));
    while i < pieces.len()
        invariant
            i <= pieces.len(),
            texts(r@) == trimmed_items(views(pieces@).take(i as int)),
        decreases pieces.len() - i,
    {
        let t = trim(&pieces[i]);
        proof {
            let upto = views(pieces@).take(i + 1);
            assert(upto.drop_last() == views(pieces@).take(i as int));
            assert(upto.last() == pieces@[i as int]@);
        }
        if t.len() > 0 {
            let item = string_of(&t);
            assert(texts(r@.push(item)) =~= texts(r@).push(item@));
            r.push(item);
        }
        i = i + 1;
    }
    assert(views(pieces@).take(pieces@.len() as int) == views(pieces@));
    r
}

impl RawEntry {
    /// The raw entry of a file that says nothing.
    pub fn new() -> (e: RawEntry)
        ensures
            e@ == blank_entry(),
    {
        RawEntry {
            name: None,
            generic_name: None,
            command: None,
            categories: None,
            no_display: false,
            hidden: false,
            terminal: false,
            only_show_in: None,
            not_show_in: None,
        }
    }

    /// Gives `key` the value `value`.
    pub fn set(&mut self, key: &Vec<char>, value: &Vec<char>)
        ensures
            final(self)@ == set_field(old(self)@, key@, value@),
    {
        if seq_eq(key, &chars_of("Name")) {
            self.name = Some(string_of(value));
        } else if seq_eq(key, &chars_of("GenericName")) {
            self.generic_name = Some(string_of(value));
        } else if seq_eq(key, &chars_of("Exec")) {
            self.command = Some(string_of(value));
        } else if seq_eq(key, &chars_of("Categories")) {
            self.categories = Some(string_of(value));
        } else if seq_eq(key, &chars_of("NoDisplay")) {
            self.no_display = seq_eq(value, &chars_of("true"));
        } else if seq_eq(key, &chars_of("Hidden")) {
            self.hidden = self.hidden || seq_eq(value, &chars_of("true"));
        } else if seq_eq(key, &chars_of("Terminal")) {
            self.terminal = seq_eq(value, &chars_of("true"));
        } else if seq_eq(key, &chars_of("OnlyShowIn")) {
            self.only_show_in = Some(parse_list(value));
        } else if seq_eq(key, &chars_of("NotShowIn")) {
            self.not_show_in = Some(parse_list(value));
        }
    }

    /// Reads one more line.
    fn read_line(&mut self, in_entry: bool, raw_line: &Vec<char>) -> (now_in_entry: bool)
        ensures
            (now_in_entry, final(self)@) == parse_line((in_entry, old(self)@), raw_line@),
    {
        let line = trim(raw_line);
        if line.len() > 0 && line[0] == '[' {
            return seq_eq(&line, &chars_of("[Desktop Entry]"));
        }
        if !in_entry {
            return in_entry;
        }
        match find_char(&line, '=') {
            None => in_entry,
            Some(i) => {
                proof {
                    crate::text::lemma_first_index(line@, '=');
                }
                let key_raw = slice(&line, 0, i);
                assert(key_raw@ == line@.take(i as int));
                if has_char(&key_raw, '[') {
                    return in_entry;
                }
                let key = trim(&key_raw);
                let value_raw = slice(&line, i + 1, line.len());
                assert(value_raw@ == line@.skip(i + 1));
                let value = trim(&value_raw);
                self.set(&key, &value);
                true
            },
        }
    }
}

/// Reads the primary section of a desktop entry file.
pub fn parse_desktop_entry(content: &str) -> (e: RawEntry)
    ensures
        e@ == parse_entry(content@),
{
    let chars = chars_of(content);
    let lines = split(&chars, '\n');
    let mut e = RawEntry::new();
    let mut in_entry = false;
    let mut i: usize = 0;
    while i < lines.len()
        invariant
            i <= lines.len(),
            (in_entry, e@) == parse_lines(views(lines@).take(i as int)),
        decreases lines.len() - i,
    {
        proof {
            let upto = views(lines@).take(i + 1);
            assert(upto.drop_last() == views(lines@).take(i as int));
            assert(upto.last() == lines@[i as int]@);
        }
        in_entry = e.read_line(in_entry, &lines[i]);
        i = i + 1;
    }
    assert(views(lines@).take(lines@.len() as int) == views(lines@));
    e
}

/// One file of a scanned directory: its name, and its content where it could
/// be read.
#[derive(Debug, Clone)]
pub struct DesktopFile {
    pub file_name: String,
    pub content: Option<String>,
}

/// A file as contracts see it.
pub ghost struct DesktopFileView {
    pub file_name: Seq<char>,
    pub content: Option<Seq<char>>,
}

impl View for DesktopFile {
    type V = DesktopFileView;

    open spec fn view(&self) -> DesktopFileView {
        DesktopFileView { file_name: self.file_name@, content: opt_text(self.content) }
    }
}

/// The desktop environments named by a hint such as `GNOME:Unity`: its pieces
/// between colons, each trimmed and lower-cased.
pub open spec fn desktop_names(hint: Seq<char>) -> Seq<Seq<char>> {
    split_on(hint, ':').map_values(|s: Seq<char>| lower(trimmed(s)))
}

/// The desktop environments named by a hint.
pub fn current_desktops(hint: &str) -> (r: Vec<String>)
    ensures
        texts(r@) == desktop_names(hint@),
{
    let chars = chars_of(hint);
    let pieces = split(&chars, ':');
    let mut r: Vec<String> = Vec::new();
    let mut i: usize = 0;
    while i < pieces.len()
        invariant
            i <= pieces.len(),
            views(pieces@) == split_on(hint@, ':'),
            r@.len() == i,
            forall|j: int| 0 <= j < i ==> (#[trigger] r@[j])@ == lower(trimmed(pieces@[j]@)),
        decreases pieces.len() - i,
    {
        let t = trim(&pieces[i]);
        let s = string_of(&t);
        let l = crate::text::to_lowercase(s.as_str());
        r.push(l);
        i = i + 1;
    }
    assert(texts(r@) =~= desktop_names(hint@));
    r
}

/// The hint that names the running desktop environments: the first hint
/// where the environment sets it, even to nothing; else the second; else the
/// empty text.
pub fn desktop_hint(primary: Option<String>, secondary: Option<String>) -> (r: String)
    ensures
        r@ == match primary {
            Some(p) => p@,
            None => match secondary {
                Some(s) => s@,
                None => Seq::empty(),
            },
        },
{
    match primary {
        Some(p) => p,
        None => match secondary {
            Some(s) => s,
            None => String::new(),
        },
    }
}

/// Whether one of the items of `list`, lower-cased, is among `current`.
pub open spec fn names_one_of(list: Seq<Seq<char>>, current: Seq<Seq<char>>) -> bool {
    exists|i: int| 0 <= i < list.len() && current.contains(lower(#[trigger] list[i]))
}

/// The name under which an entry is shown: its `Name`, or else its `GenericName`.
pub open spec fn display_name(e: RawEntryView) -> Option<Seq<char>> {
    if e.name is Some {
        e.name
    } else {
        e.generic_name
    }
}

/// Whether a raw entry is shown under the desktop environments `current`: it
/// is not hidden, its allow-list, if it has one, names one of them, its
/// deny-list, if it has one, names none of them, and it has both a name and an
/// invocation string.
pub open spec fn is_shown(e: RawEntryView, current: Seq<Seq<char>>) -> bool {
    &&& !e.no_display
    &&& !e.hidden
    &&& e.only_show_in matches Some(l) ==> names_one_of(l, current)
    &&& e.not_show_in matches Some(l) ==> !names_one_of(l, current)
    &&& display_name(e) is Some
    &&& e.command is Some
}

/// Whether `name` is among `list`.
pub fn is_listed(list: &Vec<String>, name: &Vec<char>) -> (r: bool)
    ensures
        r == texts(list@).contains(name@),
{
    let mut i: usize = 0;
    while i < list.len()
        invariant
            i <= list.len(),
            forall|j: int| 0 <= j < i ==> texts(list@)[j] != name@,
        decreases list.len() - i,
    {
        let item = chars_of(list[i].as_str());
        if seq_eq(&item, name) {
            assert(texts(list@)[i as int] == name@);
            return true;
        }
        i = i + 1;
    }
    false
}

/// Whether one of the items of `list`, lower-cased, is among `current`.
pub fn any_listed(list: &Vec<String>, current: &Vec<String>) -> (r: bool)
    ensures
        r == names_one_of(texts(list@), texts(current@)),
{
    let mut i: usize = 0;
    while i < list.len()
        invariant
            i <= list.len(),
            forall|j: int|
                0 <= j < i ==> !texts(current@).contains(lower(#[trigger] texts(list@)[j])),
        decreases list.len() - i,
    {
        let l = lower_chars(list[i].as_str());
        assert(texts(list@)[i as int] == list@[i as int]@);
        if is_listed(current, &l) {
            return true;
        }
        i = i + 1;
    }
    false
}

impl RawEntry {
    /// Whether the entry is shown under the desktop environments `current`.
    pub fn shown(&self, current: &Vec<String>) -> (r: bool)
        ensures
            r == is_shown(self@, texts(current@)),
    {
        if self.no_display || self.hidden {
            return false;
        }
        let allowed = match &self.only_show_in {
            Some(l) => any_listed(l, current),
            None => true,
        };
        let denied = match &self.not_show_in {
            Some(l) => any_listed(l, current),
            None => false,
        };
        let named = self.name.is_some() || self.generic_name.is_some();
        allowed && !denied && named && self.command.is_some()
    }
}

} // verus!
