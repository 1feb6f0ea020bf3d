//! One launchable entry, and the normalising of its invocation string and category.

use crate::text::{
    chars_of, contains, contains_text, lemma_contains_in_subrange, lemma_remove_all_len,
    lemma_remove_all_same_len, lemma_trimmed_is_subrange, lower, lower_chars, remove_all,
    remove_occurrences, seq_eq, string_of, text_eq, trim, trimmed,
};
use vstd::prelude::*;

verus! {

/// One launchable item of the catalog.
#[derive(Debug, Clone)]
pub struct AppEntry {
    /// Display name, unique within a catalog.
    pub name: String,
    /// Category label.
    pub category: String,
    /// Cleaned invocation string.
    pub command: String,
    /// Whether the source asked for a terminal.
    pub terminal: bool,
}

/// An entry as contracts see it: its texts as sequences of characters.
pub ghost struct AppEntryView {
    pub name: Seq<char>,
    pub category: Seq<char>,
    pub command: Seq<char>,
    pub terminal: bool,
}

impl View for AppEntry {
    type V = AppEntryView;

    open spec fn view(&self) -> AppEntryView {
        AppEntryView {
            name: self.name@,
            category: self.category@,
            command: self.command@,
            terminal: self.terminal,
        }
    }
}

/// Whether an entry of this category and invocation string is taken to need a
/// terminal though its source did not say so: the `CLI` category, or the name
/// of a shell, an interpreter or a build tool in the invocation string.
pub open spec fn heuristic_terminal(category: Seq<char>, command: Seq<char>) -> bool {
    ||| category == "CLI"@
    ||| contains_text(command, "bash"@)
    ||| contains_text(command, "sh "@)
    ||| contains_text(command, "python"@)
    ||| contains_text(command, "cargo"@)
    ||| contains_text(command, "make"@)
    ||| contains_text(command, "npm"@)
}

impl AppEntry {
    /// Whether the category or the invocation string suggests a terminal.
    pub fn needs_terminal(&self) -> (r: bool)
        ensures
            r == heuristic_terminal(self.category@, self.command@),
    {
        let command = chars_of(self.command.as_str());
        text_eq(self.category.as_str(), "CLI") || contains(&command, &chars_of("bash")) || contains(
            &command,
            &chars_of("sh "),
        ) || contains(&command, &chars_of("python")) || contains(&command, &chars_of("cargo"))
            || contains(&command, &chars_of("make")) || contains(&command, &chars_of("npm"))
    }

    /// Whether the entry is to be run inside a terminal: its source said so, or
    /// `needs_terminal` suggests it.
    pub fn requires_terminal(&self) -> (r: bool)
        ensures
            r == (self.terminal || heuristic_terminal(self.category@, self.command@)),
    {
        self.terminal || self.needs_terminal()
    }

    /// A copy of the entry.
    pub fn duplicate(&self) -> (r: AppEntry)
        ensures
            r@ == self@,
    {
        AppEntry {
            name: self.name.clone(),
            category: self.category.clone(),
            command: self.command.clone(),
            terminal: self.terminal,
        }
    }
}

/// Number of placeholder field codes.
pub const FIELD_CODE_COUNT: usize = 13;

/// The letters of the placeholder field codes, in the order in which the codes
/// are taken out. Each code is a percent sign followed by one of them.
pub open spec fn field_code_letters() -> Seq<char> {
    seq!['f', 'F', 'u', 'U', 'd', 'D', 'n', 'N', 'i', 'c', 'k', 'v', 'm']
}

/// The `k`-th placeholder field code.
pub open spec fn field_code(k: int) -> Seq<char> {
    seq!['%', field_code_letters()[k]]
}

/// Whether some placeholder field code stands in `s`.
pub open spec fn has_field_code(s: Seq<char>) -> bool {
    exists|k: int| 0 <= k < FIELD_CODE_COUNT && contains_text(s, #[trigger] field_code(k))
}

/// `s` after the first `k` codes were taken out of it, one code after the other.
pub open spec fn strip_codes_upto(s: Seq<char>, k: int) -> Seq<char>
    decreases k,
{
    if k <= 0 {
        s
    } else {
        remove_all(strip_codes_upto(s, k - 1), field_code(k - 1))
    }
}

/// `s` after one pass that takes every code out in turn.
pub open spec fn strip_pass(s: Seq<char>) -> Seq<char> {
    strip_codes_upto(s, FIELD_CODE_COUNT as int)
}

/// `s` without placeholder field codes: passes are repeated until one finds
/// nothing to take out, because taking a code out can bring the two halves of
/// another together.
pub open spec fn strip_codes(s: Seq<char>) -> Seq<char>
    decreases s.len(),
{
    let t = strip_pass(s);
    if t.len() < s.len() {
        strip_codes(t)
    } else {
        s
    }
}

/// The cleaned invocation string: field codes taken out, then trimmed.
pub open spec fn cleaned_exec(s: Seq<char>) -> Seq<char> {
    trimmed(strip_codes(s))
}

/// Taking codes out never makes a text longer.
proof fn lemma_strip_upto_len(s: Seq<char>, k: int)
    ensures
        strip_codes_upto(s, k).len() <= s.len(),
    decreases k,
{
    if k > 0 {
        lemma_strip_upto_len(s, k - 1);
        lemma_remove_all_len(strip_codes_upto(s, k - 1), field_code(k - 1));
    }
}

/// A text that keeps its length through the first `k` codes holds none of them
/// and is unchanged.
proof fn lemma_strip_upto_fixed(s: Seq<char>, k: int)
    requires
        0 <= k <= FIELD_CODE_COUNT,
        strip_codes_upto(s, k).len() == s.len(),
    ensures
        strip_codes_upto(s, k) == s,
        forall|j: int| 0 <= j < k ==> !contains_text(s, #[trigger] field_code(j)),
    decreases k,
{
    if k > 0 {
        let before = strip_codes_upto(s, k - 1);
        lemma_strip_upto_len(s, k - 1);
        lemma_remove_all_len(before, field_code(k - 1));
        lemma_strip_upto_fixed(s, k - 1);
        lemma_remove_all_same_len(s, field_code(k - 1));
    }
}

/// A pass takes nothing out of a text exactly when no code stands in it.
pub proof fn lemma_strip_pass_fixed(s: Seq<char>)
    requires
        strip_pass(s).len() >= s.len(),
    ensures
        strip_pass(s) == s,
        !has_field_code(s),
{
    lemma_strip_upto_len(s, FIELD_CODE_COUNT as int);
    lemma_strip_upto_fixed(s, FIELD_CODE_COUNT as int);
}

/// No placeholder field code is left once the codes were stripped.
pub proof fn lemma_strip_codes_clean(s: Seq<char>)
    ensures
        !has_field_code(strip_codes(s)),
        strip_codes(s).len() <= s.len(),
    decreases s.len(),
{
    let t = strip_pass(s);
    if t.len() < s.len() {
        lemma_strip_codes_clean(t);
    } else {
        lemma_strip_pass_fixed(s);
    }
}

/// The cleaned invocation string holds none of the placeholder field codes.
pub proof fn lemma_cleaned_exec_has_no_code(s: Seq<char>)
    ensures
        !has_field_code(cleaned_exec(s)),
{
    let stripped = strip_codes(s);
    lemma_strip_codes_clean(s);
    let (a, b) = lemma_trimmed_is_subrange(stripped);
    assert forall|k: int| 0 <= k < FIELD_CODE_COUNT implies !contains_text(
        cleaned_exec(s),
        #[trigger] field_code(k),
    ) by {
        if contains_text(stripped.subrange(a, b), field_code(k)) {
            lemma_contains_in_subrange(stripped, field_code(k), a, b);
        }
    }
}

/// The letter of the `k`-th placeholder field code.
fn field_code_letter(k: usize) -> (c: char)
    requires
        k < FIELD_CODE_COUNT,
    ensures
        c == field_code_letters()[k as int],
{
    if k == 0 {
        'f'
    } else if k == 1 {
        'F'
    } else if k == 2 {
        'u'
    } else if k == 3 {
        'U'
    } else if k == 4 {
        'd'
    } else if k == 5 {
        'D'
    } else if k == 6 {
        'n'
    } else if k == 7 {
        'N'
    } else if k == 8 {
        'i'
    } else if k == 9 {
        'c'
    } else if k == 10 {
        'k'
    } else if k == 11 {
        'v'
    } else {
        'm'
    }
}

/// One pass over `s` that takes every code out in turn.
fn strip_pass_chars(s: Vec<char>) -> (r: Vec<char>)
    ensures
        r@ == strip_pass(s@),
{
    let ghost start = s@;
    let mut cur = s;
    let mut k: usize = 0;
    while k < FIELD_CODE_COUNT
        invariant
            k <= FIELD_CODE_COUNT,
            cur@ == strip_codes_upto(start, k as int),
        decreases FIELD_CODE_COUNT - k,
    {
        let mut code: Vec<char> = Vec::new();
        code.push('%');
        code.push(field_code_letter(k));
        assert(code@ =~= field_code(k as int));
        cur = remove_occurrences(&cur, &code);
        k = k + 1;
    }
    cur
}

/// Cleans an invocation string: takes the placeholder field codes out, then
/// trims white space. The result holds none of the codes.
pub fn clean_exec(command: &str) -> (r: String)
    ensures
        r@ == cleaned_exec(command@),
        !has_field_code(r@),
{
    let mut cur = chars_of(command);
    let mut done = false;
    while !done
        invariant
            strip_codes(cur@) == strip_codes(command@),
            done ==> strip_codes(cur@) == cur@,
        decreases cur@.len() + (if done { 0int } else { 1int }),
    {
        let ghost before = cur@;
        let len = cur.len();
        let next = strip_pass_chars(cur);
        if next.len() < len {
            cur = next;
        } else {
            proof {
                lemma_strip_pass_fixed(before);
            }
            cur = next;
            done = true;
        }
    }
    proof {
        lemma_cleaned_exec_has_no_code(command@);
    }
    let t = trim(&cur);
    string_of(&t)
}

/// The ten category labels, in the order in which a catalog lists them.
pub open spec fn category_label(k: int) -> Seq<char> {
    if k == 0 {
        "Utilities"@
    } else if k == 1 {
        "Development"@
    } else if k == 2 {
        "Network"@
    } else if k == 3 {
        "Audio/Video"@
    } else if k == 4 {
        "Graphics"@
    } else if k == 5 {
        "System"@
    } else if k == 6 {
        "Office"@
    } else if k == 7 {
        "Games"@
    } else if k == 8 {
        "Education"@
    } else {
        "Settings"@
    }
}

/// Number of category labels.
pub const CATEGORY_COUNT: usize = 10;

/// The `k`-th category label.
pub fn category_name(k: usize) -> (r: &'static str)
    requires
        k < CATEGORY_COUNT,
    ensures
        r@ == category_label(k as int),
{
    if k == 0 {
        "Utilities"
    } else if k == 1 {
        "Development"
    } else if k == 2 {
        "Network"
    } else if k == 3 {
        "Audio/Video"
    } else if k == 4 {
        "Graphics"
    } else if k == 5 {
        "System"
    } else if k == 6 {
        "Office"
    } else if k == 7 {
        "Games"
    } else if k == 8 {
        "Education"
    } else {
        "Settings"
    }
}

/// The place, among the ten labels, of the category that a raw category text
/// and a display name fall under. Both are lower-cased first. Two names are
/// pinned to Utilities. Otherwise the first of these words that stands in the
/// raw text decides: game, utility, development, network, audio or video,
/// graphics, system, office, education, settings. A text with none of them
/// falls under Utilities.
pub open spec fn category_index(raw: Seq<char>, name: Seq<char>) -> int {
    let r = lower(raw);
    let n = lower(name);
    if n == "claw"@ || n == "rofi"@ {
        0
    } else if contains_text(r, "game"@) {
        7
    } else if contains_text(r, "utility"@) {
        0
    } else if contains_text(r, "development"@) {
        1
    } else if contains_text(r, "network"@) {
        2
    } else if contains_text(r, "audio"@) || contains_text(r, "video"@) {
        3
    } else if contains_text(r, "graphics"@) {
        4
    } else if contains_text(r, "system"@) {
        5
    } else if contains_text(r, "office"@) {
        6
    } else if contains_text(r, "education"@) {
        8
    } else if contains_text(r, "settings"@) {
        9
    } else {
        0
    }
}

/// The category label that a raw category text and a display name fall under.
pub open spec fn grouped_category(raw: Seq<char>, name: Seq<char>) -> Seq<char> {
    category_label(category_index(raw, name))
}

/// The place of the category of an entry among the ten labels.
pub fn group_index(raw: &str, app_name: &str) -> (k: usize)
    ensures
        k == category_index(raw@, app_name@),
        k < CATEGORY_COUNT,
{
    let r = lower_chars(raw);
    let n = lower_chars(app_name);
    if seq_eq(&n, &chars_of("claw")) || seq_eq(&n, &chars_of("rofi")) {
        0
    } else if contains(&r, &chars_of("game")) {
        7
    } else if contains(&r, &chars_of("utility")) {
        0
    } else if contains(&r, &chars_of("development")) {
        1
    } else if contains(&r, &chars_of("network")) {
        2
    } else if contains(&r, &chars_of("audio")) || contains(&r, &chars_of("video")) {
        3
    } else if contains(&r, &chars_of("graphics")) {
        4
    } else if contains(&r, &chars_of("system")) {
        5
    } else if contains(&r, &chars_of("office")) {
        6
    } else if contains(&r, &chars_of("education")) {
        8
    } else if contains(&r, &chars_of("settings")) {
        9
    } else {
        0
    }
}

/// Maps a raw category text and a display name to one of the ten labels.
pub fn group_category(raw: &str, app_name: &str) -> (r: String)
    ensures
        r@ == grouped_category(raw@, app_name@),
{
    category_name(group_index(raw, app_name)).to_owned()
}

} // verus!
