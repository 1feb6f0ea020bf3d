//! Catalog assembly: from the desktop entry files, or the names of the
//! executables of a directory, to the list of entries and the list of
//! category labels.

use crate::desktop::{
    current_desktops, display_name, is_shown, parse_desktop_entry, parse_entry, texts,
    DesktopFile, DesktopFileView, RawEntryView,
};
use crate::entry::{
    category_label, category_name, clean_exec, cleaned_exec, group_category, grouped_category,
    has_field_code, lemma_cleaned_exec_has_no_code, AppEntry, AppEntryView, CATEGORY_COUNT,
};
use crate::app::{Mode, SinglePaneMode};
use crate::text::{chars_of, ends_with, seq_eq};
use vstd::prelude::*;

verus! {

/// The views of a list of entries.
pub open spec fn entries(v: Seq<AppEntry>) -> Seq<AppEntryView> {
    v.map_values(|a: AppEntry| a@)
}

/// The views of a list of files.
pub open spec fn file_views(v: Seq<DesktopFile>) -> Seq<DesktopFileView> {
    v.map_values(|f: DesktopFile| f@)
}

/// Whether a file name has the suffix of desktop entry files, after a stem
/// that is not empty.
pub open spec fn is_desktop_file(name: Seq<char>) -> bool {
    let suffix = ".desktop"@;
    name.len() > suffix.len() && name.skip(name.len() - suffix.len()) == suffix
}

/// Whether a file name has the suffix of desktop entry files.
pub fn is_desktop_file_name(name: &Vec<char>) -> (r: bool)
    ensures
        r == is_desktop_file(name@),
{
    let suffix = chars_of(".desktop");
    name.len() > suffix.len() && ends_with(name, &suffix)
}

/// Whether an entry of this name is in the list.
pub open spec fn has_name(apps: Seq<AppEntryView>, name: Seq<char>) -> bool {
    exists|i: int| 0 <= i < apps.len() && (#[trigger] apps[i]).name == name
}

/// Whether an entry of this category is in the list.
pub open spec fn has_category(apps: Seq<AppEntryView>, label: Seq<char>) -> bool {
    exists|i: int| 0 <= i < apps.len() && (#[trigger] apps[i]).category == label
}

/// The entry made of a raw entry that is shown: its display name, the
/// category that its raw categories and its name fall under, its cleaned
/// invocation string, and its terminal flag.
pub open spec fn entry_of(e: RawEntryView) -> AppEntryView {
    let name = display_name(e)->0;
    let raw = match e.categories {
        Some(c) => c,
        None => Seq::empty(),
    };
    AppEntryView {
        name,
        category: grouped_category(raw, name),
        command: cleaned_exec(e.command->0),
        terminal: e.terminal,
    }
}

/// The scan after one more file. The state of the scan is the file names met
/// so far and the entries accepted so far.
///
/// A file without the suffix is passed over. So is a file whose name was met
/// before: the first file of a name shadows the later ones, whether or not it
/// could be read or gave an entry. Of the others, those that could be read,
/// are shown under the desktop environments `current` and bear a name that no
/// accepted entry has yet, each add one entry.
pub open spec fn scan_file(
    st: (Seq<Seq<char>>, Seq<AppEntryView>),
    f: DesktopFileView,
    current: Seq<Seq<char>>,
) -> (Seq<Seq<char>>, Seq<AppEntryView>) {
    if !is_desktop_file(f.file_name) || st.0.contains(f.file_name) {
        st
    } else {
        let seen = st.0.push(f.file_name);
        match f.content {
            None => (seen, st.1),
            Some(c) => {
                let e = parse_entry(c);
                if is_shown(e, current) && !has_name(st.1, display_name(e)->0) {
                    (seen, st.1.push(entry_of(e)))
                } else {
                    (seen, st.1)
                }
            },
        }
    }
}

/// The scan after all of `files`, taken in order.
pub open spec fn scan_files(files: Seq<DesktopFileView>, current: Seq<Seq<char>>) -> (
    Seq<Seq<char>>,
    Seq<AppEntryView>,
)
    decreases files.len(),
{
    if files.len() == 0 {
        (Seq::empty(), Seq::empty())
    } else {
        scan_file(scan_files(files.drop_last(), current), files.last(), current)
    }
}

/// The entries that `files` give under the desktop environments `current`, in
/// the order of the files.
pub open spec fn desktop_entries(files: Seq<DesktopFileView>, current: Seq<Seq<char>>) -> Seq<
    AppEntryView,
> {
    scan_files(files, current).1
}

/// The `Recent` slot followed by those of the first `k` labels that have an entry.
pub open spec fn labels_upto(apps: Seq<AppEntryView>, k: int) -> Seq<Seq<char>>
    decreases k,
{
    if k <= 0 {
        seq!["Recent"@]
    } else if has_category(apps, category_label(k - 1)) {
        labels_upto(apps, k - 1).push(category_label(k - 1))
    } else {
        labels_upto(apps, k - 1)
    }
}

/// The category list of a catalog of desktop entries: the `Recent` slot, then
/// every label that has an entry, in the fixed order of the labels.
pub open spec fn category_list(apps: Seq<AppEntryView>) -> Seq<Seq<char>> {
    labels_upto(apps, CATEGORY_COUNT as int)
}

/// No two entries bear the same name.
pub open spec fn names_unique(apps: Seq<AppEntryView>) -> bool {
    forall|i: int, j: int|
        0 <= i < j < apps.len() ==> (#[trigger] apps[i]).name != (#[trigger] apps[j]).name
}

/// Every entry falls under one of the ten labels, and its invocation string
/// holds no placeholder field code.
pub open spec fn entries_normal(apps: Seq<AppEntryView>) -> bool {
    forall|i: int|
        0 <= i < apps.len() ==> !has_field_code((#[trigger] apps[i]).command) && exists|k: int|
            0 <= k < CATEGORY_COUNT && apps[i].category == category_label(k)
}

/// What holds of every catalog of desktop entries: the entries bear pairwise
/// different names, fall under the ten labels and hold no placeholder field
/// code; the category list begins with the `Recent` slot, every label after
/// it has an entry, and the label of every entry is in the list.
pub open spec fn desktop_catalog_sound(
    categories: Seq<Seq<char>>,
    apps: Seq<AppEntryView>,
) -> bool {
    &&& names_unique(apps)
    &&& entries_normal(apps)
    &&& categories.len() >= 1 && categories[0] == "Recent"@
    &&& forall|c: int| 1 <= c < categories.len() ==> has_category(apps, #[trigger] categories[c])
    &&& forall|i: int| 0 <= i < apps.len() ==> categories.contains((#[trigger] apps[i]).category)
}

/// The entries that a scan accepts bear pairwise different names, fall under
/// the ten labels, and hold no placeholder field code.
pub proof fn lemma_scan_files(files: Seq<DesktopFileView>, current: Seq<Seq<char>>)
    ensures
        names_unique(desktop_entries(files, current)),
        entries_normal(desktop_entries(files, current)),
    decreases files.len(),
{
    if files.len() > 0 {
        lemma_scan_files(files.drop_last(), current);
        let st = scan_files(files.drop_last(), current);
        let f = files.last();
        let out = scan_file(st, f, current).1;
        if out != st.1 {
            let e = parse_entry(f.content->0);
            let a = entry_of(e);
            assert(out == st.1.push(a));
            lemma_cleaned_exec_has_no_code(e.command->0);
            let raw = match e.categories {
                Some(c) => c,
                None => Seq::empty(),
            };
            let k = crate::entry::category_index(raw, a.name);
            assert(0 <= k < CATEGORY_COUNT && a.category == category_label(k));
            assert forall|i: int, j: int| 0 <= i < j < out.len() implies (#[trigger] out[i]).name
                != (#[trigger] out[j]).name by {
                if j == st.1.len() {
                    assert(out[i] == st.1[i]);
                } else {
                    assert(out[i] == st.1[i] && out[j] == st.1[j]);
                }
            }
            assert forall|i: int| 0 <= i < out.len() implies !has_field_code(
                (#[trigger] out[i]).command,
            ) && exists|k: int|
                0 <= k < CATEGORY_COUNT && out[i].category == category_label(k) by {
                if i < st.1.len() {
                    assert(out[i] == st.1[i]);
                }
            }
        }
    }
}

/// Every label of the category list but the `Recent` slot, which comes first,
/// has an entry; and the label of every entry that falls under the ten labels
/// is in the list.
pub proof fn lemma_category_list(apps: Seq<AppEntryView>, k: int)
    requires
        0 <= k <= CATEGORY_COUNT,
    ensures
        labels_upto(apps, k).len() >= 1,
        labels_upto(apps, k)[0] == "Recent"@,
        forall|c: int|
            1 <= c < labels_upto(apps, k).len() ==> has_category(
                apps,
                #[trigger] labels_upto(apps, k)[c],
            ),
        forall|j: int|
            0 <= j < k && has_category(apps, #[trigger] category_label(j)) ==> labels_upto(
                apps,
                k,
            ).contains(category_label(j)),
    decreases k,
{
    if k > 0 {
        lemma_category_list(apps, k - 1);
        let before = labels_upto(apps, k - 1);
        let now = labels_upto(apps, k);
        assert forall|j: int|
            0 <= j < k && has_category(apps, #[trigger] category_label(j)) implies now.contains(
            category_label(j),
        ) by {
            if j < k - 1 {
                let at = choose|at: int| 0 <= at < before.len() && before[at] == category_label(j);
                assert(now[at] == category_label(j));
            } else {
                assert(now[now.len() - 1] == category_label(j));
            }
        }
    }
}

/// Whether an entry of this name is in the list.
fn name_taken(names: &Vec<Vec<char>>, name: &Vec<char>) -> (r: bool)
    ensures
        r == crate::text::views(names@).contains(name@),
{
    let mut i: usize = 0;
    while i < names.len()
        invariant
            i <= names.len(),
            forall|j: int| 0 <= j < i ==> crate::text::views(names@)[j] != name@,
        decreases names.len() - i,
    {
        if seq_eq(&names[i], name) {
            assert(crate::text::views(names@)[i as int] == name@);
            return true;
        }
        i = i + 1;
    }
    false
}

/// Whether an entry of this category is in the list.
pub fn any_in_category(apps: &Vec<AppEntry>, label: &str) -> (r: bool)
    ensures
        r == has_category(entries(apps@), label@),
{
    let l = chars_of(label);
    let mut i: usize = 0;
    while i < apps.len()
        invariant
            i <= apps.len(),
            l@ == label@,
            forall|j: int| 0 <= j < i ==> (#[trigger] entries(apps@)[j]).category != label@,
        decreases apps.len() - i,
    {
        let c = chars_of(apps[i].category.as_str());
        if seq_eq(&c, &l) {
            assert(entries(apps@)[i as int].category == label@);
            return true;
        }
        i = i + 1;
    }
    false
}

/// The category list of a catalog of desktop entries.
pub fn build_category_list(apps: &Vec<AppEntry>) -> (r: Vec<String>)
    ensures
        texts(r@) == category_list(entries(apps@)),
{
    let mut r: Vec<String> = Vec::new();
    let recent = "Recent".to_owned();
    assert(texts(r@.push(recent)) =~= seq!["Recent"@]);
    r.push(recent);
    let mut k: usize = 0;
    while k < CATEGORY_COUNT
        invariant
            k <= CATEGORY_COUNT,
            texts(r@) == labels_upto(entries(apps@), k as int),
        decreases CATEGORY_COUNT - k,
    {
        let label = category_name(k);
        if any_in_category(apps, label) {
            let owned = label.to_owned();
            assert(texts(r@.push(owned)) =~= texts(r@).push(owned@));
            r.push(owned);
        }
        k = k + 1;
    }
    r
}

/// Builds the catalog of desktop entries from the files of the scanned
/// directories, given in scan order, and the hint that names the running
/// desktop environments.
///
/// Returns the category list and the entries; see `desktop_catalog_sound`
/// for what holds of them.
pub fn load_desktop_apps(files: &Vec<DesktopFile>, desktop_hint: &str) -> (r: (
    Vec<String>,
    Vec<AppEntry>,
))
    ensures
        entries(r.1@) == desktop_entries(file_views(files@), crate::desktop::desktop_names(
            desktop_hint@,
        )),
        texts(r.0@) == category_list(entries(r.1@)),
        desktop_catalog_sound(texts(r.0@), entries(r.1@)),
{
    let current = current_desktops(desktop_hint);
    let ghost cur = texts(current@);
    let mut apps: Vec<AppEntry> = Vec::new();
    let mut names: Vec<Vec<char>> = Vec::new();
    let mut seen: Vec<Vec<char>> = Vec::new();
    let mut i: usize = 0;
    assert(file_views(files@).take(0) =~= Seq::<DesktopFileView>::empty());
    assert(entries(apps@) =~= Seq::<AppEntryView>::empty());
    assert(crate::text::views(seen@) =~= Seq::<Seq<char>>::empty());
    while i < files.len()
        invariant
            i <= files.len(),
            cur == crate::desktop::desktop_names(desktop_hint@),
            cur == texts(current@),
            (crate::text::views(seen@), entries(apps@)) == scan_files(
                file_views(files@).take(i as int),
                cur,
            ),
            names@.len() == apps@.len(),
            forall|j: int| 0 <= j < names@.len() ==> (#[trigger] names@[j])@ == apps@[j]@.name,
        decreases files.len() - i,
    {
        let f = &files[i];
        proof {
            let upto = file_views(files@).take(i + 1);
            assert(upto.drop_last() == file_views(files@).take(i as int));
            assert(upto.last() == f@);
        }
        let ghost st = (crate::text::views(seen@), entries(apps@));
        let file_name = chars_of(f.file_name.as_str());
        if is_desktop_file_name(&file_name) && !name_taken(&seen, &file_name) {
            assert(crate::text::views(seen@.push(file_name)) =~= crate::text::views(seen@).push(
                file_name@,
            ));
            seen.push(file_name);
            match &f.content {
                None => {},
                Some(c) => {
                    let e = parse_desktop_entry(c.as_str());
                    if e.shown(&current) {
                        let name = match e.name {
                            Some(n) => n,
                            None => match e.generic_name {
                                Some(g) => g,
                                None => String::new(),
                            },
                        };
                        let name_chars = chars_of(name.as_str());
                        proof {
                            assert(has_name(st.1, name@) <==> crate::text::views(names@).contains(
                                name@,
                            )) by {
                                if has_name(st.1, name@) {
                                    let w = choose|w: int|
                                        0 <= w < st.1.len() && (#[trigger] st.1[w]).name == name@;
                                    assert(crate::text::views(names@)[w] == name@);
                                }
                                if crate::text::views(names@).contains(name@) {
                                    let w = choose|w: int|
                                        0 <= w < names@.len() && crate::text::views(names@)[w]
                                            == name@;
                                    assert(st.1[w].name == name@);
                                }
                            }
                        }
                        if !name_taken(&names, &name_chars) {
                            let raw = match e.categories {
                                Some(c) => c,
                                None => String::new(),
                            };
                            let category = group_category(raw.as_str(), name.as_str());
                            let command = match e.command {
                                Some(c) => clean_exec(c.as_str()),
                                None => String::new(),
                            };
                            let entry = AppEntry { name, category, command, terminal: e.terminal };
                            assert(entry@ == entry_of(e@));
                            assert(entries(apps@.push(entry)) =~= entries(apps@).push(entry@));
                            apps.push(entry);
                            names.push(name_chars);
                        }
                    }
                },
            }
        }
        i = i + 1;
    }
    assert(file_views(files@).take(files@.len() as int) == file_views(files@));
    let categories = build_category_list(&apps);
    proof {
        lemma_scan_files(file_views(files@), cur);
        lemma_category_list(entries(apps@), CATEGORY_COUNT as int);
        let list = texts(categories@);
        assert forall|i: int| 0 <= i < apps@.len() implies list.contains(
            (#[trigger] entries(apps@)[i]).category,
        ) by {
            let a = entries(apps@)[i];
            let k = choose|k: int| 0 <= k < CATEGORY_COUNT && a.category == category_label(k);
            assert(has_category(entries(apps@), category_label(k)));
        }
    }
    (categories, apps)
}

/// The entry made of the name of an executable: name and invocation string are
/// the file name, the category is `CLI`, and a terminal is asked for.
pub open spec fn path_entry(name: Seq<char>) -> AppEntryView {
    AppEntryView { name, category: "CLI"@, command: name, terminal: true }
}

/// The entries made of the names of the executables of a directory.
pub open spec fn path_entries(names: Seq<Seq<char>>) -> Seq<AppEntryView> {
    names.map_values(|n: Seq<char>| path_entry(n))
}

/// Builds the catalog of the executables of a directory from the names of its
/// regular files: one entry for each name, under the single category `CLI`,
/// which has an entry unless the directory gave no name.
pub fn load_from_path(names: &Vec<String>) -> (r: (Vec<String>, Vec<AppEntry>))
    ensures
        entries(r.1@) == path_entries(texts(names@)),
        texts(r.0@) == seq!["CLI"@],
        names@.len() > 0 ==> has_category(entries(r.1@), "CLI"@),
{
    let mut apps: Vec<AppEntry> = Vec::new();
    let mut i: usize = 0;
    while i < names.len()
        invariant
            i <= names.len(),
            apps@.len() == i,
            forall|j: int| 0 <= j < i ==> (#[trigger] apps@[j])@ == path_entry(names@[j]@),
        decreases names.len() - i,
    {
        apps.push(
            AppEntry {
                name: names[i].clone(),
                category: "CLI".to_owned(),
                command: names[i].clone(),
                terminal: true,
            },
        );
        i = i + 1;
    }
    let mut categories: Vec<String> = Vec::new();
    categories.push("CLI".to_owned());
    assert(texts(categories@) =~= seq!["CLI"@]);
    assert(entries(apps@) =~= path_entries(texts(names@)));
    proof {
        if names@.len() > 0 {
            assert(entries(apps@)[0].category == "CLI"@);
        }
    }
    (categories, apps)
}

/// The lower-cased names of the entries: the keys by which a flat list is sorted.
pub open spec fn name_keys(apps: Seq<AppEntryView>) -> Seq<Seq<char>> {
    apps.map_values(|a: AppEntryView| crate::text::lower(a.name))
}

/// The entries by ascending lower-cased name; entries whose names differ in
/// case alone keep their order.
pub open spec fn sorted_by_name(apps: Seq<AppEntryView>) -> Seq<AppEntryView> {
    crate::order::key_order(name_keys(apps)).map_values(|p: int| apps[p])
}

/// The entries are in alphabetical order of their lower-cased names.
pub open spec fn alphabetical(apps: Seq<AppEntryView>) -> bool {
    forall|i: int, j: int|
        0 <= i < j < apps.len() ==> crate::order::text_le(
            crate::text::lower((#[trigger] apps[i]).name),
            crate::text::lower((#[trigger] apps[j]).name),
        )
}

/// Sorting by name rearranges the entries and does no more: the sorted list
/// is alphabetical and as long as the list, it has an entry of a category
/// exactly when the list has one, and what holds of every entry of the list,
/// or of every two, holds of the sorted list too.
pub proof fn lemma_sorted_by_name(apps: Seq<AppEntryView>)
    ensures
        sorted_by_name(apps).len() == apps.len(),
        alphabetical(sorted_by_name(apps)),
        forall|label: Seq<char>| #[trigger]
            has_category(sorted_by_name(apps), label) <==> has_category(apps, label),
        names_unique(apps) ==> names_unique(sorted_by_name(apps)),
        entries_normal(apps) ==> entries_normal(sorted_by_name(apps)),
{
    let keys = name_keys(apps);
    let o = crate::order::key_order(keys);
    let sorted = sorted_by_name(apps);
    crate::order::lemma_key_order_upto(keys, keys.len() as int);
    assert forall|i: int, j: int| 0 <= i < j < sorted.len() implies crate::order::text_le(
        crate::text::lower((#[trigger] sorted[i]).name),
        crate::text::lower((#[trigger] sorted[j]).name),
    ) by {
        assert(crate::order::key_before(keys, o[i], o[j]));
        crate::order::lemma_text_le_refl(keys[o[i]]);
    }
    assert forall|label: Seq<char>| #[trigger]
        has_category(sorted, label) <==> has_category(apps, label) by {
        if has_category(sorted, label) {
            let k = choose|k: int| 0 <= k < sorted.len() && (#[trigger] sorted[k]).category == label;
            assert(apps[o[k]].category == label);
        }
        if has_category(apps, label) {
            let p = choose|p: int| 0 <= p < apps.len() && (#[trigger] apps[p]).category == label;
            assert(o.contains(p));
            let k = choose|k: int| 0 <= k < o.len() && o[k] == p;
            assert(sorted[k].category == label);
        }
    }
    if names_unique(apps) {
        assert forall|i: int, j: int| 0 <= i < j < sorted.len() implies (#[trigger] sorted[i]).name
            != (#[trigger] sorted[j]).name by {
            assert(crate::order::key_before(keys, o[i], o[j]));
            if o[i] < o[j] {
                assert(apps[o[i]].name != apps[o[j]].name);
            } else {
                assert(apps[o[j]].name != apps[o[i]].name);
            }
        }
    }
    if entries_normal(apps) {
        assert forall|i: int| 0 <= i < sorted.len() implies !has_field_code(
            (#[trigger] sorted[i]).command,
        ) && exists|k: int|
            0 <= k < CATEGORY_COUNT && sorted[i].category == category_label(k) by {
            assert(sorted[i] == apps[o[i]]);
        }
    }
}

/// Sorts entries by lower-cased name. The sort is stable. The result holds the
/// same entries: as many, and at each place the entry that the sorted order
/// of the keys names.
pub fn sort_by_name(apps: &Vec<AppEntry>) -> (r: Vec<AppEntry>)
    ensures
        entries(r@) == sorted_by_name(entries(apps@)),
        r@.len() == apps@.len(),
        alphabetical(entries(r@)),
        crate::order::is_key_order(
            crate::order::key_order(name_keys(entries(apps@))),
            name_keys(entries(apps@)),
            apps@.len() as int,
        ),
{
    let mut keys: Vec<Vec<char>> = Vec::new();
    let mut i: usize = 0;
    while i < apps.len()
        invariant
            i <= apps.len(),
            keys@.len() == i,
            forall|j: int|
                0 <= j < i ==> (#[trigger] keys@[j])@ == crate::text::lower(apps@[j]@.name),
        decreases apps.len() - i,
    {
        keys.push(crate::text::lower_chars(apps[i].name.as_str()));
        i = i + 1;
    }
    assert(crate::text::views(keys@) =~= name_keys(entries(apps@)));
    let order = crate::order::sort_positions(&keys);
    let mut r: Vec<AppEntry> = Vec::new();
    let mut k: usize = 0;
    while k < order.len()
        invariant
            k <= order.len(),
            order@.len() == apps@.len(),
            r@.len() == k,
            forall|j: int| 0 <= j < order@.len() ==> #[trigger] order@[j] < apps@.len(),
            forall|j: int| 0 <= j < k ==> (#[trigger] r@[j])@ == apps@[order@[j] as int]@,
        decreases order.len() - k,
    {
        r.push(apps[order[k]].duplicate());
        k = k + 1;
    }
    proof {
        lemma_sorted_by_name(entries(apps@));
    }
    assert(entries(r@) =~= sorted_by_name(entries(apps@))) by {
        let o = crate::order::key_order(name_keys(entries(apps@)));
        assert(o == crate::score::ints(order@));
        assert forall|j: int| 0 <= j < r@.len() implies entries(r@)[j] == sorted_by_name(
            entries(apps@),
        )[j] by {
            assert(o[j] == order@[j] as int);
        }
    }
    r
}

/// What a catalog can be built from. The caller fills in what the wanted
/// catalog reads: the files of the scanned directories, in scan order, with
/// the hint that names the running desktop environments, for a catalog of
/// desktop entries; the names of the regular files of the executables'
/// directory for a catalog of executables.
#[derive(Debug, Clone)]
pub struct Sources {
    pub desktop_files: Vec<DesktopFile>,
    pub desktop_hint: String,
    pub path_names: Vec<String>,
}

/// The catalog of a flat list, before it is sorted: category list and entries.
pub open spec fn flat_catalog(mode: SinglePaneMode, s: Sources) -> (
    Seq<Seq<char>>,
    Seq<AppEntryView>,
) {
    if mode == SinglePaneMode::Dmenu {
        (seq!["CLI"@], path_entries(texts(s.path_names@)))
    } else {
        let apps = desktop_entries(
            file_views(s.desktop_files@),
            crate::desktop::desktop_names(s.desktop_hint@),
        );
        (category_list(apps), apps)
    }
}

/// Builds the catalog of a flat list: the executables of a directory or the
/// desktop entries, as `mode` says, in both cases sorted by lower-cased name.
///
/// The entries are in alphabetical order; see `desktop_catalog_sound` for
/// what holds of a catalog of desktop entries.
pub fn load_for_mode(mode: SinglePaneMode, sources: &Sources) -> (r: (Vec<String>, Vec<AppEntry>))
    ensures
        texts(r.0@) == flat_catalog(mode, *sources).0,
        entries(r.1@) == sorted_by_name(flat_catalog(mode, *sources).1),
        r.1@.len() == flat_catalog(mode, *sources).1.len(),
        alphabetical(entries(r.1@)),
        mode == SinglePaneMode::DesktopApps ==> desktop_catalog_sound(
            texts(r.0@),
            entries(r.1@),
        ),
{
    let (categories, apps) = if mode == SinglePaneMode::Dmenu {
        load_from_path(&sources.path_names)
    } else {
        load_desktop_apps(&sources.desktop_files, sources.desktop_hint.as_str())
    };
    let sorted = sort_by_name(&apps);
    proof {
        lemma_sorted_by_name(entries(apps@));
        if mode == SinglePaneMode::DesktopApps {
            assert forall|i: int| 0 <= i < sorted@.len() implies texts(categories@).contains(
                (#[trigger] entries(sorted@)[i]).category,
            ) by {
                let label = entries(sorted@)[i].category;
                assert(has_category(entries(sorted@), label));
                let p = choose|p: int|
                    0 <= p < apps@.len() && (#[trigger] entries(apps@)[p]).category == label;
            }
        }
    }
    (categories, sorted)
}

/// The catalog of a pane mode: for two panes the desktop entries in scan
/// order, for one pane the flat list that `single` asks for, sorted by name.
pub open spec fn catalog_for(mode: Mode, single: SinglePaneMode, s: Sources) -> (
    Seq<Seq<char>>,
    Seq<AppEntryView>,
) {
    match mode {
        Mode::DualPane => {
            let apps = desktop_entries(
                file_views(s.desktop_files@),
                crate::desktop::desktop_names(s.desktop_hint@),
            );
            (category_list(apps), apps)
        },
        Mode::SinglePane => (flat_catalog(single, s).0, sorted_by_name(flat_catalog(single, s).1)),
    }
}

/// Builds the catalog of a pane mode.
pub fn load_catalog(mode: Mode, single: SinglePaneMode, sources: &Sources) -> (r: (
    Vec<String>,
    Vec<AppEntry>,
))
    ensures
        texts(r.0@) == catalog_for(mode, single, *sources).0,
        entries(r.1@) == catalog_for(mode, single, *sources).1,
        !(mode == Mode::SinglePane && single == SinglePaneMode::Dmenu) ==> desktop_catalog_sound(
            texts(r.0@),
            entries(r.1@),
        ),
{
    match mode {
        Mode::DualPane => load_desktop_apps(
            &sources.desktop_files,
            sources.desktop_hint.as_str(),
        ),
        Mode::SinglePane => load_for_mode(single, sources),
    }
}

/// Which of the sources the catalog of a pane mode reads.
#[derive(Debug, Clone, Copy, PartialEq, Eq, Structural)]
pub enum SourceKind {
    /// The desktop entry files and the desktop environment hint.
    DesktopFiles,
    /// The names of the files of the executables' directory.
    PathListing,
}

/// Which of the sources the catalog of a pane mode reads: the directory
/// listing for one pane of executables, the desktop entry files otherwise.
pub fn source_kind(mode: Mode, single: SinglePaneMode) -> (r: SourceKind)
    ensures
        r == if mode == Mode::SinglePane && single == SinglePaneMode::Dmenu {
            SourceKind::PathListing
        } else {
            SourceKind::DesktopFiles
        },
{
    if mode == Mode::SinglePane && single == SinglePaneMode::Dmenu {
        SourceKind::PathListing
    } else {
        SourceKind::DesktopFiles
    }
}

/// The directories that are scanned for desktop entry files, in scan order:
/// the user's own, under the home directory, or under `/home` where the
/// environment names none, and then the system's.
pub fn application_dirs(home: Option<String>) -> (r: Vec<String>)
    ensures
        r@.len() == 2,
        r@[0]@ == (match home {
            Some(h) => h@,
            None => "/home"@,
        }) + "/.local/share/applications"@,
        r@[1]@ == "/usr/share/applications"@,
{
    let base = match home {
        Some(h) => h,
        None => "/home".to_owned(),
    };
    let mut r: Vec<String> = Vec::new();
    r.push(base.concat("/.local/share/applications"));
    r.push("/usr/share/applications".to_owned());
    r
}

/// The directory whose regular files are the executables of a flat list.
pub fn executables_dir() -> (r: &'static str)
    ensures
        r@ == "/usr/bin"@,
{
    "/usr/bin"
}

} // verus!
