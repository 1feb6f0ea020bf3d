//! Navigation state machine: what each key does to the state of a session.

use crate::app::{
    category_entries, category_is_shown, cursor_in_query, focus_fits_mode, selection_valid,
    shown_categories, state_sound,
    visible_entries, App, AppView, Focus, Mode,
};
use crate::config::SearchPosition;
use crate::catalog::{catalog_for, Sources};
use crate::entry::{AppEntry, AppEntryView};
use crate::lists::{any_candidate_matches, indices_where, rank_candidates};
use crate::recent::recorded;
use crate::score::ints;
use crate::text::{chars_of, string_of};
use vstd::prelude::*;

verus! {

/// A key, as the engine tells keys apart.
#[derive(Debug, Clone, Copy, PartialEq, Eq, Structural)]
pub enum Key {
    Esc,
    Enter,
    Tab,
    Backspace,
    Delete,
    Left,
    Right,
    Up,
    Down,
    Home,
    End,
    Char(char),
    /// Any key that the engine has no use for.
    Other,
}

/// What the caller is to do after a key.
#[derive(Debug, Clone, Copy, PartialEq, Eq, Structural)]
pub enum KeyOutcome {
    /// Wait for the next key.
    Continue,
    /// End the session without a launch.
    Quit,
    /// Read the sources of the other pane mode and switch to it.
    ToggleMode,
    /// End the session and launch the entry at this position of the catalog.
    Launch(usize),
}

/// The selections after the query changed: the entry selection returns to the
/// first place. So does the category selection, unless a query is there and
/// either one pane is shown or no category shows an entry.
pub open spec fn after_search(v: AppView) -> AppView {
    if v.query.len() == 0 {
        AppView { selected_category: 0, selected_app: 0, ..v }
    } else if v.mode == Mode::DualPane && shown_categories(v).len() > 0 {
        AppView { selected_category: 0, selected_app: 0, ..v }
    } else {
        AppView { selected_app: 0, ..v }
    }
}

/// The place at which a text edit acts: the cursor, or the end of the query
/// where the cursor stands beyond it.
pub open spec fn edit_place(v: AppView) -> int {
    if v.cursor < v.query.len() {
        v.cursor
    } else {
        v.query.len() as int
    }
}

/// The state after `c` was typed into the search bar: it enters the query at
/// the cursor, and the cursor moves behind it.
pub open spec fn after_insert(v: AppView, c: char) -> AppView {
    after_search(
        AppView { query: v.query.insert(edit_place(v), c), cursor: edit_place(v) + 1, ..v },
    )
}

/// The state after the character before the cursor was deleted. Nothing
/// happens where no character stands before the cursor.
pub open spec fn after_backspace(v: AppView) -> AppView {
    if 0 < v.cursor <= v.query.len() {
        after_search(AppView { query: v.query.remove(v.cursor - 1), cursor: v.cursor - 1, ..v })
    } else {
        v
    }
}

/// The state after the character at the cursor was deleted. Nothing happens
/// where no character stands at the cursor.
pub open spec fn after_delete(v: AppView) -> AppView {
    if v.cursor < v.query.len() {
        after_search(AppView { query: v.query.remove(v.cursor), ..v })
    } else {
        v
    }
}

/// The pane that comes after `focus` in the cycle of the pane mode.
pub open spec fn next_focus(mode: Mode, focus: Focus) -> Focus {
    match mode {
        Mode::SinglePane => match focus {
            Focus::Search => Focus::Apps,
            _ => Focus::Search,
        },
        Mode::DualPane => match focus {
            Focus::Search => Focus::Categories,
            Focus::Categories => Focus::Apps,
            Focus::Apps => Focus::Search,
        },
    }
}

/// The state with the focus on the search bar if the bar stands at `side`,
/// the state as it is otherwise: what a move past the end of a list does.
pub open spec fn leave_list(v: AppView, side: SearchPosition) -> AppView {
    if v.search_position == side {
        AppView { focus: Focus::Search, ..v }
    } else {
        v
    }
}

/// The state after the entry selection moved up by one, if an entry stands
/// above it.
pub open spec fn entry_up(v: AppView) -> Option<AppView> {
    if v.selected_app > 0 {
        Some(AppView { selected_app: v.selected_app - 1, ..v })
    } else {
        None
    }
}

/// The state after the entry selection moved down by one, if an entry that is
/// shown stands below it.
pub open spec fn entry_down(v: AppView) -> Option<AppView> {
    if v.selected_app + 1 < visible_entries(v).len() {
        Some(AppView { selected_app: v.selected_app + 1, ..v })
    } else {
        None
    }
}

/// The state after the category selection moved up by one, if it points at a
/// category that is shown and one stands above it. The entry selection
/// returns to the first place.
pub open spec fn category_up(v: AppView) -> Option<AppView> {
    if 0 < v.selected_category < shown_categories(v).len() {
        Some(AppView { selected_category: v.selected_category - 1, selected_app: 0, ..v })
    } else {
        None
    }
}

/// The state after the category selection moved down by one, if a category
/// that is shown stands below it. The entry selection returns to the first
/// place.
pub open spec fn category_down(v: AppView) -> Option<AppView> {
    if v.selected_category + 1 < shown_categories(v).len() {
        Some(AppView { selected_category: v.selected_category + 1, selected_app: 0, ..v })
    } else {
        None
    }
}

/// `moved` if a move took place, the state as a move past the end of the
/// list leaves it otherwise.
pub open spec fn moved_or_left(moved: Option<AppView>, v: AppView, side: SearchPosition) -> AppView {
    match moved {
        Some(next) => next,
        None => leave_list(v, side),
    }
}

/// `moved` if a move took place, the state as it is otherwise.
pub open spec fn moved_or_stay(moved: Option<AppView>, v: AppView) -> AppView {
    match moved {
        Some(next) => next,
        None => v,
    }
}

/// The state after a move up. From the search bar the focus goes to the entry
/// list if the bar stands at the bottom. In a list the selection moves up;
/// from the top of the list the focus goes to the search bar if the bar
/// stands at the top. With the focus on a category pane that one pane does
/// not show, nothing happens.
pub open spec fn after_up(v: AppView) -> AppView {
    match v.focus {
        Focus::Search => if v.search_position == SearchPosition::Bottom {
            AppView { focus: Focus::Apps, ..v }
        } else {
            v
        },
        Focus::Apps => moved_or_left(entry_up(v), v, SearchPosition::Top),
        Focus::Categories => if v.mode == Mode::DualPane {
            moved_or_left(category_up(v), v, SearchPosition::Top)
        } else {
            v
        },
    }
}

/// The state after a move down. From the search bar the focus goes to the
/// leftmost list if the bar stands at the top. In a list the selection moves
/// down; from the bottom of the list the focus goes to the search bar if the
/// bar stands at the bottom.
pub open spec fn after_down(v: AppView) -> AppView {
    match v.focus {
        Focus::Search => if v.search_position == SearchPosition::Top {
            AppView {
                focus: if v.mode == Mode::DualPane {
                    Focus::Categories
                } else {
                    Focus::Apps
                },
                ..v
            }
        } else {
            v
        },
        Focus::Apps => moved_or_left(entry_down(v), v, SearchPosition::Bottom),
        Focus::Categories => if v.mode == Mode::DualPane {
            moved_or_left(category_down(v), v, SearchPosition::Bottom)
        } else {
            v
        },
    }
}

/// The state after a step to the left in a list pane: from the entry list of
/// two panes to the category list; within the flat list one entry up; within
/// the category list one category up.
pub open spec fn after_step_left(v: AppView) -> AppView {
    match v.focus {
        Focus::Search => v,
        Focus::Apps => if v.mode == Mode::DualPane {
            AppView { focus: Focus::Categories, ..v }
        } else {
            moved_or_stay(entry_up(v), v)
        },
        Focus::Categories => moved_or_stay(category_up(v), v),
    }
}

/// The state after a step to the right in a list pane: from the category list
/// of two panes to the entry list; within the entry list one entry down;
/// within a category list without entry list one category down.
pub open spec fn after_step_right(v: AppView) -> AppView {
    match v.focus {
        Focus::Search => v,
        Focus::Categories => if v.mode == Mode::DualPane {
            AppView { focus: Focus::Apps, ..v }
        } else {
            moved_or_stay(category_down(v), v)
        },
        Focus::Apps => moved_or_stay(entry_down(v), v),
    }
}

/// The state after the left arrow: in the search bar the cursor moves left;
/// in the entry list of two panes the focus goes to the category list.
pub open spec fn after_left(v: AppView) -> AppView {
    if v.focus == Focus::Search {
        if v.cursor > 0 {
            AppView { cursor: v.cursor - 1, ..v }
        } else {
            v
        }
    } else if v.mode == Mode::DualPane && v.focus == Focus::Apps {
        AppView { focus: Focus::Categories, ..v }
    } else {
        v
    }
}

/// The state after the right arrow: in the search bar the cursor moves right;
/// in the category list of two panes the focus goes to the entry list.
pub open spec fn after_right(v: AppView) -> AppView {
    if v.focus == Focus::Search {
        if v.cursor < v.query.len() {
            AppView { cursor: v.cursor + 1, ..v }
        } else {
            v
        }
    } else if v.mode == Mode::DualPane && v.focus == Focus::Categories {
        AppView { focus: Focus::Apps, ..v }
    } else {
        v
    }
}

/// The position in the catalog of the entry that the selection points at.
pub open spec fn selected_entry(v: AppView) -> Option<int> {
    if 0 <= v.selected_app < visible_entries(v).len() {
        Some(visible_entries(v)[v.selected_app])
    } else {
        None
    }
}

/// The state after a commit: the selected entry, if there is one, is the
/// launch target, its name is recorded in the recency store, and the session
/// is to end.
pub open spec fn after_commit(v: AppView) -> AppView {
    match selected_entry(v) {
        Some(i) => AppView {
            app_to_launch: Some(v.apps[i].command),
            should_quit: true,
            recent: recorded(v.recent, v.apps[i].name, v.max_recent),
            ..v
        },
        None => v,
    }
}

/// The state after a key.
///
/// With the focus on the search bar every character is typed into the query,
/// and backspace, delete, the arrows, home and end edit the query or move the
/// cursor. With the focus on a list, `k`, `j`, `h` and `l` move as up, down,
/// left and right do, and `q` and `m`, which ask to quit and to toggle the
/// pane mode, leave the state as it is.
pub open spec fn after_key(v: AppView, key: Key) -> AppView {
    match key {
        Key::Esc => v,
        Key::Other => v,
        Key::Enter => after_commit(v),
        Key::Tab => AppView { focus: next_focus(v.mode, v.focus), ..v },
        Key::Left => after_left(v),
        Key::Right => after_right(v),
        Key::Home => if v.focus == Focus::Search {
            AppView { cursor: 0, ..v }
        } else {
            v
        },
        Key::End => if v.focus == Focus::Search {
            AppView { cursor: v.query.len() as int, ..v }
        } else {
            v
        },
        Key::Backspace => if v.focus == Focus::Search {
            after_backspace(v)
        } else {
            v
        },
        Key::Delete => if v.focus == Focus::Search {
            after_delete(v)
        } else {
            v
        },
        Key::Up => after_up(v),
        Key::Down => after_down(v),
        Key::Char(c) => if v.focus == Focus::Search {
            after_insert(v, c)
        } else if c == 'k' {
            after_up(v)
        } else if c == 'j' {
            after_down(v)
        } else if c == 'h' {
            after_step_left(v)
        } else if c == 'l' {
            after_step_right(v)
        } else {
            v
        },
    }
}

/// What the caller is to do after a key: escape ends the session, and so does
/// `q` outside the search bar; `m` outside the search bar asks for the other
/// pane mode; enter launches the selected entry, if there is one.
pub open spec fn outcome_of(v: AppView, key: Key) -> KeyOutcome {
    match key {
        Key::Esc => KeyOutcome::Quit,
        Key::Enter => match selected_entry(v) {
            Some(i) => KeyOutcome::Launch(i as usize),
            None => KeyOutcome::Continue,
        },
        Key::Char(c) => if v.focus != Focus::Search && c == 'q' {
            KeyOutcome::Quit
        } else if v.focus != Focus::Search && c == 'm' {
            KeyOutcome::ToggleMode
        } else {
            KeyOutcome::Continue
        },
        _ => KeyOutcome::Continue,
    }
}

/// The categories that are shown, as places in the catalog's list: those that
/// show at least one entry for the query. The `Recent` slot is among them
/// only while a recent entry that the catalog still holds matches.
pub fn get_matching_category_indices(app: &App) -> (r: Vec<usize>)
    ensures
        ints(r@) == shown_categories(app@),
        forall|k: int| 0 <= k < r@.len() ==> #[trigger] r@[k] < app.categories@.len(),
        forall|k: int|
            0 <= k < r@.len() ==> category_entries(
                app@,
                (#[trigger] app.categories@[r@[k] as int])@,
            ).len() > 0,
{
    let ghost keep = category_is_shown(app@);
    let mut r: Vec<usize> = Vec::new();
    let mut c: usize = 0;
    assert(ints(r@) =~= Seq::<int>::empty());
    while c < app.categories.len()
        invariant
            c <= app.categories.len(),
            keep == category_is_shown(app@),
            ints(r@) == indices_where(c as int, keep),
            forall|k: int| 0 <= k < r@.len() ==> #[trigger] r@[k] < app.categories@.len(),
            forall|k: int|
                0 <= k < r@.len() ==> category_entries(
                    app@,
                    (#[trigger] app.categories@[r@[k] as int])@,
                ).len() > 0,
        decreases app.categories.len() - c,
    {
        let label = app.categories[c].as_str();
        assert(app@.categories[c as int] == label@);
        let cands = app.category_candidate_indices(label);
        if any_candidate_matches(&app.apps, &cands, app.search_query.as_str()) {
            assert(ints(r@.push(c)) =~= ints(r@).push(c as int));
            r.push(c);
        }
        c = c + 1;
    }
    r
}

/// The entries that the state shows, as positions in the catalog, in the
/// order in which they are shown. Renderer and commit both read this list.
pub fn visible_indices(app: &App) -> (r: Vec<usize>)
    ensures
        ints(r@) == visible_entries(app@),
        forall|k: int| 0 <= k < r@.len() ==> #[trigger] r@[k] < app.apps@.len(),
{
    match app.mode {
        Mode::SinglePane => app.flat_indices(),
        Mode::DualPane => {
            let shown = get_matching_category_indices(app);
            if app.selected_category < shown.len() {
                let c = shown[app.selected_category];
                assert(ints(shown@)[app.selected_category as int] == c);
                let label = app.categories[c].as_str();
                assert(app@.categories[c as int] == label@);
                let cands = app.category_candidate_indices(label);
                rank_candidates(&app.apps, &cands, app.search_query.as_str())
            } else {
                let r: Vec<usize> = Vec::new();
                assert(ints(r@) =~= Seq::<int>::empty());
                r
            }
        },
    }
}

/// The number of entries that the state shows.
pub fn count_filtered_apps_in_current_category(app: &App) -> (n: usize)
    ensures
        n == visible_entries(app@).len(),
{
    let v = visible_indices(app);
    assert(ints(v@).len() == v@.len());
    v.len()
}

/// The position in the catalog of the entry that the selection points at.
pub fn selected_index(app: &App) -> (r: Option<usize>)
    ensures
        match r {
            Some(i) => selected_entry(app@) == Some(i as int) && i < app.apps@.len(),
            None => selected_entry(app@) is None,
        },
{
    let v = visible_indices(app);
    assert(ints(v@).len() == v@.len());
    if app.selected_app < v.len() {
        assert(ints(v@)[app.selected_app as int] == v@[app.selected_app as int]);
        Some(v[app.selected_app])
    } else {
        None
    }
}

/// The entry that the selection points at.
pub fn get_selected_app(app: &App) -> (r: Option<&AppEntry>)
    ensures
        match r {
            Some(e) => selected_entry(app@) is Some && 0 <= selected_entry(app@)->0
                < app.apps@.len() && *e == app.apps@[selected_entry(app@)->0],
            None => selected_entry(app@) is None,
        },
{
    match selected_index(app) {
        Some(i) => Some(&app.apps[i]),
        None => None,
    }
}

/// Brings the selections back in line after the query changed.
pub fn update_selection_after_search(app: &mut App)
    ensures
        final(app)@ == after_search(old(app)@),
        final(app).config == old(app).config,
{
    if app.search_query.as_str().is_empty() {
        app.selected_category = 0;
        app.selected_app = 0;
        return ;
    }
    match app.mode {
        Mode::DualPane => {
            let shown = get_matching_category_indices(app);
            assert(ints(shown@).len() == shown@.len());
            if shown.len() > 0 {
                app.selected_category = 0;
            }
            app.selected_app = 0;
        },
        Mode::SinglePane => {
            app.selected_app = 0;
        },
    }
}

/// Types `c` into the query at the cursor.
fn insert_char(app: &mut App, c: char)
    ensures
        final(app)@ == after_insert(old(app)@, c),
        final(app).config == old(app).config,
{
    let mut q = chars_of(app.search_query.as_str());
    let pos = if app.cursor_position < q.len() {
        app.cursor_position
    } else {
        q.len()
    };
    q.insert(pos, c);
    assert(pos + 1 <= q.len());
    app.search_query = string_of(&q);
    app.cursor_position = pos + 1;
    update_selection_after_search(app);
}

/// Deletes the character at place `pos` of the query.
fn remove_char(app: &mut App, pos: usize)
    requires
        pos < old(app)@.query.len(),
    ensures
        final(app)@ == after_search(
            AppView { query: old(app)@.query.remove(pos as int), cursor: pos as int, ..old(app)@ },
        ),
        final(app).config == old(app).config,
{
    let mut q = chars_of(app.search_query.as_str());
    q.remove(pos);
    app.search_query = string_of(&q);
    app.cursor_position = pos;
    update_selection_after_search(app);
}

/// The number of characters of the query.
fn query_len(app: &App) -> (n: usize)
    ensures
        n == app@.query.len(),
{
    chars_of(app.search_query.as_str()).len()
}

/// Moves the entry selection up by one, if an entry stands above it.
fn move_entry_up(app: &mut App) -> (moved: bool)
    ensures
        moved == entry_up(old(app)@) is Some,
        final(app)@ == (match entry_up(old(app)@) {
            Some(next) => next,
            None => old(app)@,
        }),
        final(app).config == old(app).config,
{
    if app.selected_app > 0 {
        app.selected_app = app.selected_app - 1;
        true
    } else {
        false
    }
}

/// Moves the entry selection down by one, if an entry that is shown stands
/// below it.
fn move_entry_down(app: &mut App) -> (moved: bool)
    ensures
        moved == entry_down(old(app)@) is Some,
        final(app)@ == (match entry_down(old(app)@) {
            Some(next) => next,
            None => old(app)@,
        }),
        final(app).config == old(app).config,
{
    let count = count_filtered_apps_in_current_category(app);
    if count > 0 && app.selected_app < count - 1 {
        app.selected_app = app.selected_app + 1;
        true
    } else {
        false
    }
}

/// Moves the category selection up by one, if it points at a category that
/// is shown and one stands above it.
fn move_category_up(app: &mut App) -> (moved: bool)
    ensures
        moved == category_up(old(app)@) is Some,
        final(app)@ == (match category_up(old(app)@) {
            Some(next) => next,
            None => old(app)@,
        }),
        final(app).config == old(app).config,
{
    let shown = get_matching_category_indices(app);
    assert(ints(shown@).len() == shown@.len());
    if app.selected_category > 0 && app.selected_category < shown.len() {
        app.selected_category = app.selected_category - 1;
        app.selected_app = 0;
        true
    } else {
        false
    }
}

/// Moves the category selection down by one, if a category that is shown
/// stands below it.
fn move_category_down(app: &mut App) -> (moved: bool)
    ensures
        moved == category_down(old(app)@) is Some,
        final(app)@ == (match category_down(old(app)@) {
            Some(next) => next,
            None => old(app)@,
        }),
        final(app).config == old(app).config,
{
    let shown = get_matching_category_indices(app);
    assert(ints(shown@).len() == shown@.len());
    if shown.len() > 0 && app.selected_category < shown.len() - 1 {
        app.selected_category = app.selected_category + 1;
        app.selected_app = 0;
        true
    } else {
        false
    }
}

/// Gives the focus to the search bar if the bar stands at `side`.
fn leave_list_towards(app: &mut App, side: SearchPosition)
    ensures
        final(app)@ == leave_list(old(app)@, side),
        final(app).config == old(app).config,
{
    if app.config.search_position == side {
        app.focus = Focus::Search;
    }
}

/// Moves up.
fn move_up(app: &mut App)
    ensures
        final(app)@ == after_up(old(app)@),
        final(app).config == old(app).config,
{
    match app.focus {
        Focus::Search => {
            if app.config.search_position == SearchPosition::Bottom {
                app.focus = Focus::Apps;
            }
        },
        Focus::Apps => {
            if !move_entry_up(app) {
                leave_list_towards(app, SearchPosition::Top);
            }
        },
        Focus::Categories => {
            if app.mode == Mode::DualPane {
                if !move_category_up(app) {
                    leave_list_towards(app, SearchPosition::Top);
                }
            }
        },
    }
}

/// Moves down.
fn move_down(app: &mut App)
    ensures
        final(app)@ == after_down(old(app)@),
        final(app).config == old(app).config,
{
    match app.focus {
        Focus::Search => {
            if app.config.search_position == SearchPosition::Top {
                app.focus = if app.mode == Mode::DualPane {
                    Focus::Categories
                } else {
                    Focus::Apps
                };
            }
        },
        Focus::Apps => {
            if !move_entry_down(app) {
                leave_list_towards(app, SearchPosition::Bottom);
            }
        },
        Focus::Categories => {
            if app.mode == Mode::DualPane {
                if !move_category_down(app) {
                    leave_list_towards(app, SearchPosition::Bottom);
                }
            }
        },
    }
}

/// Steps to the left in a list pane.
fn step_left(app: &mut App)
    ensures
        final(app)@ == after_step_left(old(app)@),
        final(app).config == old(app).config,
{
    match app.focus {
        Focus::Search => {},
        Focus::Apps => {
            if app.mode == Mode::DualPane {
                app.focus = Focus::Categories;
            } else {
                let _ = move_entry_up(app);
            }
        },
        Focus::Categories => {
            let _ = move_category_up(app);
        },
    }
}

/// Steps to the right in a list pane.
fn step_right(app: &mut App)
    ensures
        final(app)@ == after_step_right(old(app)@),
        final(app).config == old(app).config,
{
    match app.focus {
        Focus::Search => {},
        Focus::Categories => {
            if app.mode == Mode::DualPane {
                app.focus = Focus::Apps;
            } else {
                let _ = move_category_down(app);
            }
        },
        Focus::Apps => {
            let _ = move_entry_down(app);
        },
    }
}

/// Commits the selection: the selected entry, if there is one, becomes the
/// launch target and its name is recorded in the recency store.
pub fn commit(app: &mut App) -> (r: Option<usize>)
    ensures
        final(app)@ == after_commit(old(app)@),
        final(app).config == old(app).config,
        match r {
            Some(i) => selected_entry(old(app)@) == Some(i as int) && i < old(app).apps@.len(),
            None => selected_entry(old(app)@) is None,
        },
{
    match selected_index(app) {
        Some(i) => {
            let command = app.apps[i].command.clone();
            let name = app.apps[i].name.clone();
            app.app_to_launch = Some(command);
            app.should_quit = true;
            app.add_to_recent(name);
            Some(i)
        },
        None => None,
    }
}

/// Applies one key to the state of a session and says what the caller is to
/// do next. The configuration is never changed.
pub fn handle_key(app: &mut App, key: Key) -> (outcome: KeyOutcome)
    ensures
        final(app)@ == after_key(old(app)@, key),
        outcome == outcome_of(old(app)@, key),
        final(app).config == old(app).config,
        key != Key::Enter && state_sound(old(app)@) ==> state_sound(final(app)@),
        is_text_edit(old(app)@, key) ==> selection_valid(final(app)@),
{
    proof {
        if key != Key::Enter && state_sound(old(app)@) {
            lemma_key_keeps_state_sound(old(app)@, key);
        }
        if is_text_edit(old(app)@, key) {
            lemma_edit_selects_visible(old(app)@, key);
        }
    }
    match key {
        Key::Esc => KeyOutcome::Quit,
        Key::Other => KeyOutcome::Continue,
        Key::Enter => match commit(app) {
            Some(i) => KeyOutcome::Launch(i),
            None => KeyOutcome::Continue,
        },
        Key::Tab => {
            app.focus = match app.mode {
                Mode::SinglePane => match app.focus {
                    Focus::Search => Focus::Apps,
                    _ => Focus::Search,
                },
                Mode::DualPane => match app.focus {
                    Focus::Search => Focus::Categories,
                    Focus::Categories => Focus::Apps,
                    Focus::Apps => Focus::Search,
                },
            };
            KeyOutcome::Continue
        },
        Key::Left => {
            if app.focus == Focus::Search {
                if app.cursor_position > 0 {
                    app.cursor_position = app.cursor_position - 1;
                }
            } else if app.mode == Mode::DualPane && app.focus == Focus::Apps {
                app.focus = Focus::Categories;
            }
            KeyOutcome::Continue
        },
        Key::Right => {
            if app.focus == Focus::Search {
                if app.cursor_position < query_len(app) {
                    app.cursor_position = app.cursor_position + 1;
                }
            } else if app.mode == Mode::DualPane && app.focus == Focus::Categories {
                app.focus = Focus::Apps;
            }
            KeyOutcome::Continue
        },
        Key::Home => {
            if app.focus == Focus::Search {
                app.cursor_position = 0;
            }
            KeyOutcome::Continue
        },
        Key::End => {
            if app.focus == Focus::Search {
                app.cursor_position = query_len(app);
            }
            KeyOutcome::Continue
        },
        Key::Backspace => {
            if app.focus == Focus::Search && app.cursor_position > 0 && app.cursor_position
                <= query_len(app) {
                let pos = app.cursor_position - 1;
                remove_char(app, pos);
            }
            KeyOutcome::Continue
        },
        Key::Delete => {
            if app.focus == Focus::Search && app.cursor_position < query_len(app) {
                let pos = app.cursor_position;
                remove_char(app, pos);
            }
            KeyOutcome::Continue
        },
        Key::Up => {
            move_up(app);
            KeyOutcome::Continue
        },
        Key::Down => {
            move_down(app);
            KeyOutcome::Continue
        },
        Key::Char(c) => {
            if app.focus == Focus::Search {
                insert_char(app, c);
                KeyOutcome::Continue
            } else if c == 'q' {
                KeyOutcome::Quit
            } else if c == 'm' {
                KeyOutcome::ToggleMode
            } else if c == 'k' {
                move_up(app);
                KeyOutcome::Continue
            } else if c == 'j' {
                move_down(app);
                KeyOutcome::Continue
            } else if c == 'h' {
                step_left(app);
                KeyOutcome::Continue
            } else if c == 'l' {
                step_right(app);
                KeyOutcome::Continue
            } else {
                KeyOutcome::Continue
            }
        },
    }
}

/// The state after a switch to the other pane mode with `catalog` loaded for
/// it: as after a toggle, but with the focus on the search bar where the
/// configuration asks for that.
pub open spec fn after_switch(v: AppView, catalog: (Seq<Seq<char>>, Seq<AppEntryView>)) -> AppView {
    let toggled = crate::app::after_toggle(v, catalog);
    if v.focus_search_on_switch {
        AppView { focus: Focus::Search, ..toggled }
    } else {
        toggled
    }
}

/// Switches to the other pane mode, as asked for by `KeyOutcome::ToggleMode`,
/// with the catalog of the new mode read from `sources`. Both selections
/// return to the first place; the focus goes to the search bar where the
/// configuration asks for that, to the leftmost list pane otherwise.
pub fn switch_mode(app: &mut App, sources: &Sources)
    ensures
        final(app)@ == after_switch(
            old(app)@,
            catalog_for(
                crate::app::other_mode(old(app).mode),
                old(app).single_pane_mode,
                *sources,
            ),
        ),
        final(app).config == old(app).config,
        final(app).selected_category == 0,
        final(app).selected_app == 0,
        selection_valid(final(app)@),
        focus_fits_mode(final(app)@),
        cursor_in_query(old(app)@) ==> state_sound(final(app)@),
{
    app.toggle_mode(sources);
    if app.config.focus_search_on_switch {
        app.focus = Focus::Search;
    }
}

/// Whether the key changes the query of this state.
pub open spec fn is_text_edit(v: AppView, key: Key) -> bool {
    after_key(v, key).query != v.query
}

/// After every key that changes the query the selection points at an entry
/// that is shown for the new query, unless none is shown.
pub proof fn lemma_edit_selects_visible(v: AppView, key: Key)
    requires
        is_text_edit(v, key),
    ensures
        selection_valid(after_key(v, key)),
        after_key(v, key).selected_app == 0,
{
}

/// Two states that agree on catalog, recency store, query, pane mode and the
/// recent-first setting show the same categories and the same flat list, and,
/// where they select the same category, the same entries.
pub proof fn lemma_same_lists(v: AppView, w: AppView)
    requires
        w.apps == v.apps,
        w.categories == v.categories,
        w.recent == v.recent,
        w.query == v.query,
        w.mode == v.mode,
        w.recent_first == v.recent_first,
    ensures
        shown_categories(w) == shown_categories(v),
        crate::app::flat_list(w) == crate::app::flat_list(v),
        w.selected_category == v.selected_category ==> visible_entries(w) == visible_entries(v),
{
    assert(category_is_shown(w) =~= category_is_shown(v));
}

/// `w` has the catalog, the recency store and the pane mode of `v`.
pub open spec fn same_catalog(v: AppView, w: AppView) -> bool {
    w.apps == v.apps && w.categories == v.categories && w.recent == v.recent && w.mode == v.mode
        && w.recent_first == v.recent_first
}

/// Bringing the selections in line after an edit gives a sound state.
proof fn lemma_search_keeps_sound(v: AppView)
    requires
        cursor_in_query(v),
        focus_fits_mode(v),
    ensures
        state_sound(after_search(v)),
        same_catalog(v, after_search(v)),
        after_search(v).query == v.query,
{
}

/// The three edits of the query keep a sound state sound.
proof fn lemma_edits_keep_sound(v: AppView, c: char)
    requires
        state_sound(v),
    ensures
        state_sound(after_insert(v, c)),
        state_sound(after_backspace(v)),
        state_sound(after_delete(v)),
        same_catalog(v, after_insert(v, c)),
        same_catalog(v, after_backspace(v)),
        same_catalog(v, after_delete(v)),
{
    lemma_search_keeps_sound(
        AppView { query: v.query.insert(edit_place(v), c), cursor: edit_place(v) + 1, ..v },
    );
    if 0 < v.cursor <= v.query.len() {
        lemma_search_keeps_sound(
            AppView { query: v.query.remove(v.cursor - 1), cursor: v.cursor - 1, ..v },
        );
    }
    if v.cursor < v.query.len() {
        lemma_search_keeps_sound(AppView { query: v.query.remove(v.cursor), ..v });
    }
}

/// A move of the entry selection keeps a sound state sound.
proof fn lemma_entry_moves_keep_sound(v: AppView)
    requires
        state_sound(v),
        0 <= v.selected_app,
    ensures
        entry_up(v) matches Some(w) ==> state_sound(w) && same_catalog(v, w) && w.query
            == v.query,
        entry_down(v) matches Some(w) ==> state_sound(w) && same_catalog(v, w) && w.query
            == v.query,
{
    match entry_up(v) {
        Some(w) => {
            lemma_same_lists(v, w);
        },
        None => {},
    }
    match entry_down(v) {
        Some(w) => {
            lemma_same_lists(v, w);
        },
        None => {},
    }
}

/// A move of the category selection keeps a sound state sound.
proof fn lemma_category_moves_keep_sound(v: AppView)
    requires
        state_sound(v),
    ensures
        category_up(v) matches Some(w) ==> state_sound(w) && same_catalog(v, w) && w.query
            == v.query,
        category_down(v) matches Some(w) ==> state_sound(w) && same_catalog(v, w) && w.query
            == v.query,
{
}

/// A change of focus to a pane that the pane mode has keeps a sound state sound.
proof fn lemma_focus_keeps_sound(v: AppView, focus: Focus)
    requires
        state_sound(v),
        v.mode == Mode::SinglePane ==> focus != Focus::Categories,
    ensures
        state_sound(AppView { focus, ..v }),
{
    lemma_same_lists(v, AppView { focus, ..v });
}

/// A move of the cursor within the query keeps a sound state sound.
proof fn lemma_cursor_keeps_sound(v: AppView, cursor: int)
    requires
        state_sound(v),
        0 <= cursor <= v.query.len(),
    ensures
        state_sound(AppView { cursor, ..v }),
{
    lemma_same_lists(v, AppView { cursor, ..v });
}

/// Moves up, down, left and right in the lists keep a sound state sound.
proof fn lemma_moves_keep_sound(v: AppView)
    requires
        state_sound(v),
        0 <= v.selected_app,
    ensures
        state_sound(after_up(v)),
        state_sound(after_down(v)),
        state_sound(after_step_left(v)),
        state_sound(after_step_right(v)),
        same_catalog(v, after_up(v)) && after_up(v).query == v.query,
        same_catalog(v, after_down(v)) && after_down(v).query == v.query,
        same_catalog(v, after_step_left(v)) && after_step_left(v).query == v.query,
        same_catalog(v, after_step_right(v)) && after_step_right(v).query == v.query,
{
    lemma_entry_moves_keep_sound(v);
    lemma_category_moves_keep_sound(v);
    lemma_focus_keeps_sound(v, Focus::Search);
    lemma_focus_keeps_sound(v, Focus::Apps);
    if v.mode == Mode::DualPane {
        lemma_focus_keeps_sound(v, Focus::Categories);
    }
}

/// The left and right arrows keep a sound state sound.
proof fn lemma_arrows_keep_sound(v: AppView)
    requires
        state_sound(v),
    ensures
        state_sound(after_left(v)),
        state_sound(after_right(v)),
        same_catalog(v, after_left(v)) && after_left(v).query == v.query,
        same_catalog(v, after_right(v)) && after_right(v).query == v.query,
{
    lemma_focus_keeps_sound(v, Focus::Apps);
    if v.mode == Mode::DualPane {
        lemma_focus_keeps_sound(v, Focus::Categories);
    }
    if v.cursor > 0 {
        lemma_cursor_keeps_sound(v, v.cursor - 1);
    }
    if v.cursor < v.query.len() {
        lemma_cursor_keeps_sound(v, v.cursor + 1);
    }
}

/// No key but the commit breaks what holds of a sound state: the selection
/// points at an entry that is shown, the cursor stands within the query, and
/// the category pane has the focus only where two panes are shown. A key
/// changes the query only while the search bar has the focus, and no key but
/// the commit changes catalog, recency store or pane mode.
pub proof fn lemma_key_keeps_state_sound(v: AppView, key: Key)
    requires
        key != Key::Enter,
        state_sound(v),
        0 <= v.selected_app,
    ensures
        state_sound(after_key(v, key)),
        same_catalog(v, after_key(v, key)),
        v.focus != Focus::Search ==> after_key(v, key).query == v.query,
{
    match key {
        Key::Esc => {},
        Key::Other => {},
        Key::Enter => {},
        Key::Tab => {
            lemma_focus_keeps_sound(v, next_focus(v.mode, v.focus));
        },
        Key::Left => {
            lemma_arrows_keep_sound(v);
        },
        Key::Right => {
            lemma_arrows_keep_sound(v);
        },
        Key::Home => {
            lemma_cursor_keeps_sound(v, 0);
        },
        Key::End => {
            lemma_cursor_keeps_sound(v, v.query.len() as int);
        },
        Key::Backspace => {
            lemma_edits_keep_sound(v, 'x');
        },
        Key::Delete => {
            lemma_edits_keep_sound(v, 'x');
        },
        Key::Up => {
            lemma_moves_keep_sound(v);
        },
        Key::Down => {
            lemma_moves_keep_sound(v);
        },
        Key::Char(c) => {
            lemma_edits_keep_sound(v, c);
            lemma_moves_keep_sound(v);
        },
    }
}

} // verus!
