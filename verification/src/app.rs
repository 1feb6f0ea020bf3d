//! Session state: the catalog, the recency store, the query and the selection,
//! and the list of entries that the state shows.

use crate::catalog::{catalog_for, entries, load_catalog, Sources};
use crate::config::{DstlConfig, SearchPosition};
use crate::desktop::{opt_text, texts};
use crate::entry::{AppEntry, AppEntryView};
use crate::lists::{
    all_indices, all_positions, category_indices, in_category,
    indices_where, live_recent, live_recent_indices, not_recent_indices, rank_candidates,
    recent_first, shown,
};
use crate::recent::{decode_names, decoded_names, encode_names, json_of_names, record_launch, recorded};
use crate::score::{ints, search_score};
use crate::text::text_eq;
use vstd::prelude::*;

verus! {

/// Which pane takes the keys.
#[derive(Debug, Clone, Copy, PartialEq, Eq, Structural)]
pub enum Focus {
    Search,
    Categories,
    Apps,
}

/// Pane mode: one flat list, or a category list beside an entry list.
#[derive(Debug, Clone, Copy, PartialEq, Eq, Structural)]
pub enum Mode {
    SinglePane,
    DualPane,
}

/// What the flat list of the single pane holds.
#[derive(Debug, Clone, Copy, PartialEq, Eq, Structural)]
pub enum SinglePaneMode {
    /// The executables of a directory.
    Dmenu,
    /// The desktop entries.
    DesktopApps,
}

/// The state of a session.
#[derive(Debug, Clone)]
pub struct App {
    pub mode: Mode,
    pub single_pane_mode: SinglePaneMode,
    pub should_quit: bool,
    pub search_query: String,
    /// Place of the text cursor in the query, counted in characters.
    pub cursor_position: usize,
    pub categories: Vec<String>,
    pub apps: Vec<AppEntry>,
    /// Names of the entries launched last, most recent first.
    pub recent_apps: Vec<String>,
    /// Place of the selected category among the categories that are shown.
    pub selected_category: usize,
    /// Place of the selected entry in the list that is shown.
    pub selected_app: usize,
    pub focus: Focus,
    /// Invocation string of the entry that was committed.
    pub app_to_launch: Option<String>,
    pub config: DstlConfig,
}

/// The state of a session as contracts see it. Of the configuration it holds
/// the four settings that the engine reads.
pub ghost struct AppView {
    pub mode: Mode,
    pub single_pane_mode: SinglePaneMode,
    pub should_quit: bool,
    pub query: Seq<char>,
    pub cursor: int,
    pub categories: Seq<Seq<char>>,
    pub apps: Seq<AppEntryView>,
    pub recent: Seq<Seq<char>>,
    pub selected_category: int,
    pub selected_app: int,
    pub focus: Focus,
    pub app_to_launch: Option<Seq<char>>,
    pub search_position: SearchPosition,
    pub focus_search_on_switch: bool,
    pub max_recent: int,
    pub recent_first: bool,
}

impl View for App {
    type V = AppView;

    open spec fn view(&self) -> AppView {
        AppView {
            mode: self.mode,
            single_pane_mode: self.single_pane_mode,
            should_quit: self.should_quit,
            query: self.search_query@,
            cursor: self.cursor_position as int,
            categories: texts(self.categories@),
            apps: entries(self.apps@),
            recent: texts(self.recent_apps@),
            selected_category: self.selected_category as int,
            selected_app: self.selected_app as int,
            focus: self.focus,
            app_to_launch: opt_text(self.app_to_launch),
            search_position: self.config.search_position,
            focus_search_on_switch: self.config.focus_search_on_switch,
            max_recent: self.config.max_recent_apps as int,
            recent_first: self.config.recent_first,
        }
    }
}

/// The candidates of the flat list: every entry in catalog order; but the
/// recent entries first while the query is empty, recent-first is switched on
/// and the recency store holds a name.
pub open spec fn flat_candidates(v: AppView) -> Seq<int> {
    if v.query.len() == 0 && v.recent_first && v.recent.len() > 0 {
        recent_first(v.apps, v.recent)
    } else {
        all_positions(v.apps.len() as int)
    }
}

/// The flat list: the candidates that match the query, best score first.
pub open spec fn flat_list(v: AppView) -> Seq<int> {
    shown(v.apps, flat_candidates(v), v.query)
}

/// The candidates of a category: for `Recent` the recent entries that the
/// catalog still holds, most recent first; for any other label the entries
/// that fall under it, in catalog order.
pub open spec fn category_candidates(v: AppView, label: Seq<char>) -> Seq<int> {
    if label == "Recent"@ {
        live_recent(v.apps, v.recent)
    } else {
        in_category(v.apps, label)
    }
}

/// The entries that a category shows: its candidates that match the query,
/// best score first.
pub open spec fn category_entries(v: AppView, label: Seq<char>) -> Seq<int> {
    shown(v.apps, category_candidates(v, label), v.query)
}

/// Whether the category at place `c` of the catalog's list shows an entry.
pub open spec fn category_is_shown(v: AppView) -> spec_fn(int) -> bool {
    |c: int| category_entries(v, v.categories[c]).len() > 0
}

/// The categories that are shown, as places in the catalog's list: those that
/// show at least one entry.
pub open spec fn shown_categories(v: AppView) -> Seq<int> {
    indices_where(v.categories.len() as int, category_is_shown(v))
}

/// The label of the selected category, if the selection points at one of the
/// categories that are shown.
pub open spec fn current_label(v: AppView) -> Option<Seq<char>> {
    if 0 <= v.selected_category < shown_categories(v).len() {
        Some(v.categories[shown_categories(v)[v.selected_category]])
    } else {
        None
    }
}

/// The entries that the state shows, as positions in the catalog: the flat
/// list in one pane, the entries of the selected category in two.
pub open spec fn visible_entries(v: AppView) -> Seq<int> {
    match v.mode {
        Mode::SinglePane => flat_list(v),
        Mode::DualPane => match current_label(v) {
            Some(label) => category_entries(v, label),
            None => Seq::empty(),
        },
    }
}

/// The selection points at an entry that is shown, unless none is shown.
pub open spec fn selection_valid(v: AppView) -> bool {
    visible_entries(v).len() == 0 || 0 <= v.selected_app < visible_entries(v).len()
}

/// The categories that are shown stand in the order of the catalog's list,
/// so the `Recent` slot, which a catalog lists first, is shown first. Every
/// category that is shown shows at least one entry. Whatever a
/// category shows is an entry of the catalog that matches the query and
/// belongs to the category: it falls under the label, or, for `Recent`, it
/// bears one of the recent names.
pub proof fn lemma_shown_categories_have_entries(v: AppView, k: int)
    requires
        0 <= k < shown_categories(v).len(),
    ensures
        ({
            let c = shown_categories(v)[k];
            let label = v.categories[c];
            let list = category_entries(v, label);
            &&& 0 <= c < v.categories.len()
            &&& forall|m: int| k < m < shown_categories(v).len() ==> c < shown_categories(v)[m]
            &&& list.len() > 0
            &&& forall|j: int|
                0 <= j < list.len() ==> 0 <= #[trigger] list[j] < v.apps.len() && search_score(
                    v.apps[list[j]].name,
                    v.query,
                ) is Some && if label == "Recent"@ {
                    v.recent.contains(v.apps[list[j]].name)
                } else {
                    v.apps[list[j]].category == label
                }
        }),
{
    crate::lists::lemma_indices_where(v.categories.len() as int, category_is_shown(v));
    let c = shown_categories(v)[k];
    let label = v.categories[c];
    let cands = category_candidates(v, label);
    let list = category_entries(v, label);
    crate::lists::lemma_shown(v.apps, cands, v.query);
    crate::lists::lemma_live_recent(v.apps, v.recent);
    crate::lists::lemma_indices_where(
        v.apps.len() as int,
        crate::lists::falls_under(v.apps, label),
    );
    assert forall|j: int| 0 <= j < list.len() implies 0 <= #[trigger] list[j] < v.apps.len()
        && search_score(v.apps[list[j]].name, v.query) is Some && if label == "Recent"@ {
        v.recent.contains(v.apps[list[j]].name)
    } else {
        v.apps[list[j]].category == label
    } by {
        assert(cands.contains(list[j]));
        let w = choose|w: int| 0 <= w < cands.len() && cands[w] == list[j];
    }
}

/// The category pane has the focus only where two panes are shown.
pub open spec fn focus_fits_mode(v: AppView) -> bool {
    v.mode == Mode::SinglePane ==> v.focus != Focus::Categories
}

/// The cursor stands within the query or at its end.
pub open spec fn cursor_in_query(v: AppView) -> bool {
    0 <= v.cursor <= v.query.len()
}

/// What holds of a sound state: the selection points at an entry that is
/// shown, the cursor stands within the query, and the category pane has the
/// focus only where two panes are shown.
pub open spec fn state_sound(v: AppView) -> bool {
    selection_valid(v) && cursor_in_query(v) && focus_fits_mode(v)
}

/// The other pane mode.
pub open spec fn other_mode(mode: Mode) -> Mode {
    match mode {
        Mode::SinglePane => Mode::DualPane,
        Mode::DualPane => Mode::SinglePane,
    }
}

/// The state after the pane mode was toggled and `catalog` loaded for the new
/// mode: both selections are back at the first place, and the leftmost list
/// pane of the new mode has the focus.
pub open spec fn after_toggle(v: AppView, catalog: (Seq<Seq<char>>, Seq<AppEntryView>)) -> AppView {
    AppView {
        mode: other_mode(v.mode),
        categories: catalog.0,
        apps: catalog.1,
        focus: match v.mode {
            Mode::SinglePane => Focus::Categories,
            Mode::DualPane => Focus::Apps,
        },
        selected_category: 0,
        selected_app: 0,
        ..v
    }
}

impl App {
    /// Starts a session in `start_mode` with the catalog that this mode reads
    /// from `sources` and the recency store `recent`. The query is empty, the
    /// search bar has the focus and both selections stand at the first place.
    pub fn new(
        single_pane_mode: SinglePaneMode,
        start_mode: Mode,
        config: &DstlConfig,
        sources: &Sources,
        recent: Vec<String>,
    ) -> (app: App)
        ensures
            app.mode == start_mode,
            app.single_pane_mode == single_pane_mode,
            !app.should_quit,
            app@.query == Seq::<char>::empty(),
            app.cursor_position == 0,
            app@.categories == catalog_for(start_mode, single_pane_mode, *sources).0,
            app@.apps == catalog_for(start_mode, single_pane_mode, *sources).1,
            app.recent_apps == recent,
            app.selected_category == 0,
            app.selected_app == 0,
            app.focus == Focus::Search,
            app.app_to_launch is None,
            app.config == *config,
            state_sound(app@),
            !(start_mode == Mode::SinglePane && single_pane_mode == SinglePaneMode::Dmenu)
                ==> crate::catalog::desktop_catalog_sound(app@.categories, app@.apps),
    {
        let (categories, apps) = load_catalog(start_mode, single_pane_mode, sources);
        App {
            mode: start_mode,
            single_pane_mode,
            should_quit: false,
            search_query: String::new(),
            cursor_position: 0,
            categories,
            apps,
            recent_apps: recent,
            selected_category: 0,
            selected_app: 0,
            focus: Focus::Search,
            app_to_launch: None,
            config: config.duplicate(),
        }
    }

    /// Records the launch of `app_name` in the recency store: the name moves
    /// to the front, or enters there, and the store is cut down to the
    /// configured length. Nothing else changes.
    pub fn add_to_recent(&mut self, app_name: String)
        ensures
            final(self)@ == (AppView {
                recent: recorded(old(self)@.recent, app_name@, old(self)@.max_recent),
                ..old(self)@
            }),
            final(self).config == old(self).config,
    {
        let max = self.config.max_recent_apps;
        record_launch(&mut self.recent_apps, app_name, max);
    }

    /// The document in which the recency store is kept between sessions, if
    /// it can be written.
    pub fn save_recent(&self) -> (r: Option<String>)
        ensures
            opt_text(r) == json_of_names(self@.recent),
    {
        encode_names(&self.recent_apps)
    }

    /// Takes the recency store from the document of an earlier session. A
    /// text that is no such document gives the empty store.
    pub fn load_recent(&mut self, text: &str)
        ensures
            final(self)@ == (AppView { recent: decoded_names(text@), ..old(self)@ }),
            final(self).config == old(self).config,
    {
        self.recent_apps = decode_names(text);
    }

    /// The score of a name for a query; see `search_score`.
    pub fn matches_search(&self, app_name: &str, query: &str) -> (r: Option<i64>)
        ensures
            r == search_score(app_name@, query@),
    {
        crate::score::matches_search(app_name, query)
    }

    /// The flat list, as positions in the catalog.
    pub fn flat_indices(&self) -> (r: Vec<usize>)
        ensures
            ints(r@) == flat_list(self@),
            forall|k: int| 0 <= k < r@.len() ==> #[trigger] r@[k] < self.apps@.len(),
    {
        let cands = if self.search_query.as_str().is_empty() && self.config.recent_first
            && self.recent_apps.len() > 0 {
            let mut front = live_recent_indices(&self.apps, &self.recent_apps);
            let mut rest = not_recent_indices(&self.apps, &self.recent_apps);
            let ghost a = front@;
            let ghost b = rest@;
            front.append(&mut rest);
            assert(ints(front@) =~= ints(a) + ints(b));
            front
        } else {
            all_indices(self.apps.len())
        };
        rank_candidates(&self.apps, &cands, self.search_query.as_str())
    }

    /// The entries of the flat list, in the order in which they are shown.
    pub fn visible_apps(&self) -> (r: Vec<&AppEntry>)
        ensures
            r@.len() == flat_list(self@).len(),
            forall|k: int|
                0 <= k < r@.len() ==> 0 <= flat_list(self@)[k] < self.apps@.len() && *(
                #[trigger] r@[k]) == self.apps@[flat_list(self@)[k]],
    {
        let order = self.flat_indices();
        let mut r: Vec<&AppEntry> = Vec::new();
        let mut i: usize = 0;
        while i < order.len()
            invariant
                i <= order.len(),
                r@.len() == i,
                forall|k: int| 0 <= k < order@.len() ==> #[trigger] order@[k] < self.apps@.len(),
                forall|k: int| 0 <= k < i ==> *(#[trigger] r@[k]) == self.apps@[order@[k] as int],
            decreases order.len() - i,
        {
            r.push(&self.apps[order[i]]);
            i = i + 1;
        }
        assert forall|k: int| 0 <= k < r@.len() implies 0 <= flat_list(self@)[k]
            < self.apps@.len() && *(#[trigger] r@[k]) == self.apps@[flat_list(self@)[k]] by {
            assert(ints(order@)[k] == order@[k]);
        }
        r
    }

    /// The positions of the candidates of a category.
    pub fn category_candidate_indices(&self, label: &str) -> (r: Vec<usize>)
        ensures
            ints(r@) == category_candidates(self@, label@),
            forall|k: int| 0 <= k < r@.len() ==> #[trigger] r@[k] < self.apps@.len(),
    {
        if text_eq(label, "Recent") {
            live_recent_indices(&self.apps, &self.recent_apps)
        } else {
            category_indices(&self.apps, label)
        }
    }

    /// Toggles the pane mode and takes the catalog of the new mode from
    /// `sources`. Both selections return to the first place and the leftmost
    /// list pane of the new mode gets the focus.
    pub fn toggle_mode(&mut self, sources: &Sources)
        ensures
            final(self)@ == after_toggle(
                old(self)@,
                catalog_for(other_mode(old(self).mode), old(self).single_pane_mode, *sources),
            ),
            final(self).config == old(self).config,
            !(old(self).mode == Mode::DualPane && old(self).single_pane_mode
                == SinglePaneMode::Dmenu) ==> crate::catalog::desktop_catalog_sound(
                final(self)@.categories,
                final(self)@.apps,
            ),
            cursor_in_query(old(self)@) ==> state_sound(final(self)@),
    {
        match self.mode {
            Mode::SinglePane => {
                let (categories, apps) = load_catalog(
                    Mode::DualPane,
                    self.single_pane_mode,
                    sources,
                );
                self.categories = categories;
                self.apps = apps;
                self.mode = Mode::DualPane;
                self.focus = Focus::Categories;
            },
            Mode::DualPane => {
                let (categories, apps) = load_catalog(
                    Mode::SinglePane,
                    self.single_pane_mode,
                    sources,
                );
                self.categories = categories;
                self.apps = apps;
                self.mode = Mode::SinglePane;
                self.focus = Focus::Apps;
            },
        }
        self.selected_category = 0;
        self.selected_app = 0;
    }
}

} // verus!
