//! The state of the interactive browser: the file list and its selection,
//! the coupling data of the selected file, the view modes and the search.
//!
//! Reading sources from the repository is left to the caller: an operation
//! that selects a file loads its coupling from the store and returns the
//! file's path; the caller then reads the sources of the file and of its
//! coupled files and hands them to `apply_file_sources`.

use vstd::prelude::*;

use crate::analyzer::{
    def_views, detect_language, edge_views, extract_functions, risk_of, string_views, CallEdge, CallEdgeView, FunctionDef, FunctionDefView, RiskLevel,
};
use crate::analyzer::call_graph::{
    build_call_graph, call_graph_of, file_analyses, source_views,
};
use crate::analyzer::coupling::file_functions;
use crate::analyzer::languages::language_of_path;
use crate::db::{file_rows, function_rows, Database, DatabaseView};
use crate::db::keys::{is_count_ranking, is_key_coupling, key_count, lists_counted};
use crate::db::queries::{
    coupled_file_views, coupled_function_files, coupled_function_views, coupled_pair_views,
    file_level_name, is_pair_ranking, CoupledFile, CoupledFunction, CoupledPair,
};
use crate::db::summary::{file_entry_counts, file_entry_views, FileEntry};
use crate::git_engine::opt_chars;
use crate::ratio::Ratio;
use crate::text::{
    chars_of, contains_chars, decimal, decimal_string, has_infix, push_char, push_str,
    string_from_str, to_lowercase, lowered,
};

verus! {

broadcast use vstd::string::group_string_axioms;

// ─── View states ─────────────────────────────────────────────────────────────

/// Which panel is currently focused.
#[derive(Debug, Clone, Copy, PartialEq, Eq, Structural)]
pub enum Panel {
    FileList,
    CouplingMap,
    Details,
}

/// Which coupling view mode is active.
#[derive(Debug, Clone, Copy, PartialEq, Eq, Structural)]
pub enum CouplingView {
    Temporal,
    Static,
    Combined,
}

/// Which detail level is shown.
#[derive(Debug, Clone, Copy, PartialEq, Eq, Structural)]
pub enum DetailLevel {
    File,
    Function,
}

/// A list's selection.
#[derive(Debug, Clone, Copy, PartialEq, Eq, Structural)]
pub struct ListState {
    pub selected: Option<usize>,
    pub offset: usize,
}

impl ListState {
    /// No selection, at the top.
    pub fn new() -> (r: ListState)
        ensures
            r == (ListState { selected: None, offset: 0 }),
    {
        ListState { selected: None, offset: 0 }
    }

    /// Selects the given index, or nothing.
    pub fn select(&mut self, index: Option<usize>)
        ensures
            *final(self) == (ListState { selected: index, offset: old(self).offset }),
    {
        self.selected = index;
    }

    /// The selected index, if any.
    pub fn selected(&self) -> (r: Option<usize>)
        ensures
            r == self.selected,
    {
        self.selected
    }
}

// ─── The state ───────────────────────────────────────────────────────────────

/// The state of the interactive browser.
pub struct App {
    /// The coupling store
    pub database: Database,
    /// Repository path
    pub repo_path: String,
    /// All tracked files
    pub files: Vec<FileEntry>,
    /// Selection in the (filtered) file list
    pub file_list_state: ListState,
    /// Search query (empty = no search)
    pub search_query: String,
    /// Whether a search is being typed
    pub searching: bool,
    /// Indices into `files` of the files the search lets through
    pub filtered_files: Vec<usize>,
    /// Coupling results for the selected file
    pub coupled_files: Vec<CoupledFile>,
    /// Selection in the coupling list
    pub coupling_list_state: ListState,
    /// The most strongly coupled pairs
    pub top_pairs: Vec<CoupledPair>,
    /// Functions found in the selected file
    pub functions: Vec<FunctionDef>,
    /// Selection in the function list
    pub function_list_state: ListState,
    /// Function-level coupling results
    pub func_couplings: Vec<CoupledFunction>,
    /// Call edges among the selected file and its coupled files
    pub call_edges: Vec<CallEdge>,
    /// Focused panel
    pub active_panel: Panel,
    /// Coupling view mode
    pub coupling_view: CouplingView,
    /// Detail level
    pub detail_level: DetailLevel,
    /// Status message
    pub status_message: String,
    /// Whether the browser should quit
    pub quit: bool,
}

/// The value an `App` holds.
pub struct AppView {
    pub database: DatabaseView,
    pub repo_path: Seq<char>,
    pub files: Seq<(Seq<char>, usize, usize)>,
    pub file_list_state: ListState,
    pub search_query: Seq<char>,
    pub searching: bool,
    pub filtered_files: Seq<usize>,
    pub coupled_files: Seq<(Seq<char>, usize, Ratio)>,
    pub coupling_list_state: ListState,
    pub top_pairs: Seq<(Seq<char>, Seq<char>, usize, Ratio)>,
    pub functions: Seq<FunctionDefView>,
    pub function_list_state: ListState,
    pub func_couplings: Seq<((Seq<char>, Seq<char>), usize, Ratio)>,
    pub call_edges: Seq<CallEdgeView>,
    pub active_panel: Panel,
    pub coupling_view: CouplingView,
    pub detail_level: DetailLevel,
    pub status_message: Seq<char>,
    pub quit: bool,
}

impl View for App {
    type V = AppView;

    open spec fn view(&self) -> AppView {
        AppView {
            database: self.database@,
            repo_path: self.repo_path@,
            files: file_entry_views(self.files@),
            file_list_state: self.file_list_state,
            search_query: self.search_query@,
            searching: self.searching,
            filtered_files: self.filtered_files@,
            coupled_files: coupled_file_views(self.coupled_files@),
            coupling_list_state: self.coupling_list_state,
            top_pairs: coupled_pair_views(self.top_pairs@),
            functions: def_views(self.functions@),
            function_list_state: self.function_list_state,
            func_couplings: coupled_function_views(self.func_couplings@),
            call_edges: edge_views(self.call_edges@),
            active_panel: self.active_panel,
            coupling_view: self.coupling_view,
            detail_level: self.detail_level,
            status_message: self.status_message@,
            quit: self.quit,
        }
    }
}

/// The confidence below which couplings are not shown: one tenth.
pub open spec fn tenth() -> Ratio {
    Ratio { num: 1, den: 10 }
}

/// The state's invariant: a well-formed store, and a filtered list of
/// indices into the file list.
pub open spec fn app_wf(v: AppView) -> bool {
    &&& crate::db::well_formed(v.database)
    &&& forall|i: int| 0 <= i < v.filtered_files.len() ==> (#[trigger] v.filtered_files[i]) < v.files.len()
}

/// The path of the selected file, if the selection is on a file.
pub open spec fn selected_path(v: AppView) -> Option<Seq<char>> {
    match v.file_list_state.selected {
        Some(i) => if i < v.filtered_files.len() && v.filtered_files[i as int] < v.files.len() {
            Some(v.files[v.filtered_files[i as int] as int].0)
        } else {
            None
        },
        None => None,
    }
}

/// The state with the file selection moved.
pub open spec fn with_file_selection(v: AppView, selected: Option<usize>) -> AppView {
    AppView {
        file_list_state: ListState { selected: selected, offset: v.file_list_state.offset },
        ..v
    }
}

/// `after` is `before` with the coupling of the file at `p` loaded from the
/// store: the files coupled to it at one tenth, at most 20, the first of
/// them selected, or nothing where there are none.
pub open spec fn coupling_loaded(before: AppView, after: AppView, p: Seq<char>) -> bool {
    &&& is_key_coupling(
        file_rows(before.database),
        p,
        before.database.commits.len(),
        tenth(),
        20,
        after.coupled_files,
    )
    &&& after == AppView {
        coupled_files: after.coupled_files,
        coupling_list_state: ListState {
            selected: if after.coupled_files.len() > 0 {
                Some(0usize)
            } else {
                None
            },
            offset: before.coupling_list_state.offset,
        },
        functions: Seq::<FunctionDefView>::empty(),
        function_list_state: ListState { selected: None, offset: before.function_list_state.offset },
        func_couplings: Seq::<((Seq<char>, Seq<char>), usize, Ratio)>::empty(),
        call_edges: Seq::<CallEdgeView>::empty(),
        status_message: file_status(p, after.coupled_files.len(), 0, 0),
        ..before
    }
}

/// `after` is `before` with the coupling of the selected file loaded, and
/// `r` that file's path; or `after` is `before` and `r` is none where no
/// file is selected.
pub open spec fn selection_loaded(before: AppView, after: AppView, r: Option<Seq<char>>) -> bool {
    match selected_path(before) {
        Some(p) => r == Some(p) && coupling_loaded(before, after, p),
        None => r is None && after == before,
    }
}

/// The index after `selected` in a list of `len`, wrapping to the top.
pub open spec fn next_index(selected: Option<usize>, len: nat) -> usize {
    match selected {
        Some(i) => if i >= len - 1 {
            0
        } else {
            (i + 1) as usize
        },
        None => 0,
    }
}

/// The index before `selected` in a list of `len`, wrapping to the bottom.
pub open spec fn prev_index(selected: Option<usize>, len: nat) -> usize {
    match selected {
        Some(i) => if i == 0 {
            (len - 1) as usize
        } else {
            (i - 1) as usize
        },
        None => 0,
    }
}

/// The length of the list the coupling panel shows.
pub open spec fn coupling_panel_len(v: AppView) -> nat {
    match v.detail_level {
        DetailLevel::File => v.coupled_files.len(),
        DetailLevel::Function => v.functions.len(),
    }
}

/// The state with the coupling selection moved.
pub open spec fn with_coupling_selection(v: AppView, selected: usize) -> AppView {
    AppView {
        coupling_list_state: ListState { selected: Some(selected), offset: v.coupling_list_state.offset },
        ..v
    }
}

/// What moving down does: in the file list, the next file (wrapping) is
/// selected and its coupling loaded; in the coupling panel, the next entry
/// (wrapping) is selected; in the details, nothing.
pub open spec fn moved_down(before: AppView, after: AppView, r: Option<Seq<char>>) -> bool {
    match before.active_panel {
        Panel::FileList => if before.filtered_files.len() > 0 {
            selection_loaded(
                with_file_selection(
                    before,
                    Some(next_index(before.file_list_state.selected, before.filtered_files.len())),
                ),
                after,
                r,
            )
        } else {
            after == before && r is None
        },
        Panel::CouplingMap => r is None && if coupling_panel_len(before) > 0 {
            after == with_coupling_selection(
                before,
                next_index(before.coupling_list_state.selected, coupling_panel_len(before)),
            )
        } else {
            after == before
        },
        Panel::Details => after == before && r is None,
    }
}

/// What moving up does: as moving down, to the previous entry.
pub open spec fn moved_up(before: AppView, after: AppView, r: Option<Seq<char>>) -> bool {
    match before.active_panel {
        Panel::FileList => if before.filtered_files.len() > 0 {
            selection_loaded(
                with_file_selection(
                    before,
                    Some(prev_index(before.file_list_state.selected, before.filtered_files.len())),
                ),
                after,
                r,
            )
        } else {
            after == before && r is None
        },
        Panel::CouplingMap => r is None && if coupling_panel_len(before) > 0 {
            after == with_coupling_selection(
                before,
                prev_index(before.coupling_list_state.selected, coupling_panel_len(before)),
            )
        } else {
            after == before
        },
        Panel::Details => after == before && r is None,
    }
}

/// The state with another panel focused.
pub open spec fn with_panel(v: AppView, p: Panel) -> AppView {
    AppView { active_panel: p, ..v }
}

/// The panel after `p`, cycling.
pub open spec fn next_panel_of(p: Panel) -> Panel {
    match p {
        Panel::FileList => Panel::CouplingMap,
        Panel::CouplingMap => Panel::Details,
        Panel::Details => Panel::FileList,
    }
}

/// The panel before `p`, cycling.
pub open spec fn prev_panel_of(p: Panel) -> Panel {
    match p {
        Panel::FileList => Panel::Details,
        Panel::CouplingMap => Panel::FileList,
        Panel::Details => Panel::CouplingMap,
    }
}

/// The coupling view after `c`, cycling.
pub open spec fn next_coupling_view(c: CouplingView) -> CouplingView {
    match c {
        CouplingView::Temporal => CouplingView::Static,
        CouplingView::Static => CouplingView::Combined,
        CouplingView::Combined => CouplingView::Temporal,
    }
}

/// The name of a coupling view.
pub open spec fn coupling_view_name(c: CouplingView) -> Seq<char> {
    match c {
        CouplingView::Temporal => "Temporal"@,
        CouplingView::Static => "Static"@,
        CouplingView::Combined => "Combined"@,
    }
}

/// The other detail level.
pub open spec fn other_detail_level(d: DetailLevel) -> DetailLevel {
    match d {
        DetailLevel::File => DetailLevel::Function,
        DetailLevel::Function => DetailLevel::File,
    }
}

/// The name of a detail level.
pub open spec fn detail_level_name(d: DetailLevel) -> Seq<char> {
    match d {
        DetailLevel::File => "File"@,
        DetailLevel::Function => "Function"@,
    }
}

/// The file indices that a search with `query` lets through: all for an
/// empty query, else those whose lower-cased path contains the lower-cased
/// query, in order.
pub open spec fn search_matches(files: Seq<(Seq<char>, usize, usize)>, query: Seq<char>) -> Seq<usize>
    decreases files.len(),
{
    if files.len() == 0 {
        seq![]
    } else {
        let rest = search_matches(files.drop_last(), query);
        if query.len() == 0 || has_infix(
            lowered(files.last().0),
            lowered(query),
        ) {
            rest.push((files.len() - 1) as usize)
        } else {
            rest
        }
    }
}

/// The lower-cased paths of the files.
pub open spec fn lowered_paths(files: Seq<(Seq<char>, usize, usize)>) -> Seq<Seq<char>> {
    files.map_values(|f: (Seq<char>, usize, usize)| lowered(f.0))
}

/// The indices of the paths that contain `needle`, in order.
pub open spec fn infix_matches(paths: Seq<Seq<char>>, needle: Seq<char>) -> Seq<usize>
    decreases paths.len(),
{
    if paths.len() == 0 {
        seq![]
    } else {
        let rest = infix_matches(paths.drop_last(), needle);
        if has_infix(paths.last(), needle) {
            rest.push((paths.len() - 1) as usize)
        } else {
            rest
        }
    }
}

/// The indices of the (lower-cased) paths that contain the (lower-cased)
/// query, in order.
pub fn matching_paths(lowered_paths: &Vec<String>, lowered_query: &str) -> (r: Vec<usize>)
    ensures
        r@ == infix_matches(string_views(lowered_paths@), lowered_query@),
{
    let ghost paths = string_views(lowered_paths@);
    let query = chars_of(lowered_query);
    let mut r: Vec<usize> = Vec::new();
    let mut i: usize = 0;
    while i < lowered_paths.len()
        invariant
            0 <= i <= lowered_paths@.len(),
            paths == string_views(lowered_paths@),
            query@ == lowered_query@,
            r@ == infix_matches(paths.take(i as int), lowered_query@),
        decreases lowered_paths.len() - i,
    {
        assert(paths.take(i + 1).drop_last() =~= paths.take(i as int));
        assert(paths.take(i + 1).last() == lowered_paths@[i as int]@);
        if contains_chars(&chars_of(lowered_paths[i].as_str()), &query) {
            r.push(i);
        }
        i += 1;
    }
    assert(paths.take(paths.len() as int) =~= paths);
    r
}

/// A search with a non-empty query lets through the files whose lower-cased
/// path contains the lower-cased query.
proof fn lemma_search_is_infix(files: Seq<(Seq<char>, usize, usize)>, query: Seq<char>)
    requires
        query.len() > 0,
    ensures
        search_matches(files, query) == infix_matches(lowered_paths(files), lowered(query)),
    decreases files.len(),
{
    if files.len() > 0 {
        lemma_search_is_infix(files.drop_last(), query);
        assert(lowered_paths(files.drop_last()) =~= lowered_paths(files).drop_last());
    }
}

/// What applying the search does: the filtered list becomes the matches;
/// where there are some the first is selected and its coupling loaded,
/// else the selection is cleared.
pub open spec fn search_applied(before: AppView, after: AppView, r: Option<Seq<char>>) -> bool {
    let filtered = search_matches(before.files, before.search_query);
    let mid = AppView { filtered_files: filtered, ..before };
    if filtered.len() > 0 {
        selection_loaded(with_file_selection(mid, Some(0usize)), after, r)
    } else {
        after == with_file_selection(mid, None) && r is None
    }
}

/// The status line after a file's sources were applied.
pub open spec fn file_status(path: Seq<char>, coupled: nat, functions: nat, edges: nat) -> Seq<char> {
    path + " | "@ + decimal(coupled) + " coupled files | "@ + decimal(functions) + " functions | "@
        + decimal(edges) + " call edges"@
}

/// Whether an edge ties the coupled file at `coupled` to the file at
/// `selected`: a call from one of the two files into the other.
pub open spec fn ties(e: CallEdgeView, selected: Seq<char>, coupled: Seq<char>) -> bool {
    (e.caller_file == selected && e.callee_file == Some(coupled)) || (e.caller_file == coupled
        && e.callee_file == Some(selected))
}

/// Some edge ties the coupled file to the selected one.
pub open spec fn has_tie(edges: Seq<CallEdgeView>, selected: Seq<char>, coupled: Seq<char>) -> bool {
    exists|i: int| 0 <= i < edges.len() && ties(#[trigger] edges[i], selected, coupled)
}

/// The status line for a file (see `file_status`).
fn file_status_text(path: &str, coupled: usize, functions: usize, edges: usize) -> (r: String)
    ensures
        r@ == file_status(path@, coupled as nat, functions as nat, edges as nat),
{
    let mut msg = string_from_str(path);
    push_str(&mut msg, " | ");
    let c = decimal_string(coupled);
    push_str(&mut msg, c.as_str());
    push_str(&mut msg, " coupled files | ");
    let f = decimal_string(functions);
    push_str(&mut msg, f.as_str());
    push_str(&mut msg, " functions | ");
    let e = decimal_string(edges);
    push_str(&mut msg, e.as_str());
    push_str(&mut msg, " call edges");
    msg
}

/// The function-level coupling query's promise for `(path, name)` at one
/// tenth, at most 15 (see `query_function_temporal_coupling`).
pub open spec fn function_coupling_loaded(
    d: DatabaseView,
    path: Seq<char>,
    name: Seq<char>,
    r: Seq<((Seq<char>, Seq<char>), usize, Ratio)>,
) -> bool {
    let files = r.map_values(|x: ((Seq<char>, Seq<char>), usize, Ratio)| (x.0.0, x.1, x.2));
    &&& key_count(function_rows(d), (path, name), d.commits.len()) > 0 ==> is_key_coupling(
        function_rows(d),
        (path, name),
        d.commits.len(),
        tenth(),
        15,
        r,
    )
    &&& key_count(function_rows(d), (path, name), d.commits.len()) == 0 ==> is_key_coupling(
        file_rows(d),
        path,
        d.commits.len(),
        tenth(),
        15,
        files,
    ) && forall|i: int| 0 <= i < r.len() ==> (#[trigger] r[i]).0.1 == file_level_name()
}

impl App {
    /// The state's invariant.
    pub open spec fn wf(&self) -> bool {
        app_wf(self@)
    }

    /// A browser over a store and a repository: no files loaded, the file
    /// list focused, the combined view at file level.
    pub fn new(database: Database, repo_path: String) -> (r: App)
        requires
            database.wf(),
        ensures
            r.wf(),
            r@.database == database@,
            r@.repo_path == repo_path@,
            r@.files.len() == 0,
            r@.filtered_files.len() == 0,
            r@.file_list_state == ListState::new_spec(),
            r@.search_query.len() == 0,
            !r@.searching,
            r@.coupled_files.len() == 0,
            r@.coupling_list_state == ListState::new_spec(),
            r@.top_pairs.len() == 0,
            r@.functions.len() == 0,
            r@.function_list_state == ListState::new_spec(),
            r@.func_couplings.len() == 0,
            r@.call_edges.len() == 0,
            r@.active_panel == Panel::FileList,
            r@.coupling_view == CouplingView::Combined,
            r@.detail_level == DetailLevel::File,
            r@.status_message == "Press q to quit, j/k to navigate, Enter to select, Tab to switch panels"@,
            !r@.quit,
    {
        App {
            database,
            repo_path,
            files: Vec::new(),
            file_list_state: ListState::new(),
            search_query: String::new(),
            searching: false,
            filtered_files: Vec::new(),
            coupled_files: Vec::new(),
            coupling_list_state: ListState::new(),
            top_pairs: Vec::new(),
            functions: Vec::new(),
            function_list_state: ListState::new(),
            func_couplings: Vec::new(),
            call_edges: Vec::new(),
            active_panel: Panel::FileList,
            coupling_view: CouplingView::Combined,
            detail_level: DetailLevel::File,
            status_message: string_from_str(
                "Press q to quit, j/k to navigate, Enter to select, Tab to switch panels",
            ),
            quit: false,
        }
    }
}

impl ListState {
    /// No selection, at the top.
    pub open spec fn new_spec() -> ListState {
        ListState { selected: None, offset: 0 }
    }
}


impl App {
    /// Loads the file list (all tracked files, by descending number of
    /// commits, all let through and the first selected where there are
    /// any) and the 20 most strongly coupled pairs at one tenth with at
    /// least 3 co-changes.
    pub fn load_data(&mut self)
        requires
            old(self).wf(),
        ensures
            final(self).wf(),
            is_count_ranking(
                file_rows(old(self)@.database),
                old(self)@.database.commits.len(),
                final(self)@.files.len(),
                file_entry_counts(final(self).files@),
            ),
            forall|p: Seq<char>|
                key_count(file_rows(old(self)@.database), p, old(self)@.database.commits.len()) > 0
                    ==> lists_counted(file_entry_counts(final(self).files@), p),
            final(self)@.filtered_files == Seq::new(
                final(self)@.files.len(),
                |i: int| i as usize,
            ),
            final(self)@.file_list_state == (if final(self)@.files.len() > 0 {
                ListState { selected: Some(0usize), offset: old(self)@.file_list_state.offset }
            } else {
                old(self)@.file_list_state
            }),
            is_pair_ranking(
                file_rows(old(self)@.database),
                old(self)@.database.commits.len(),
                tenth(),
                3,
                20,
                final(self)@.top_pairs,
            ),
            final(self)@ == (AppView {
                files: final(self)@.files,
                filtered_files: final(self)@.filtered_files,
                file_list_state: final(self)@.file_list_state,
                top_pairs: final(self)@.top_pairs,
                ..old(self)@
            }),
    {
        self.files = self.database.list_files();
        let mut filtered: Vec<usize> = Vec::new();
        let mut i: usize = 0;
        while i < self.files.len()
            invariant
                0 <= i <= self.files@.len(),
                filtered@ == Seq::new(i as nat, |k: int| k as usize),
            decreases self.files.len() - i,
        {
            filtered.push(i);
            assert(filtered@ =~= Seq::new((i + 1) as nat, |k: int| k as usize));
            i += 1;
        }
        self.filtered_files = filtered;
        if self.filtered_files.len() > 0 {
            self.file_list_state.select(Some(0));
        }
        self.top_pairs = self.database.query_top_coupled_pairs(20, Ratio::new(1, 10), 3);
    }

    /// Loads the coupling of the file at `file_path` from the store (see
    /// `coupling_loaded`).
    pub fn load_file_coupling(&mut self, file_path: &str)
        requires
            old(self).wf(),
        ensures
            final(self).wf(),
            coupling_loaded(old(self)@, final(self)@, file_path@),
    {
        let coupled = self.database.query_temporal_coupling(file_path, Ratio::new(1, 10), 20);
        let found = coupled.len() > 0;
        let n = coupled.len();
        self.coupled_files = coupled;
        if found {
            self.coupling_list_state.select(Some(0));
        } else {
            self.coupling_list_state.select(None);
        }
        assert(self@.files == old(self)@.files);
        assert(self@.filtered_files == old(self)@.filtered_files);
        self.clear_file_functions();
        self.status_message = file_status_text(file_path, n, 0, 0);
    }

    /// Loads the coupling of the selected file, if a file is selected, and
    /// returns its path (see `selection_loaded`).
    fn on_file_selected(&mut self) -> (r: Option<String>)
        requires
            old(self).wf(),
        ensures
            final(self).wf(),
            selection_loaded(old(self)@, final(self)@, opt_chars(r)),
    {
        match self.get_selected_file() {
            Some(path) => {
                self.load_file_coupling(path.as_str());
                Some(path)
            },
            None => None,
        }
    }

    /// Moves the selection down (see `moved_down`); returns the path of a
    /// newly selected file, whose sources the caller then reads.
    pub fn next_item(&mut self) -> (r: Option<String>)
        requires
            old(self).wf(),
        ensures
            final(self).wf(),
            moved_down(old(self)@, final(self)@, opt_chars(r)),
    {
        match self.active_panel {
            Panel::FileList => {
                let len = self.filtered_files.len();
                if len > 0 {
                    let i = match self.file_list_state.selected() {
                        Some(i) => if i >= len - 1 {
                            0
                        } else {
                            i + 1
                        },
                        None => 0,
                    };
                    self.file_list_state.select(Some(i));
                    assert(self@.files == old(self)@.files);
                    assert(self@.filtered_files == old(self)@.filtered_files);
                    self.on_file_selected()
                } else {
                    None
                }
            },
            Panel::CouplingMap => {
                let len = match self.detail_level {
                    DetailLevel::File => self.coupled_files.len(),
                    DetailLevel::Function => self.functions.len(),
                };
                if len > 0 {
                    let i = match self.coupling_list_state.selected() {
                        Some(i) => if i >= len - 1 {
                            0
                        } else {
                            i + 1
                        },
                        None => 0,
                    };
                    self.coupling_list_state.select(Some(i));
                }
                None
            },
            Panel::Details => None,
        }
    }

    /// Moves the selection up (see `moved_up`); returns the path of a newly
    /// selected file, whose sources the caller then reads.
    pub fn prev_item(&mut self) -> (r: Option<String>)
        requires
            old(self).wf(),
        ensures
            final(self).wf(),
            moved_up(old(self)@, final(self)@, opt_chars(r)),
    {
        match self.active_panel {
            Panel::FileList => {
                let len = self.filtered_files.len();
                if len > 0 {
                    let i = match self.file_list_state.selected() {
                        Some(i) => if i == 0 {
                            len - 1
                        } else {
                            i - 1
                        },
                        None => 0,
                    };
                    self.file_list_state.select(Some(i));
                    assert(self@.files == old(self)@.files);
                    assert(self@.filtered_files == old(self)@.filtered_files);
                    self.on_file_selected()
                } else {
                    None
                }
            },
            Panel::CouplingMap => {
                let len = match self.detail_level {
                    DetailLevel::File => self.coupled_files.len(),
                    DetailLevel::Function => self.functions.len(),
                };
                if len > 0 {
                    let i = match self.coupling_list_state.selected() {
                        Some(i) => if i == 0 {
                            len - 1
                        } else {
                            i - 1
                        },
                        None => 0,
                    };
                    self.coupling_list_state.select(Some(i));
                }
                None
            },
            Panel::Details => None,
        }
    }

    /// Enter: in the file list, loads the selected file's coupling and
    /// focuses the coupling panel; from the coupling panel goes to the
    /// details, and from the details back.
    pub fn select_item(&mut self) -> (r: Option<String>)
        requires
            old(self).wf(),
        ensures
            final(self).wf(),
            old(self)@.active_panel == Panel::FileList ==> selection_loaded(
                old(self)@,
                with_panel(final(self)@, Panel::FileList),
                opt_chars(r),
            ) && final(self)@.active_panel == Panel::CouplingMap,
            old(self)@.active_panel == Panel::CouplingMap ==> r is None && final(self)@
                == with_panel(old(self)@, Panel::Details),
            old(self)@.active_panel == Panel::Details ==> r is None && final(self)@ == with_panel(
                old(self)@,
                Panel::CouplingMap,
            ),
    {
        match self.active_panel {
            Panel::FileList => {
                let r = self.on_file_selected();
                self.active_panel = Panel::CouplingMap;
                r
            },
            Panel::CouplingMap => {
                self.active_panel = Panel::Details;
                None
            },
            Panel::Details => {
                self.active_panel = Panel::CouplingMap;
                None
            },
        }
    }

    /// Escape: from the details back to the coupling panel, from there to
    /// the file list.
    pub fn go_back(&mut self)
        ensures
            final(self)@ == with_panel(
                old(self)@,
                match old(self)@.active_panel {
                    Panel::FileList => Panel::FileList,
                    Panel::CouplingMap => Panel::FileList,
                    Panel::Details => Panel::CouplingMap,
                },
            ),
    {
        match self.active_panel {
            Panel::FileList => {},
            Panel::CouplingMap => {
                self.active_panel = Panel::FileList;
            },
            Panel::Details => {
                self.active_panel = Panel::CouplingMap;
            },
        }
    }

    /// Focuses the next panel, cycling.
    pub fn next_panel(&mut self)
        ensures
            final(self)@ == with_panel(old(self)@, next_panel_of(old(self)@.active_panel)),
    {
        self.active_panel = match self.active_panel {
            Panel::FileList => Panel::CouplingMap,
            Panel::CouplingMap => Panel::Details,
            Panel::Details => Panel::FileList,
        };
    }

    /// Focuses the previous panel, cycling.
    pub fn prev_panel(&mut self)
        ensures
            final(self)@ == with_panel(old(self)@, prev_panel_of(old(self)@.active_panel)),
    {
        self.active_panel = match self.active_panel {
            Panel::FileList => Panel::Details,
            Panel::CouplingMap => Panel::FileList,
            Panel::Details => Panel::CouplingMap,
        };
    }

    /// Cycles the coupling view, and says which it is.
    pub fn toggle_coupling_view(&mut self)
        ensures
            final(self)@ == (AppView {
                coupling_view: next_coupling_view(old(self)@.coupling_view),
                status_message: "Coupling view: "@ + coupling_view_name(
                    next_coupling_view(old(self)@.coupling_view),
                ),
                ..old(self)@
            }),
    {
        self.coupling_view = match self.coupling_view {
            CouplingView::Temporal => CouplingView::Static,
            CouplingView::Static => CouplingView::Combined,
            CouplingView::Combined => CouplingView::Temporal,
        };
        let mut msg = string_from_str("Coupling view: ");
        match self.coupling_view {
            CouplingView::Temporal => push_str(&mut msg, "Temporal"),
            CouplingView::Static => push_str(&mut msg, "Static"),
            CouplingView::Combined => push_str(&mut msg, "Combined"),
        }
        self.status_message = msg;
    }

    /// Switches between file and function detail, and says which it is.
    pub fn toggle_function_view(&mut self)
        ensures
            final(self)@ == (AppView {
                detail_level: other_detail_level(old(self)@.detail_level),
                status_message: "Detail level: "@ + detail_level_name(
                    other_detail_level(old(self)@.detail_level),
                ),
                ..old(self)@
            }),
    {
        self.detail_level = match self.detail_level {
            DetailLevel::File => DetailLevel::Function,
            DetailLevel::Function => DetailLevel::File,
        };
        let mut msg = string_from_str("Detail level: ");
        match self.detail_level {
            DetailLevel::File => push_str(&mut msg, "File"),
            DetailLevel::Function => push_str(&mut msg, "Function"),
        }
        self.status_message = msg;
    }

    /// Starts typing a search: an empty query, and a prompt.
    pub fn start_search(&mut self)
        ensures
            final(self)@ == (AppView {
                searching: true,
                search_query: Seq::<char>::empty(),
                status_message: "Search: (type to filter, Enter to confirm)"@,
                ..old(self)@
            }),
    {
        self.searching = true;
        self.search_query = String::new();
        self.status_message = string_from_str("Search: (type to filter, Enter to confirm)");
    }

    /// Ends typing a search and applies it (see `search_applied`).
    pub fn finish_search(&mut self) -> (r: Option<String>)
        requires
            old(self).wf(),
        ensures
            final(self).wf(),
            search_applied(AppView { searching: false, ..old(self)@ }, final(self)@, opt_chars(r)),
    {
        self.searching = false;
        self.apply_search()
    }

    /// Adds a character to the query and applies it.
    pub fn append_search(&mut self, c: char) -> (r: Option<String>)
        requires
            old(self).wf(),
        ensures
            final(self).wf(),
            search_applied(
                AppView { search_query: old(self)@.search_query.push(c), ..old(self)@ },
                final(self)@,
                opt_chars(r),
            ),
    {
        push_char(&mut self.search_query, c);
        self.apply_search()
    }

    /// Removes the last character of the query (if any) and applies it.
    pub fn backspace_search(&mut self) -> (r: Option<String>)
        requires
            old(self).wf(),
        ensures
            final(self).wf(),
            search_applied(
                AppView {
                    search_query: if old(self)@.search_query.len() > 0 {
                        old(self)@.search_query.drop_last()
                    } else {
                        old(self)@.search_query
                    },
                    ..old(self)@
                },
                final(self)@,
                opt_chars(r),
            ),
    {
        let chars = chars_of(self.search_query.as_str());
        if chars.len() > 0 {
            let shorter = crate::text::string_of_range(&chars, 0, chars.len() - 1);
            assert(chars@.subrange(0, chars@.len() - 1) =~= chars@.drop_last());
            self.search_query = shorter;
        }
        self.apply_search()
    }

    /// Whether a search is being typed.
    pub fn is_searching(&self) -> (r: bool)
        ensures
            r == self@.searching,
    {
        self.searching
    }

    /// Filters the file list by the query (see `search_applied`).
    fn apply_search(&mut self) -> (r: Option<String>)
        requires
            old(self).wf(),
        ensures
            final(self).wf(),
            search_applied(old(self)@, final(self)@, opt_chars(r)),
    {
        let empty = self.search_query.as_str().unicode_len() == 0;
        let ghost files = self@.files;
        let mut filtered: Vec<usize> = Vec::new();
        if empty {
            let mut i: usize = 0;
            while i < self.files.len()
                invariant
                    0 <= i <= self.files@.len(),
                    files == self@.files,
                    self@.search_query.len() == 0,
                    filtered@ == search_matches(files.take(i as int), self@.search_query),
                decreases self.files.len() - i,
            {
                assert(files.take(i + 1).drop_last() =~= files.take(i as int));
                filtered.push(i);
                i += 1;
            }
        } else {
            let query = to_lowercase(self.search_query.as_str());
            let mut lowered: Vec<String> = Vec::new();
            let mut i: usize = 0;
            while i < self.files.len()
                invariant
                    0 <= i <= self.files@.len(),
                    files == self@.files,
                    string_views(lowered@) == lowered_paths(files).take(i as int),
                decreases self.files.len() - i,
            {
                assert(files[i as int].0 == self.files@[i as int].file_path@);
                let ghost before = string_views(lowered@);
                let path = to_lowercase(self.files[i].file_path.as_str());
                lowered.push(path);
                assert(string_views(lowered@) =~= before.push(path@));
                assert(string_views(lowered@) =~= lowered_paths(files).take(i + 1));
                i += 1;
            }
            assert(lowered_paths(files).take(files.len() as int) =~= lowered_paths(files));
            filtered = matching_paths(&lowered, query.as_str());
            proof {
                lemma_search_is_infix(files, self@.search_query);
            }
        }
        assert(files.take(files.len() as int) =~= files);
        let ghost mid = AppView { filtered_files: filtered@, ..self@ };
        proof {
            assert forall|k: int| 0 <= k < filtered@.len() implies (#[trigger] filtered@[k]) < files.len() by {
                lemma_search_matches_bound(files, self@.search_query, k);
            }
        }
        self.filtered_files = filtered;
        assert(self@ == mid);
        if self.filtered_files.len() > 0 {
            self.file_list_state.select(Some(0));
            self.on_file_selected()
        } else {
            self.file_list_state.select(None);
            None
        }
    }

    /// Takes the sources read for the file whose coupling was just loaded:
    /// `target_source` is its source (none where it could not be read) and
    /// `coupled_sources` the `(path, source)` of each of its coupled files
    /// that could be read. Where the file's source is there and its
    /// language known, the file's functions are extracted (none where the
    /// parse fails), the first is selected and the function-level coupling
    /// of the first loaded at one tenth, at most 15, and the call graph of
    /// the file and its coupled files is built. The status line then gives
    /// the path and the numbers of coupled files, functions and call edges.
    pub fn apply_file_sources(
        &mut self,
        file_path: &str,
        target_source: Option<String>,
        coupled_sources: Vec<(String, String)>,
    )
        requires
            old(self).wf(),
        ensures
            final(self).wf(),
            match target_source {
                Some(src) => if language_of_path(file_path@) is Some {
                    &&& final(self)@.functions == file_functions(file_path@, src@)
                    &&& final(self)@.function_list_state == ListState {
                        selected: if final(self)@.functions.len() > 0 {
                            Some(0usize)
                        } else {
                            None
                        },
                        offset: old(self)@.function_list_state.offset,
                    }
                    &&& final(self)@.functions.len() > 0 ==> function_coupling_loaded(
                        old(self)@.database,
                        file_path@,
                        final(self)@.functions[0].name,
                        final(self)@.func_couplings,
                    )
                    &&& final(self)@.functions.len() == 0 ==> final(self)@.func_couplings.len()
                        == 0
                    &&& final(self)@.call_edges == call_graph_of(
                        file_analyses(seq![(file_path@, src@)] + source_views(coupled_sources@)),
                    )
                } else {
                    &&& final(self)@.functions.len() == 0
                    &&& final(self)@.function_list_state == (ListState {
                        selected: None,
                        offset: old(self)@.function_list_state.offset,
                    })
                    &&& final(self)@.func_couplings.len() == 0
                    &&& final(self)@.call_edges.len() == 0
                },
                None => {
                    &&& final(self)@.functions.len() == 0
                    &&& final(self)@.function_list_state == (ListState {
                        selected: None,
                        offset: old(self)@.function_list_state.offset,
                    })
                    &&& final(self)@.func_couplings.len() == 0
                    &&& final(self)@.call_edges.len() == 0
                },
            },
            final(self)@.status_message == file_status(
                file_path@,
                old(self)@.coupled_files.len(),
                final(self)@.functions.len(),
                final(self)@.call_edges.len(),
            ),
            final(self)@ == (AppView {
                functions: final(self)@.functions,
                function_list_state: final(self)@.function_list_state,
                func_couplings: final(self)@.func_couplings,
                call_edges: final(self)@.call_edges,
                status_message: final(self)@.status_message,
                ..old(self)@
            }),
    {
        self.clear_file_functions();
        match target_source {
            Some(source) => {
                if detect_language(file_path).is_some() {
                    self.functions = match extract_functions(file_path, source.as_str()) {
                        Ok(fs) => fs,
                        Err(_) => Vec::new(),
                    };
                    proof {
                        if def_views(self.functions@).len() > 0 {
                            assert(self.functions@.len() > 0);
                        }
                    }
                    if self.functions.len() > 0 {
                        self.function_list_state.select(Some(0));
                        let name = self.functions[0].name.clone();
                        assert(name@ == def_views(self.functions@)[0].name);
                        let fc = self.database.query_function_temporal_coupling(
                            file_path,
                            name.as_str(),
                            Ratio::new(1, 10),
                            15,
                        );
                        proof {
                            assert(coupled_function_views(fc@).map_values(
                                |x: ((Seq<char>, Seq<char>), usize, Ratio)| (x.0.0, x.1, x.2),
                            ) =~= coupled_function_files(fc@));
                        }
                        self.func_couplings = fc;
                    }
                    let ghost source_view = source@;
                    let mut files: Vec<(String, String)> = Vec::new();
                    files.push((string_from_str(file_path), source));
                    assert(source_views(files@)[0] == (file_path@, source_view));
                    let mut k: usize = 0;
                    while k < coupled_sources.len()
                        invariant
                            0 <= k <= coupled_sources@.len(),
                            files@.len() == k + 1,
                            source_views(files@) == seq![(file_path@, source_view)]
                                + source_views(coupled_sources@).take(k as int),
                        decreases coupled_sources.len() - k,
                    {
                        let (p, src) = &coupled_sources[k];
                        let ghost before = source_views(files@);
                        files.push((p.clone(), src.clone()));
                        assert(source_views(files@) =~= before.push((p@, src@)));
                        assert(source_views(coupled_sources@).take(k + 1) =~= source_views(
                            coupled_sources@,
                        ).take(k as int).push((p@, src@)));
                        k += 1;
                    }
                    assert(source_views(coupled_sources@).take(coupled_sources@.len() as int)
                        =~= source_views(coupled_sources@));
                    assert(source_views(files@) =~= seq![(file_path@, source_view)] + source_views(
                        coupled_sources@,
                    ));
                    self.call_edges = match build_call_graph(&files) {
                        Ok(edges) => edges,
                        Err(_) => Vec::new(),
                    };
                }
            },
            None => {},
        }
        self.status_message = file_status_text(
            file_path,
            self.coupled_files.len(),
            self.functions.len(),
            self.call_edges.len(),
        );
    }

    /// Clears the functions of the selected file, their selection, their
    /// coupling and the call edges.
    fn clear_file_functions(&mut self)
        requires
            old(self).wf(),
        ensures
            final(self).wf(),
            final(self)@ == (AppView {
                functions: Seq::<FunctionDefView>::empty(),
                function_list_state: ListState {
                    selected: None,
                    offset: old(self)@.function_list_state.offset,
                },
                func_couplings: Seq::<((Seq<char>, Seq<char>), usize, Ratio)>::empty(),
                call_edges: Seq::<CallEdgeView>::empty(),
                ..old(self)@
            }),
    {
        self.functions = Vec::new();
        self.function_list_state.select(None);
        self.func_couplings = Vec::new();
        self.call_edges = Vec::new();
        assert(def_views(self.functions@) =~= Seq::<FunctionDefView>::empty());
        assert(coupled_function_views(self.func_couplings@) =~= Seq::<((Seq<char>, Seq<char>), usize, Ratio)>::empty());
        assert(edge_views(self.call_edges@) =~= Seq::<CallEdgeView>::empty());
    }

    /// Whether the browser should quit.
    pub fn should_quit(&self) -> (r: bool)
        ensures
            r == self@.quit,
    {
        self.quit
    }

    /// The path of the selected file, if the selection is on a file.
    pub fn get_selected_file(&self) -> (r: Option<String>)
        ensures
            opt_chars(r) == selected_path(self@),
    {
        match self.file_list_state.selected() {
            Some(idx) => {
                if idx < self.filtered_files.len() {
                    let file_idx = self.filtered_files[idx];
                    if file_idx < self.files.len() {
                        return Some(self.files[file_idx].file_path.clone());
                    }
                }
                None
            },
            None => None,
        }
    }

    /// The selected coupled file, if the selection is on one.
    pub fn get_selected_coupled_file(&self) -> (r: Option<&CoupledFile>)
        ensures
            match self@.coupling_list_state.selected {
                Some(i) => if i < self.coupled_files@.len() {
                    r == Some(&self.coupled_files@[i as int])
                } else {
                    r is None
                },
                None => r is None,
            },
    {
        match self.coupling_list_state.selected() {
            Some(idx) => {
                if idx < self.coupled_files.len() {
                    Some(&self.coupled_files[idx])
                } else {
                    None
                }
            },
            None => None,
        }
    }

    /// The risk of a coupled file: static where some call edge ties it to
    /// the selected file (see `ties`; an empty path stands for the selected
    /// file where none is selected), classified with its confidence.
    pub fn get_risk_for_coupled(&self, coupled: &CoupledFile) -> (r: RiskLevel)
        ensures
            r == risk_of(
                has_tie(
                    self@.call_edges,
                    match selected_path(self@) {
                        Some(p) => p,
                        None => Seq::<char>::empty(),
                    },
                    coupled.file_path@,
                ),
                coupled.confidence,
            ),
    {
        let selected = match self.get_selected_file() {
            Some(p) => p,
            None => String::new(),
        };
        let mut has_static = false;
        let mut i: usize = 0;
        while i < self.call_edges.len()
            invariant
                0 <= i <= self.call_edges@.len(),
                has_static == exists|j: int|
                    0 <= j < i && ties(
                        #[trigger] edge_views(self.call_edges@)[j],
                        selected@,
                        coupled.file_path@,
                    ),
            decreases self.call_edges.len() - i,
        {
            let e = &self.call_edges[i];
            assert(edge_views(self.call_edges@)[i as int] == e@);
            let into = e.caller_file == selected && match &e.callee_file {
                Some(f) => *f == coupled.file_path,
                None => false,
            };
            let from = e.caller_file == coupled.file_path && match &e.callee_file {
                Some(f) => *f == selected,
                None => false,
            };
            if into || from {
                has_static = true;
            }
            i += 1;
        }
        crate::analyzer::classify_risk(has_static, coupled.confidence)
    }
}

// ─── Laws ────────────────────────────────────────────────────────────────────

/// Moving down and then up in a list returns to the same entry, and so does
/// moving up and then down.
pub proof fn law_down_up_restores(i: usize, len: nat)
    requires
        i < len,
        len <= usize::MAX,
    ensures
        prev_index(Some(next_index(Some(i), len)), len) == i,
        next_index(Some(prev_index(Some(i), len)), len) == i,
{
}

/// Focus cycles through the three panels: the previous panel's next is the
/// panel itself, and three moves forward come back.
pub proof fn law_panels_cycle(p: Panel)
    ensures
        next_panel_of(prev_panel_of(p)) == p,
        prev_panel_of(next_panel_of(p)) == p,
        next_panel_of(next_panel_of(next_panel_of(p))) == p,
{
}

/// Toggling the detail level twice, or the coupling view three times,
/// changes nothing.
pub proof fn law_toggles_return(d: DetailLevel, c: CouplingView)
    ensures
        other_detail_level(other_detail_level(d)) == d,
        next_coupling_view(next_coupling_view(next_coupling_view(c))) == c,
{
}

/// An empty query lets every file through, in order.
pub proof fn law_empty_search_keeps_all(files: Seq<(Seq<char>, usize, usize)>)
    requires
        files.len() <= usize::MAX,
    ensures
        search_matches(files, Seq::<char>::empty()) == Seq::new(files.len(), |i: int| i as usize),
    decreases files.len(),
{
    if files.len() > 0 {
        law_empty_search_keeps_all(files.drop_last());
        assert(search_matches(files, Seq::<char>::empty()) =~= Seq::new(
            files.len(),
            |i: int| i as usize,
        ));
    } else {
        assert(search_matches(files, Seq::<char>::empty()) =~= Seq::new(
            files.len(),
            |i: int| i as usize,
        ));
    }
}

/// A search lets through exactly the files whose lower-cased path contains
/// the lower-cased query, each once and in order.
pub proof fn law_search_lets_through_matches(files: Seq<(Seq<char>, usize, usize)>, query: Seq<char>)
    requires
        files.len() <= usize::MAX,
        query.len() > 0,
    ensures
        forall|k: int|
            0 <= k < files.len() ==> (search_matches(files, query).contains(k as usize) <==> has_infix(
                lowered(files[k].0),
                lowered(query),
            )),
        forall|a: int, b: int|
            0 <= a < b < search_matches(files, query).len() ==> search_matches(files, query)[a]
                < search_matches(files, query)[b],
    decreases files.len(),
{
    if files.len() > 0 {
        let prev = files.drop_last();
        law_search_lets_through_matches(prev, query);
        let rest = search_matches(prev, query);
        let all = search_matches(files, query);
        let last = (files.len() - 1) as usize;
        assert forall|j: int| 0 <= j < rest.len() implies rest[j] < last by {
            lemma_search_matches_bound(prev, query, j);
        }
        assert forall|k: int|
            0 <= k < files.len() implies (all.contains(k as usize) <==> has_infix(
                lowered(files[k].0),
                lowered(query),
            )) by {
            if k < files.len() - 1 {
                assert(prev[k] == files[k]);
                if all.contains(k as usize) {
                    let j = choose|j: int| 0 <= j < all.len() && all[j] == k as usize;
                    if j < rest.len() {
                        assert(rest[j] == k as usize);
                    }
                }
                if rest.contains(k as usize) {
                    let j = choose|j: int| 0 <= j < rest.len() && rest[j] == k as usize;
                    assert(all[j] == k as usize);
                }
            } else {
                if all.contains(k as usize) {
                    let j = choose|j: int| 0 <= j < all.len() && all[j] == k as usize;
                    if j < rest.len() {
                        assert(rest[j] < last);
                    }
                }
                if has_infix(lowered(files[k].0), lowered(query)) {
                    assert(all[all.len() - 1] == k as usize);
                }
            }
        }
    }
}

/// Every index the search lets through is an index of the file list.
proof fn lemma_search_matches_bound(files: Seq<(Seq<char>, usize, usize)>, query: Seq<char>, k: int)
    requires
        0 <= k < search_matches(files, query).len(),
    ensures
        search_matches(files, query)[k] < files.len(),
    decreases files.len(),
{
    if files.len() > 0 {
        let rest = search_matches(files.drop_last(), query);
        if k < rest.len() {
            lemma_search_matches_bound(files.drop_last(), query, k);
        }
    }
}

} // verus!
