//! The browser's key bindings: what each key does to the state, and what
//! the event loop does next.

use vstd::prelude::*;

use crate::tui::app::{
    coupling_view_name, detail_level_name, moved_down, moved_up, next_coupling_view,
    next_panel_of, other_detail_level, prev_panel_of, search_applied, selection_loaded,
    with_panel, App, AppView, Panel,
};

verus! {

/// A key the browser reads.
#[derive(Debug, Clone, Copy)]
pub enum Key {
    Enter,
    Esc,
    Backspace,
    Tab,
    BackTab,
    Up,
    Down,
    Left,
    Right,
    Char(char),
    /// Any other key.
    Other,
}

/// What the event loop does after a key: go on, stop, or read the sources
/// of the file whose coupling was just loaded and go on.
#[derive(Debug, Clone)]
pub enum KeyOutcome {
    Continue,
    Quit,
    LoadSources(String),
}

/// The path an outcome asks to read sources for.
pub open spec fn sources_asked(r: KeyOutcome) -> Option<Seq<char>> {
    match r {
        KeyOutcome::LoadSources(p) => Some(p@),
        _ => None,
    }
}

/// The panel that going back focuses.
pub open spec fn back_panel_of(p: Panel) -> Panel {
    match p {
        Panel::FileList => Panel::FileList,
        Panel::CouplingMap => Panel::FileList,
        Panel::Details => Panel::CouplingMap,
    }
}

/// What selecting the current item does: in the file list, the selected
/// file's coupling is loaded and the coupling map focused; in the coupling
/// map, the details are focused; in the details, the coupling map.
pub open spec fn item_selected(before: AppView, after: AppView, r: Option<Seq<char>>) -> bool {
    match before.active_panel {
        Panel::FileList => selection_loaded(before, with_panel(after, Panel::FileList), r)
            && after.active_panel == Panel::CouplingMap,
        Panel::CouplingMap => r is None && after == with_panel(before, Panel::Details),
        Panel::Details => r is None && after == with_panel(before, Panel::CouplingMap),
    }
}

/// The state with the search left: not searching, with an empty query, and
/// every file listed again.
pub open spec fn search_cancelled(v: AppView) -> AppView {
    AppView {
        searching: false,
        search_query: Seq::<char>::empty(),
        filtered_files: Seq::new(v.files.len(), |i: int| i as usize),
        ..v
    }
}

/// A key while searching: Enter applies the search and leaves it, Esc
/// leaves it with an empty query and every file listed, Backspace drops the query's last
/// character and a character is added to it, each applying the search;
/// other keys do nothing.
pub open spec fn search_key(before: AppView, key: Key, after: AppView, r: KeyOutcome) -> bool {
    match key {
        Key::Enter => !(r is Quit) && search_applied(
            AppView { searching: false, ..before },
            after,
            sources_asked(r),
        ),
        Key::Esc => r is Continue && after == search_cancelled(before),
        Key::Backspace => !(r is Quit) && search_applied(
            AppView {
                search_query: if before.search_query.len() > 0 {
                    before.search_query.drop_last()
                } else {
                    before.search_query
                },
                ..before
            },
            after,
            sources_asked(r),
        ),
        Key::Char(c) => !(r is Quit) && search_applied(
            AppView { search_query: before.search_query.push(c), ..before },
            after,
            sources_asked(r),
        ),
        _ => r is Continue && after == before,
    }
}

/// A character key outside a search: `q` quits, `j`, `k`, `l` and `h`
/// move down, up, in and back, `c` and `f` toggle the coupling view and
/// the detail level, `/` starts a search; other characters do nothing.
pub open spec fn char_key(before: AppView, c: char, after: AppView, r: KeyOutcome) -> bool {
    if c == 'q' {
        r is Quit && after == before
    } else if c == 'j' {
        !(r is Quit) && moved_down(before, after, sources_asked(r))
    } else if c == 'k' {
        !(r is Quit) && moved_up(before, after, sources_asked(r))
    } else if c == 'l' {
        !(r is Quit) && item_selected(before, after, sources_asked(r))
    } else if c == 'h' {
        r is Continue && after == with_panel(before, back_panel_of(before.active_panel))
    } else if c == 'c' {
        r is Continue && after == AppView {
            coupling_view: next_coupling_view(before.coupling_view),
            status_message: "Coupling view: "@ + coupling_view_name(
                next_coupling_view(before.coupling_view),
            ),
            ..before
        }
    } else if c == 'f' {
        r is Continue && after == AppView {
            detail_level: other_detail_level(before.detail_level),
            status_message: "Detail level: "@ + detail_level_name(
                other_detail_level(before.detail_level),
            ),
            ..before
        }
    } else if c == '/' {
        r is Continue && after == AppView {
            searching: true,
            search_query: Seq::<char>::empty(),
            status_message: "Search: (type to filter, Enter to confirm)"@,
            ..before
        }
    } else {
        r is Continue && after == before
    }
}

/// A key outside a search: Esc quits; the arrows move as `j`, `k`, `l` and
/// `h` do, Enter selects as `l` does; Tab and Shift-Tab focus the next and
/// the previous panel; other keys do nothing.
pub open spec fn browse_key(before: AppView, key: Key, after: AppView, r: KeyOutcome) -> bool {
    match key {
        Key::Esc => r is Quit && after == before,
        Key::Down => char_key(before, 'j', after, r),
        Key::Up => char_key(before, 'k', after, r),
        Key::Right => char_key(before, 'l', after, r),
        Key::Enter => char_key(before, 'l', after, r),
        Key::Left => char_key(before, 'h', after, r),
        Key::Tab => r is Continue && after == with_panel(before, next_panel_of(before.active_panel)),
        Key::BackTab => r is Continue && after == with_panel(
            before,
            prev_panel_of(before.active_panel),
        ),
        Key::Char(c) => char_key(before, c, after, r),
        _ => r is Continue && after == before,
    }
}

/// What a key does: as `search_key` while searching, else as `browse_key`.
pub open spec fn key_handled(before: AppView, key: Key, after: AppView, r: KeyOutcome) -> bool {
    if before.searching {
        search_key(before, key, after, r)
    } else {
        browse_key(before, key, after, r)
    }
}

/// While a search is open no key quits the browser: `q` is typed into the
/// query and Esc leaves the search.
pub proof fn law_search_keys_never_quit(before: AppView, key: Key, after: AppView, r: KeyOutcome)
    requires
        before.searching,
        key_handled(before, key, after, r),
    ensures
        !(r is Quit),
{
}

/// The outcome of an operation that may have loaded a file's coupling.
fn outcome_of(loaded: Option<String>) -> (r: KeyOutcome)
    ensures
        !(r is Quit),
        sources_asked(r) == match loaded {
            Some(p) => Some(p@),
            None => None::<Seq<char>>,
        },
{
    match loaded {
        Some(p) => KeyOutcome::LoadSources(p),
        None => KeyOutcome::Continue,
    }
}

impl App {
    /// Handles one key press (see `key_handled`).
    pub fn handle_key(&mut self, key: Key) -> (r: KeyOutcome)
        requires
            old(self).wf(),
        ensures
            final(self).wf(),
            key_handled(old(self)@, key, final(self)@, r),
    {
        if self.is_searching() {
            match key {
                Key::Enter => outcome_of(self.finish_search()),
                Key::Esc => {
                    self.cancel_search();
                    KeyOutcome::Continue
                },
                Key::Backspace => outcome_of(self.backspace_search()),
                Key::Char(c) => outcome_of(self.append_search(c)),
                _ => KeyOutcome::Continue,
            }
        } else {
            let c = match key {
                Key::Down => 'j',
                Key::Up => 'k',
                Key::Right => 'l',
                Key::Enter => 'l',
                Key::Left => 'h',
                Key::Char(c) => c,
                _ => ' ',
            };
            match key {
                Key::Esc => KeyOutcome::Quit,
                Key::Tab => {
                    self.next_panel();
                    KeyOutcome::Continue
                },
                Key::BackTab => {
                    self.prev_panel();
                    KeyOutcome::Continue
                },
                Key::Down | Key::Up | Key::Right | Key::Enter | Key::Left | Key::Char(_) => {
                    self.browse_char(c)
                },
                _ => KeyOutcome::Continue,
            }
        }
    }

    /// Leaves the search: an empty query and every file listed again.
    fn cancel_search(&mut self)
        requires
            old(self).wf(),
        ensures
            final(self).wf(),
            final(self)@ == search_cancelled(old(self)@),
    {
        self.searching = false;
        self.search_query = String::new();
        let mut all: Vec<usize> = Vec::new();
        let mut i: usize = 0;
        while i < self.files.len()
            invariant
                0 <= i <= self.files@.len(),
                all@ == Seq::new(i as nat, |k: int| k as usize),
            decreases self.files.len() - i,
        {
            all.push(i);
            assert(all@ =~= Seq::new((i + 1) as nat, |k: int| k as usize));
            i += 1;
        }
        self.filtered_files = all;
        assert(self@ =~= search_cancelled(old(self)@));
    }

    /// Handles a character key outside a search (see `char_key`).
    fn browse_char(&mut self, c: char) -> (r: KeyOutcome)
        requires
            old(self).wf(),
            !old(self)@.searching,
        ensures
            final(self).wf(),
            char_key(old(self)@, c, final(self)@, r),
    {
        if c == 'q' {
            KeyOutcome::Quit
        } else if c == 'j' {
            outcome_of(self.next_item())
        } else if c == 'k' {
            outcome_of(self.prev_item())
        } else if c == 'l' {
            outcome_of(self.select_item())
        } else if c == 'h' {
            self.go_back();
            KeyOutcome::Continue
        } else if c == 'c' {
            self.toggle_coupling_view();
            KeyOutcome::Continue
        } else if c == 'f' {
            self.toggle_function_view();
            KeyOutcome::Continue
        } else if c == '/' {
            self.start_search();
            KeyOutcome::Continue
        } else {
            KeyOutcome::Continue
        }
    }
}

} // verus!
