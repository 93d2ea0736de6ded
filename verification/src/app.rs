//! The browser as a state machine: a key comes in, the state moves on, and an
//! [`Action`] says what the caller is to do before the next key.

use vstd::prelude::*;
use crate::action::{activation, activation_of, ascent, Action, ActionView, TARGET_EXTENSION};
use crate::list::{ListView, StatefulList};
use crate::paths::{extension, join};
use crate::paths::parent_of;
use crate::scanner::{listing, read_files_with_extension, read_subdirectories, Scan, ScanView};

verus! {

/// A key as the browser tells keys apart.
#[derive(Clone, Copy, Debug, PartialEq, Eq)]
pub enum Key {
    /// A character key.
    Char(char),
    Left,
    Down,
    Up,
    Backspace,
    Enter,
    /// Any key that the browser does not act on.
    Other,
}

/// The browser's state.
pub struct App {
    pub items: StatefulList,
}

impl View for App {
    type V = ListView;

    open spec fn view(&self) -> ListView {
        self.items@
    }
}

/// What activating the selected entry takes: nothing where no entry is
/// selected, else what [`activation`] says of the selected name.
pub open spec fn activation_of_selected(state: ListView) -> ActionView {
    match state.selected {
        Some(i) => if 0 <= i < state.entries.len() {
            activation(state.current_path, state.entries[i])
        } else {
            ActionView::Stay
        },
        None => ActionView::Stay,
    }
}

/// The state and the action that follow the key `key` in the state `state`:
/// `q` quits, Left takes the cursor away, Down and Up move it, Backspace asks
/// for the parent directory, Enter activates the selected entry, and every
/// other key does nothing.
pub open spec fn key_step(state: ListView, key: Key) -> (ListView, ActionView) {
    match key {
        Key::Char(c) => if c == 'q' {
            (state, ActionView::Quit)
        } else {
            (state, ActionView::Stay)
        },
        Key::Left => (state.unselect(), ActionView::Stay),
        Key::Down => (state.next(), ActionView::Stay),
        Key::Up => (state.previous(), ActionView::Stay),
        Key::Backspace => (state, ascent(state.current_path)),
        Key::Enter => (state, activation_of_selected(state)),
        Key::Other => (state, ActionView::Stay),
    }
}

/// The entries with which the browser starts on a scan of its root: the
/// root's subdirectories and image files, or none where the scan failed.
pub open spec fn initial_entries(scan: ScanView) -> Seq<Seq<char>> {
    match scan {
        ScanView::Children(children) => listing(children, TARGET_EXTENSION@),
        _ => Seq::empty(),
    }
}

impl App {
    /// The browser at `root_path`, of which `scan` is the enumeration, with
    /// the cursor on the first entry if there is one. A failed scan gives an
    /// empty list.
    pub fn new(root_path: String, scan: &Scan) -> (app: App)
        ensures
            app@ == (ListView {
                current_path: root_path@,
                entries: initial_entries(scan@),
                selected: if initial_entries(scan@).len() > 0 {
                    Some(0int)
                } else {
                    None
                },
            }),
    {
        let mut items = match read_subdirectories(root_path.as_str(), scan) {
            Ok(names) => names,
            Err(_) => Vec::new(),
        };
        let mut files = match read_files_with_extension(
            root_path.as_str(),
            scan,
            TARGET_EXTENSION,
        ) {
            Ok(names) => names,
            Err(_) => Vec::new(),
        };
        let ghost directories = items.deep_view();
        let ghost images = files.deep_view();
        items.append(&mut files);
        assert(items.deep_view() =~= directories + images);
        assert(items.deep_view() =~= initial_entries(scan@));
        App { items: StatefulList::with_items_and_path(items, root_path) }
    }

    /// Takes one key: moves the state on and says what the caller is to do,
    /// see [`key_step`].
    pub fn handle_key(&mut self, key: Key) -> (action: Action)
        ensures
            (final(self)@, action@) == key_step(old(self)@, key),
    {
        match key {
            Key::Char(c) => if c == 'q' {
                Action::Quit
            } else {
                Action::Stay
            },
            Key::Left => {
                self.items.unselect();
                Action::Stay
            },
            Key::Down => {
                self.items.next();
                Action::Stay
            },
            Key::Up => {
                self.items.previous();
                Action::Stay
            },
            Key::Backspace => self.items.go_to_parent(),
            Key::Enter => handle_enter_key(self),
            Key::Other => Action::Stay,
        }
    }
}

/// Says what activating the selected entry takes, see
/// [`activation_of_selected`]. The state stays as it is: a directory is shown
/// only once its scan has come back.
pub fn handle_enter_key(app: &App) -> (action: Action)
    ensures
        action@ == activation_of_selected(app@),
{
    match app.items.current_item() {
        Some(i) => {
            let items = app.items.all_items();
            assert(items.deep_view()[i as int] == items[i as int]@);
            let resolved = join(app.items.current_path(), items[i].as_str());
            let found = extension(resolved.as_str());
            activation_of(resolved, &found)
        },
        None => Action::Stay,
    }
}

/// Where the current path has no parent, Backspace changes nothing and asks
/// for nothing.
pub proof fn lemma_ascend_at_root(state: ListView)
    requires
        parent_of(state.current_path) is None,
    ensures
        key_step(state, Key::Backspace) == (state, ActionView::Stay),
{
}

/// Without a selected entry, Enter changes nothing and asks for nothing.
pub proof fn lemma_activate_without_selection(state: ListView)
    requires
        state.selected is None,
    ensures
        key_step(state, Key::Enter) == (state, ActionView::Stay),
{
}

/// No key changes the directory on show or its entries: those change only
/// when a scan has come back and is shown. And after any key the cursor, if
/// there is one, is still on an entry.
pub proof fn lemma_keys_keep_the_directory(state: ListView, key: Key)
    requires
        state.wf(),
    ensures
        key_step(state, key).0.current_path == state.current_path,
        key_step(state, key).0.entries == state.entries,
        key_step(state, key).0.wf(),
{
}

} // verus!
