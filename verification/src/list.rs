//! The navigation state: the directory on show, its entries, and the cursor.

use vstd::prelude::*;
use crate::action::{ascent, ascent_to, Action, TARGET_EXTENSION};
use crate::paths::parent;
use crate::scanner::{
    distinct_names, is_listed, lemma_listing_has_no_duplicates, lemma_listing_is_exact, listing,
    read_files_with_extension, read_subdirectories, scan_error, ChildView, Scan, ScanError,
    ScanView,
};

verus! {

/// The mathematical value of a [`StatefulList`].
pub struct ListView {
    /// The directory on show.
    pub current_path: Seq<char>,
    /// The names on show: subdirectories first, then image files.
    pub entries: Seq<Seq<char>>,
    /// The position of the cursor in `entries`, if one is selected.
    pub selected: Option<int>,
}

impl ListView {
    /// The cursor, if there is one, points at an entry. In particular an empty
    /// list has no cursor.
    pub open spec fn wf(self) -> bool {
        self.selected matches Some(i) ==> 0 <= i < self.entries.len()
    }

    /// The state after moving the cursor one entry down: from the last entry
    /// it wraps to the first, and where nothing was selected it goes to the
    /// first. An empty list stays as it is.
    pub open spec fn next(self) -> ListView {
        if self.entries.len() == 0 {
            self
        } else {
            ListView {
                selected: Some(
                    match self.selected {
                        Some(i) => (i + 1) % (self.entries.len() as int),
                        None => 0,
                    },
                ),
                ..self
            }
        }
    }

    /// The state after moving the cursor one entry up: from the first entry it
    /// wraps to the last, and where nothing was selected it goes to the last.
    /// An empty list stays as it is.
    pub open spec fn previous(self) -> ListView {
        if self.entries.len() == 0 {
            self
        } else {
            ListView {
                selected: Some(
                    match self.selected {
                        Some(i) => if i > 0 {
                            i - 1
                        } else {
                            self.entries.len() - 1
                        },
                        None => self.entries.len() - 1,
                    },
                ),
                ..self
            }
        }
    }

    /// The state with the cursor taken away.
    pub open spec fn unselect(self) -> ListView {
        ListView { selected: None, ..self }
    }

    /// The state that shows the directory `path` with the given children:
    /// its subdirectories, then its image files, and no cursor.
    pub open spec fn showing(path: Seq<char>, children: Seq<ChildView>) -> ListView {
        ListView {
            current_path: path,
            entries: listing(children, TARGET_EXTENSION@),
            selected: None,
        }
    }
}

/// The directory on show, the names of its entries, and the cursor.
pub struct StatefulList {
    selected: Option<usize>,
    all_items: Vec<String>,
    current_path: String,
}

impl View for StatefulList {
    type V = ListView;

    closed spec fn view(&self) -> ListView {
        ListView {
            current_path: self.current_path@,
            entries: self.all_items.deep_view(),
            selected: match self.selected {
                Some(i) => Some(i as int),
                None => None,
            },
        }
    }
}

impl StatefulList {
    #[verifier::type_invariant]
    spec fn well_formed(self) -> bool {
        self@.wf()
    }

    /// A list of `items` found at `path`, with the cursor on the first item if
    /// there is one.
    pub fn with_items_and_path(items: Vec<String>, path: String) -> (list: StatefulList)
        ensures
            list@ == (ListView {
                current_path: path@,
                entries: items.deep_view(),
                selected: if items.len() > 0 {
                    Some(0int)
                } else {
                    None
                },
            }),
    {
        let selected: Option<usize> = if items.len() > 0 {
            Some(0usize)
        } else {
            None
        };
        StatefulList { selected, all_items: items, current_path: path }
    }

    /// Moves the cursor to the next entry, see [`ListView::next`].
    pub fn next(&mut self)
        ensures
            final(self)@ == old(self)@.next(),
    {
        proof {
            use_type_invariant(&*self);
        }
        let len: usize = self.all_items.len();
        if len > 0 {
            let index: usize = match self.selected {
                Some(i) => (i + 1) % len,
                None => 0,
            };
            self.selected = Some(index);
        }
    }

    /// Moves the cursor to the previous entry, see [`ListView::previous`].
    pub fn previous(&mut self)
        ensures
            final(self)@ == old(self)@.previous(),
    {
        proof {
            use_type_invariant(&*self);
        }
        let len: usize = self.all_items.len();
        if len > 0 {
            let index: usize = match self.selected {
                Some(i) => if i > 0 {
                    i - 1
                } else {
                    len - 1
                },
                None => len - 1,
            };
            self.selected = Some(index);
        }
    }

    /// Takes the cursor away.
    pub fn unselect(&mut self)
        ensures
            final(self)@ == old(self)@.unselect(),
    {
        self.selected = None;
    }

    /// The directory on show.
    pub fn current_path(&self) -> (path: &str)
        ensures
            path@ == self@.current_path,
    {
        self.current_path.as_str()
    }

    /// The position of the cursor, which is always that of an entry.
    pub fn current_item(&self) -> (selected: Option<usize>)
        ensures
            self@.wf(),
            match selected {
                Some(i) => self@.selected == Some(i as int),
                None => self@.selected is None,
            },
    {
        proof {
            use_type_invariant(self);
        }
        self.selected
    }

    /// The names on show.
    pub fn all_items(&self) -> (items: &Vec<String>)
        ensures
            items.deep_view() == self@.entries,
    {
        &self.all_items
    }

    /// Says what going up one directory takes: a scan of the parent of the
    /// current path, or nothing where the current path has no parent.
    pub fn go_to_parent(&self) -> (action: Action)
        ensures
            action@ == ascent(self@.current_path),
    {
        ascent_to(parent(self.current_path.as_str()))
    }

    /// Shows the directory at `path`, of which `scan` is the enumeration.
    ///
    /// Where the scan holds the directory's children, the entries become its
    /// subdirectories followed by its image files, the cursor goes away and
    /// `path` becomes the current path. Where it holds none, the list stays
    /// exactly as it was and the error says why.
    pub fn show(&mut self, path: String, scan: &Scan) -> (result: Result<(), ScanError>)
        ensures
            match result {
                Ok(_) => scan@ matches ScanView::Children(children) && final(self)@
                    == ListView::showing(path@, children),
                Err(error) => scan_error(path@, scan@) == Some(error@) && final(self)@ == old(
                    self,
                )@,
            },
    {
        match read_subdirectories(path.as_str(), scan) {
            Ok(mut items) => {
                let mut files = match read_files_with_extension(
                    path.as_str(),
                    scan,
                    TARGET_EXTENSION,
                ) {
                    Ok(files) => files,
                    Err(_) => Vec::new(),
                };
                let ghost directories = items.deep_view();
                let ghost images = files.deep_view();
                items.append(&mut files);
                assert(items.deep_view() =~= directories + images);
                self.selected = None;
                self.all_items = items;
                self.current_path = path;
                Ok(())
            },
            Err(error) => Err(error),
        }
    }
}

/// Moving the cursor keeps it on an entry, and so does taking it away.
pub proof fn lemma_cursor_stays_valid(state: ListView)
    requires
        state.wf(),
    ensures
        state.next().wf(),
        state.previous().wf(),
        state.unselect().wf(),
{
}

/// With the cursor on an entry, moving it down and then up, or up and then
/// down, brings it back to that entry. At the ends it wraps around: up from
/// the first entry is the last, down from the last is the first.
pub proof fn lemma_next_and_previous_are_inverse(state: ListView)
    requires
        state.wf(),
        state.entries.len() > 0,
        state.selected is Some,
    ensures
        state.next().previous() == state,
        state.previous().next() == state,
        state.selected == Some(0int) ==> state.previous().selected == Some(
            state.entries.len() - 1,
        ),
        state.selected == Some(state.entries.len() - 1) ==> state.next().selected == Some(0int),
{
    let len = state.entries.len();
    let i = state.selected.unwrap();
    vstd::arithmetic::div_mod::lemma_mod_self_0(len as int);
    if i + 1 < len {
        vstd::arithmetic::div_mod::lemma_small_mod((i + 1) as nat, len);
    }
    vstd::arithmetic::div_mod::lemma_small_mod(i as nat, len);
}

/// Taking the cursor away leaves none, whatever was selected. The next move
/// down then selects the first entry and the next move up the last, where
/// there is an entry at all; an empty list stays without a cursor.
pub proof fn lemma_unselect_then_move(state: ListView)
    ensures
        state.unselect().selected is None,
        state.entries.len() > 0 ==> state.unselect().next().selected == Some(0int),
        state.entries.len() > 0 ==> state.unselect().previous().selected == Some(
            state.entries.len() - 1,
        ),
        state.entries.len() == 0 ==> state.unselect().next().selected is None
            && state.unselect().previous().selected is None,
{
}

/// A directory that has come on show has no cursor, and its entries are its
/// subdirectories followed by its image files: a name is among them exactly
/// if a child of that name is a directory or an image file.
pub proof fn lemma_showing_is_exact(path: Seq<char>, children: Seq<ChildView>, name: Seq<char>)
    ensures
        ListView::showing(path, children).wf(),
        ListView::showing(path, children).current_path == path,
        ListView::showing(path, children).selected is None,
        ListView::showing(path, children).entries.contains(name) <==> exists|i: int|
            0 <= i < children.len() && (#[trigger] children[i]).name == name && is_listed(
                children[i],
                TARGET_EXTENSION@,
            ),
{
    lemma_listing_is_exact(children, TARGET_EXTENSION@, name);
}

/// A directory that has come on show lists no name twice, where its
/// children's names are distinct.
pub proof fn lemma_showing_has_no_duplicates(path: Seq<char>, children: Seq<ChildView>)
    requires
        distinct_names(children),
    ensures
        ListView::showing(path, children).entries.no_duplicates(),
{
    lemma_listing_has_no_duplicates(children, TARGET_EXTENSION@);
}

} // verus!
