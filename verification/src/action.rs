//! What the browser asks of its caller after an input.

use vstd::prelude::*;
use vstd::string::StringExecFns;
use crate::paths::{extension_of, joined, parent_of};

verus! {

/// The extension of the files that the browser lists and hands to the
/// wallpaper command.
pub const TARGET_EXTENSION: &'static str = "jpg";

/// What the caller is to do next.
#[derive(Clone, Debug, PartialEq, Eq)]
pub enum Action {
    /// Nothing but to draw the list again.
    Stay,
    /// Leave the program.
    Quit,
    /// Enumerate the directory at this path and show what was found.
    Scan(String),
    /// Set the image at this path as wallpaper.
    Dispatch(String),
}

/// The mathematical value of an [`Action`].
pub enum ActionView {
    Stay,
    Quit,
    Scan(Seq<char>),
    Dispatch(Seq<char>),
}

impl View for Action {
    type V = ActionView;

    open spec fn view(&self) -> ActionView {
        match self {
            Action::Stay => ActionView::Stay,
            Action::Quit => ActionView::Quit,
            Action::Scan(path) => ActionView::Scan(path@),
            Action::Dispatch(path) => ActionView::Dispatch(path@),
        }
    }
}

/// What going up takes, given the parent of the current path: a scan of the
/// parent, or nothing where there is none.
pub open spec fn ascent_given(parent: Option<Seq<char>>) -> ActionView {
    match parent {
        Some(path) => ActionView::Scan(path),
        None => ActionView::Stay,
    }
}

/// What going up from `current_path` takes.
pub open spec fn ascent(current_path: Seq<char>) -> ActionView {
    ascent_given(parent_of(current_path))
}

/// What activating an entry takes, given the entry's full path and that
/// path's extension: an image is handed to the wallpaper command, anything
/// else is taken for a directory and scanned. The extension is compared as it
/// stands, so `JPG` is no image here although the listing admits it.
pub open spec fn activation_given(resolved: Seq<char>, found: Option<Seq<char>>) -> ActionView {
    if found == Some(TARGET_EXTENSION@) {
        ActionView::Dispatch(resolved)
    } else {
        ActionView::Scan(resolved)
    }
}

/// What activating the entry `name` of the directory `current_path` takes.
pub open spec fn activation(current_path: Seq<char>, name: Seq<char>) -> ActionView {
    let resolved = joined(current_path, name);
    activation_given(resolved, extension_of(resolved))
}

/// The action that goes up to `parent`, see [`ascent_given`].
pub fn ascent_to(parent: Option<String>) -> (action: Action)
    ensures
        action@ == ascent_given(
            match parent {
                Some(path) => Some(path@),
                None => None,
            },
        ),
{
    match parent {
        Some(path) => Action::Scan(path),
        None => Action::Stay,
    }
}

/// The action that activates the entry at `resolved`, whose extension is
/// `found`, see [`activation_given`].
pub fn activation_of(resolved: String, found: &Option<String>) -> (action: Action)
    ensures
        action@ == activation_given(
            resolved@,
            match found {
                Some(text) => Some(text@),
                None => None,
            },
        ),
{
    let image = match found {
        Some(text) => *text == String::from_str(TARGET_EXTENSION),
        None => false,
    };
    if image {
        Action::Dispatch(resolved)
    } else {
        Action::Scan(resolved)
    }
}

} // verus!
