//! The directory scanner: what the browser shows of one directory.
//!
//! The caller enumerates a directory once and hands the outcome over as a
//! [`Scan`]. The functions here pick the subdirectories and the files of one
//! extension out of it, in the order in which the file system gave them.

use vstd::prelude::*;
use vstd::string::StringExecFns;
use crate::paths::{extension, extension_of, lowercased, to_lowercase};

verus! {

/// What the file system said of one child of a directory.
#[derive(Clone, Copy, Debug, PartialEq, Eq)]
pub enum ChildKind {
    /// A directory.
    Directory,
    /// A regular file.
    File,
    /// Neither of the two.
    Other,
    /// The child, or its metadata, could not be read.
    Unreadable,
}

/// One immediate child of a directory.
#[derive(Clone, Debug, PartialEq, Eq)]
pub struct Child {
    /// The child's name, without the directory's path.
    pub name: String,
    pub kind: ChildKind,
}

/// The mathematical value of a [`Child`].
pub struct ChildView {
    pub name: Seq<char>,
    pub kind: ChildKind,
}

impl View for Child {
    type V = ChildView;

    open spec fn view(&self) -> ChildView {
        ChildView { name: self.name@, kind: self.kind }
    }
}

impl DeepView for Child {
    type V = ChildView;

    open spec fn deep_view(&self) -> ChildView {
        self@
    }
}

/// The outcome of enumerating one directory.
#[derive(Clone, Debug, PartialEq, Eq)]
pub enum Scan {
    /// The path does not exist or is no directory.
    Missing,
    /// The directory could not be enumerated; the text says why.
    Failed(String),
    /// The directory's immediate children, in the file system's order.
    Children(Vec<Child>),
}

/// The mathematical value of a [`Scan`].
pub enum ScanView {
    Missing,
    Failed(Seq<char>),
    Children(Seq<ChildView>),
}

impl View for Scan {
    type V = ScanView;

    open spec fn view(&self) -> ScanView {
        match self {
            Scan::Missing => ScanView::Missing,
            Scan::Failed(reason) => ScanView::Failed(reason@),
            Scan::Children(children) => ScanView::Children(children.deep_view()),
        }
    }
}

/// Why a directory could not be listed.
#[derive(Clone, Debug, PartialEq, Eq)]
pub enum ScanError {
    /// The path, which does not exist or is no directory.
    NotFound(String),
    /// The directory could not be enumerated; the text says why.
    Failed(String),
}

/// The mathematical value of a [`ScanError`].
pub enum ScanErrorView {
    NotFound(Seq<char>),
    Failed(Seq<char>),
}

impl View for ScanError {
    type V = ScanErrorView;

    open spec fn view(&self) -> ScanErrorView {
        match self {
            ScanError::NotFound(path) => ScanErrorView::NotFound(path@),
            ScanError::Failed(reason) => ScanErrorView::Failed(reason@),
        }
    }
}

/// What every diagnostic of a failed scan starts with.
pub const FAILURE_HEAD: &'static str = "Error reading subdirectories: ";

impl ScanErrorView {
    /// What the error says.
    pub open spec fn message(self) -> Seq<char> {
        match self {
            ScanErrorView::NotFound(path) => "Directory does not exist: "@ + path,
            ScanErrorView::Failed(reason) => reason,
        }
    }

    /// The line to log for the error: the head, then what the error says.
    pub open spec fn diagnostic(self) -> Seq<char> {
        FAILURE_HEAD@ + self.message()
    }
}

impl ScanError {
    /// The line to log for the error, see [`ScanErrorView::diagnostic`].
    pub fn diagnostic(&self) -> (line: String)
        ensures
            line@ == self@.diagnostic(),
    {
        String::from_str(FAILURE_HEAD).concat(self.message().as_str())
    }

    /// What the error says.
    pub fn message(&self) -> (text: String)
        ensures
            text@ == self@.message(),
    {
        match self {
            ScanError::NotFound(path) => {
                String::from_str("Directory does not exist: ").concat(path.as_str())
            },
            ScanError::Failed(reason) => reason.clone(),
        }
    }
}

/// The error with which listing `path` fails on `scan`, if it does.
pub open spec fn scan_error(path: Seq<char>, scan: ScanView) -> Option<ScanErrorView> {
    match scan {
        ScanView::Missing => Some(ScanErrorView::NotFound(path)),
        ScanView::Failed(reason) => Some(ScanErrorView::Failed(reason)),
        ScanView::Children(_) => None,
    }
}

/// The name of `child` if it is a directory.
pub open spec fn directory_name(child: ChildView) -> Option<Seq<char>> {
    if child.kind is Directory {
        Some(child.name)
    } else {
        None
    }
}

/// The names of the directories among `children`, in their order.
pub open spec fn subdirectories(children: Seq<ChildView>) -> Seq<Seq<char>> {
    children.filter_map(|child: ChildView| directory_name(child))
}

/// Whether `name` ends in `wanted` as its extension, letter case aside.
pub open spec fn has_extension(name: Seq<char>, wanted: Seq<char>) -> bool {
    match extension_of(name) {
        Some(found) => lowercased(found) == lowercased(wanted),
        None => false,
    }
}

/// The name of `child` if it is a regular file with the extension `wanted`.
pub open spec fn file_name_with_extension(
    child: ChildView,
    wanted: Seq<char>,
) -> Option<Seq<char>> {
    if child.kind is File && has_extension(child.name, wanted) {
        Some(child.name)
    } else {
        None
    }
}

/// The names of the regular files among `children` whose extension is
/// `wanted`, letter case aside, in their order.
pub open spec fn files_with_extension(
    children: Seq<ChildView>,
    wanted: Seq<char>,
) -> Seq<Seq<char>> {
    children.filter_map(|child: ChildView| file_name_with_extension(child, wanted))
}

/// The error for a scan of `path` that gave no children.
fn error_of(path: &str, scan: &Scan) -> (error: ScanError)
    requires
        !(scan@ is Children),
    ensures
        Some(error@) == scan_error(path@, scan@),
{
    match scan {
        Scan::Failed(reason) => ScanError::Failed(reason.clone()),
        _ => ScanError::NotFound(String::from_str(path)),
    }
}

/// Lists the subdirectories of the directory at `path`, of which `scan` is the
/// enumeration.
///
/// Fails exactly when the scan holds no children: with `NotFound` where the
/// path does not exist or is no directory, with `Failed` where it could not be
/// enumerated. Children that are not directories, or could not be read, are
/// passed over.
pub fn read_subdirectories(path: &str, scan: &Scan) -> (result: Result<Vec<String>, ScanError>)
    ensures
        match result {
            Ok(names) => scan@ matches ScanView::Children(children) && names.deep_view()
                == subdirectories(children),
            Err(error) => scan_error(path@, scan@) == Some(error@),
        },
{
    match scan {
        Scan::Children(children) => {
            let ghost all = children.deep_view();
            let ghost pick = |child: ChildView| directory_name(child);
            let mut names: Vec<String> = Vec::new();
            let mut i: usize = 0;
            assert(all.take(0).filter_map(pick) =~= Seq::<Seq<char>>::empty());
            while i < children.len()
                invariant
                    i <= children.len(),
                    all == children.deep_view(),
                    pick == |child: ChildView| directory_name(child),
                    names.deep_view() == all.take(i as int).filter_map(pick),
                decreases children.len() - i,
            {
                let child = &children[i];
                let ghost before = names.deep_view();
                proof {
                    all.lemma_filter_map_take_succ(pick, i as int);
                }
                match child.kind {
                    ChildKind::Directory => {
                        names.push(child.name.clone());
                        assert(names.deep_view() =~= before.push(child.name@));
                    },
                    _ => {},
                }
                i += 1;
            }
            assert(all.take(i as int) =~= all);
            Ok(names)
        },
        _ => Err(error_of(path, scan)),
    }
}

/// Whether a child of the given kind is kept as a file with the wanted
/// extension: `found` is the lower-case form of the extension of its name, if
/// it has one, and `wanted` the lower-case form of the extension asked for.
pub fn keeps_file(kind: ChildKind, found: &Option<String>, wanted: &String) -> (kept: bool)
    ensures
        kept == (kind is File && match found {
            Some(text) => text@ == wanted@,
            None => false,
        }),
{
    match kind {
        ChildKind::File => match found {
            Some(text) => *text == *wanted,
            None => false,
        },
        _ => false,
    }
}

/// Lists the regular files with the extension `wanted`, letter case aside, of
/// the directory at `path`, of which `scan` is the enumeration.
///
/// Fails exactly when the scan holds no children, as [`read_subdirectories`]
/// does. Children that are no regular files, or could not be read, are passed
/// over.
pub fn read_files_with_extension(
    path: &str,
    scan: &Scan,
    wanted: &str,
) -> (result: Result<Vec<String>, ScanError>)
    ensures
        match result {
            Ok(names) => scan@ matches ScanView::Children(children) && names.deep_view()
                == files_with_extension(children, wanted@),
            Err(error) => scan_error(path@, scan@) == Some(error@),
        },
{
    match scan {
        Scan::Children(children) => {
            let ghost all = children.deep_view();
            let ghost pick = |child: ChildView| file_name_with_extension(child, wanted@);
            let lowered = to_lowercase(wanted);
            let mut names: Vec<String> = Vec::new();
            let mut i: usize = 0;
            assert(all.take(0).filter_map(pick) =~= Seq::<Seq<char>>::empty());
            while i < children.len()
                invariant
                    i <= children.len(),
                    all == children.deep_view(),
                    pick == |child: ChildView| file_name_with_extension(child, wanted@),
                    lowered@ == lowercased(wanted@),
                    names.deep_view() == all.take(i as int).filter_map(pick),
                decreases children.len() - i,
            {
                let child = &children[i];
                let ghost before = names.deep_view();
                proof {
                    all.lemma_filter_map_take_succ(pick, i as int);
                }
                let found = match extension(child.name.as_str()) {
                    Some(text) => Some(to_lowercase(text.as_str())),
                    None => None,
                };
                if keeps_file(child.kind, &found, &lowered) {
                    names.push(child.name.clone());
                    assert(names.deep_view() =~= before.push(child.name@));
                }
                i += 1;
            }
            assert(all.take(i as int) =~= all);
            Ok(names)
        },
        _ => Err(error_of(path, scan)),
    }
}

/// Whether `child` is on show where files of the extension `wanted` are
/// listed: it is a directory, or a regular file with that extension.
pub open spec fn is_listed(child: ChildView, wanted: Seq<char>) -> bool {
    child.kind is Directory || (child.kind is File && has_extension(child.name, wanted))
}

/// What a directory with the given children shows: its subdirectories as a
/// group, then its files of the extension `wanted`.
pub open spec fn listing(children: Seq<ChildView>, wanted: Seq<char>) -> Seq<Seq<char>> {
    subdirectories(children) + files_with_extension(children, wanted)
}

/// No two directories or regular files among `children` share a name, as in
/// any one directory of a file system.
pub open spec fn distinct_names(children: Seq<ChildView>) -> bool {
    forall|i: int, j: int|
        0 <= i < j < children.len() && (children[i].kind is Directory || children[i].kind is File)
            && (children[j].kind is Directory || children[j].kind is File) ==> children[i].name
            != children[j].name
}

/// What `pick` makes of an item of `items` is among the picked values.
proof fn lemma_picked_is_present<A, B>(items: Seq<A>, pick: spec_fn(A) -> Option<B>, i: int)
    requires
        0 <= i < items.len(),
        pick(items[i]) is Some,
    ensures
        items.filter_map(pick).contains(pick(items[i]).unwrap()),
    decreases items.len(),
{
    let rest = items.drop_last();
    let kept = rest.filter_map(pick);
    let value = pick(items[i]).unwrap();
    if i == items.len() - 1 {
        assert((kept + seq![value])[kept.len() as int] == value);
    } else {
        lemma_picked_is_present(rest, pick, i);
        let k = choose|k: int| 0 <= k < kept.len() && kept[k] == value;
        assert(items.filter_map(pick)[k] == value);
    }
}

/// A picked value comes from an item of `items`.
proof fn lemma_present_was_picked<A, B>(items: Seq<A>, pick: spec_fn(A) -> Option<B>, value: B)
    requires
        items.filter_map(pick).contains(value),
    ensures
        exists|i: int| 0 <= i < items.len() && pick(#[trigger] items[i]) == Some(value),
{
    items.lemma_filter_map_contains(pick, value);
    let item = choose|item: A| #[trigger] items.contains(item) && pick(item) == Some(value);
    let i = choose|i: int| 0 <= i < items.len() && items[i] == item;
    assert(pick(items[i]) == Some(value));
}

/// Where `pick` gives different values for different items, the picked values
/// hold nothing twice.
proof fn lemma_picked_are_distinct<A, B>(items: Seq<A>, pick: spec_fn(A) -> Option<B>)
    requires
        forall|i: int, j: int|
            0 <= i < j < items.len() && pick(items[i]) is Some ==> pick(items[i]) != pick(
                items[j],
            ),
    ensures
        items.filter_map(pick).no_duplicates(),
    decreases items.len(),
{
    if items.len() > 0 {
        let rest = items.drop_last();
        let kept = rest.filter_map(pick);
        assert forall|i: int, j: int|
            0 <= i < j < rest.len() && pick(rest[i]) is Some implies pick(rest[i]) != pick(
            rest[j],
        ) by {
            assert(rest[i] == items[i] && rest[j] == items[j]);
        }
        lemma_picked_are_distinct(rest, pick);
        if let Some(value) = pick(items.last()) {
            if kept.contains(value) {
                lemma_present_was_picked(rest, pick, value);
                let i = choose|i: int| 0 <= i < rest.len() && pick(#[trigger] rest[i]) == Some(value);
                assert(rest[i] == items[i]);
                assert(pick(items[i]) == pick(items[items.len() - 1]));
                assert(false);
            }
            let all = kept + seq![value];
            assert forall|a: int, b: int| 0 <= a < all.len() && 0 <= b < all.len() && a != b implies all[a]
                != all[b] by {
                if a < kept.len() && b < kept.len() {
                } else if a < kept.len() {
                    assert(kept.contains(kept[a]));
                } else {
                    assert(kept.contains(kept[b]));
                }
            }
        }
    }
}

/// A name is on show exactly if it is the name of a child that is a
/// directory, or a regular file with the wanted extension: every such child
/// is listed, and nothing else is.
pub proof fn lemma_listing_is_exact(children: Seq<ChildView>, wanted: Seq<char>, name: Seq<char>)
    ensures
        listing(children, wanted).contains(name) <==> exists|i: int|
            0 <= i < children.len() && (#[trigger] children[i]).name == name && is_listed(
                children[i],
                wanted,
            ),
{
    let directories = subdirectories(children);
    let files = files_with_extension(children, wanted);
    let pick_directory = |child: ChildView| directory_name(child);
    let pick_file = |child: ChildView| file_name_with_extension(child, wanted);
    if listing(children, wanted).contains(name) {
        let k = choose|k: int| 0 <= k < (directories + files).len() && (directories + files)[k] == name;
        if k < directories.len() {
            assert(directories.contains(directories[k]));
            lemma_present_was_picked(children, pick_directory, name);
            let i = choose|i: int|
                0 <= i < children.len() && pick_directory(#[trigger] children[i]) == Some(name);
            assert(children[i].name == name && is_listed(children[i], wanted));
        } else {
            assert(files.contains(files[k - directories.len()]));
            lemma_present_was_picked(children, pick_file, name);
            let i = choose|i: int|
                0 <= i < children.len() && pick_file(#[trigger] children[i]) == Some(name);
            assert(children[i].name == name && is_listed(children[i], wanted));
        }
    }
    if exists|i: int|
        0 <= i < children.len() && (#[trigger] children[i]).name == name && is_listed(
            children[i],
            wanted,
        ) {
        let i = choose|i: int|
            0 <= i < children.len() && (#[trigger] children[i]).name == name && is_listed(
                children[i],
                wanted,
            );
        if children[i].kind is Directory {
            lemma_picked_is_present(children, pick_directory, i);
            let k = choose|k: int| 0 <= k < directories.len() && directories[k] == name;
            assert((directories + files)[k] == name);
        } else {
            lemma_picked_is_present(children, pick_file, i);
            let k = choose|k: int| 0 <= k < files.len() && files[k] == name;
            assert((directories + files)[directories.len() + k] == name);
        }
    }
}

/// Where the children's names are distinct, no name is on show twice.
pub proof fn lemma_listing_has_no_duplicates(children: Seq<ChildView>, wanted: Seq<char>)
    requires
        distinct_names(children),
    ensures
        listing(children, wanted).no_duplicates(),
{
    let directories = subdirectories(children);
    let files = files_with_extension(children, wanted);
    let pick_directory = |child: ChildView| directory_name(child);
    let pick_file = |child: ChildView| file_name_with_extension(child, wanted);
    lemma_picked_are_distinct(children, pick_directory);
    lemma_picked_are_distinct(children, pick_file);
    assert forall|a: int, b: int| 0 <= a < directories.len() && 0 <= b < files.len() implies directories[a]
        != files[b] by {
        if directories[a] == files[b] {
            let name = directories[a];
            assert(directories.contains(name));
            assert(files.contains(name));
            lemma_present_was_picked(children, pick_directory, name);
            lemma_present_was_picked(children, pick_file, name);
            let i = choose|i: int|
                0 <= i < children.len() && pick_directory(#[trigger] children[i]) == Some(name);
            let j = choose|j: int|
                0 <= j < children.len() && pick_file(#[trigger] children[j]) == Some(name);
            assert(children[i].kind is Directory && children[j].kind is File);
            assert(i != j);
            assert(children[i].name == children[j].name);
            assert(false);
        }
    }
    vstd::seq_lib::lemma_no_dup_in_concat(directories, files);
}

} // verus!
