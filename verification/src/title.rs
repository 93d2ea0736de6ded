//! The title of the list: where the browser is, as a trail of names.

use vstd::prelude::*;
use vstd::string::{StrSliceExecFns, StringExecFns};

verus! {

/// What every title starts with.
pub const TITLE_HEAD: &'static str = "Change Wallpaper » ";

/// What stands between two names of the trail.
pub const TRAIL_SEPARATOR: &'static str = " » ";

/// `text` without `prefix` in front, or `text` itself where it does not start
/// with `prefix`.
pub open spec fn without_prefix(text: Seq<char>, prefix: Seq<char>) -> Seq<char> {
    if prefix.is_prefix_of(text) {
        text.skip(prefix.len() as int)
    } else {
        text
    }
}

/// What one character of a path becomes in the trail: a path separator
/// becomes the trail's separator, and any other character stays.
pub open spec fn trail_piece(c: char) -> Seq<char> {
    if c == '/' {
        TRAIL_SEPARATOR@
    } else {
        seq![c]
    }
}

/// `path` with each path separator replaced by the trail's separator.
pub open spec fn trail(path: Seq<char>) -> Seq<char>
    decreases path.len(),
{
    if path.len() == 0 {
        Seq::empty()
    } else {
        trail(path.drop_last()) + trail_piece(path.last())
    }
}

/// The title for the directory `current_path`: the head, then the trail of
/// the path without the prefix `root`.
pub open spec fn title_of(current_path: Seq<char>, root: Seq<char>) -> Seq<char> {
    TITLE_HEAD@ + trail(without_prefix(current_path, root))
}

/// Whether `text` starts with `prefix`.
pub fn starts_with(text: &str, prefix: &str) -> (found: bool)
    ensures
        found == prefix@.is_prefix_of(text@),
{
    let len: usize = prefix.unicode_len();
    if len > text.unicode_len() {
        return false;
    }
    let mut i: usize = 0;
    while i < len
        invariant
            i <= len,
            len == prefix@.len(),
            len <= text@.len(),
            prefix@.take(i as int) == text@.take(i as int),
        decreases len - i,
    {
        if prefix.get_char(i) != text.get_char(i) {
            assert(prefix@[i as int] != text@.subrange(0, len as int)[i as int]);
            return false;
        }
        assert(prefix@.take(i + 1) =~= prefix@.take(i as int).push(prefix@[i as int]));
        assert(text@.take(i + 1) =~= text@.take(i as int).push(text@[i as int]));
        i += 1;
    }
    assert(prefix@.take(len as int) =~= prefix@);
    true
}

/// The title of the list while it shows `current_path`, see [`title_of`].
pub fn title(current_path: &str, root: &str) -> (text: String)
    ensures
        text@ == title_of(current_path@, root@),
{
    let len: usize = current_path.unicode_len();
    let start: usize = if starts_with(current_path, root) {
        root.unicode_len()
    } else {
        0
    };
    let ghost rest = without_prefix(current_path@, root@);
    assert(rest =~= current_path@.subrange(start as int, len as int));
    let mut text = String::from_str(TITLE_HEAD);
    let mut i: usize = start;
    assert(current_path@.subrange(start as int, start as int) =~= Seq::<char>::empty());
    while i < len
        invariant
            start <= i <= len,
            len == current_path@.len(),
            text@ == TITLE_HEAD@ + trail(current_path@.subrange(start as int, i as int)),
        decreases len - i,
    {
        let ghost before = current_path@.subrange(start as int, i as int);
        let ghost after = current_path@.subrange(start as int, i + 1);
        assert(after.drop_last() =~= before);
        assert(after.last() == current_path@[i as int]);
        if current_path.get_char(i) == '/' {
            text.append(TRAIL_SEPARATOR);
        } else {
            let piece = current_path.substring_char(i, i + 1);
            assert(piece@ =~= seq![current_path@[i as int]]);
            text.append(piece);
        }
        assert(text@ =~= TITLE_HEAD@ + trail(after));
        i += 1;
    }
    text
}

} // verus!
