//! Paths as the files panel shows them.

use crate::event::FILE_PATH_MAX;
use vstd::prelude::*;
use vstd::slice::slice_subrange;
use vstd::string::*;
use vstd::utf8::{decode_utf8, valid_utf8};

verus! {

/// The text that `String::from_utf8_lossy` makes of bytes.
pub uninterp spec fn utf8_lossy(bytes: Seq<u8>) -> Seq<char>;

/// `String::from_utf8_lossy`: bytes as text, with replacement characters where
/// they are not UTF-8. Claimed is that the text depends on the bytes alone, and
/// that valid UTF-8 is decoded as it is.
#[verifier::external_body]
pub(crate) fn lossy_text(bytes: &[u8]) -> (text: String)
    ensures
        text@ == utf8_lossy(bytes@),
        valid_utf8(bytes@) ==> text@ == decode_utf8(bytes@),
{
    String::from_utf8_lossy(bytes).into_owned()
}

/// The bytes of a path that a record holds.
pub open spec fn path_bytes(path: Seq<u8>, path_len: u16) -> Seq<u8> {
    if path_len <= path.len() {
        path.take(path_len as int)
    } else {
        path
    }
}

/// A path as text; an ellipsis marks one that filled the record and may have
/// been cut there.
pub open spec fn path_text(decoded: Seq<char>, path_len: u16) -> Seq<char> {
    if path_len >= FILE_PATH_MAX {
        decoded + "…"@
    } else {
        decoded
    }
}

/// Makes a path of a record readable.
pub fn format_path(path: &[u8], path_len: u16) -> (text: String)
    ensures
        text@ == path_text(utf8_lossy(path_bytes(path@, path_len)), path_len),
        valid_utf8(path_bytes(path@, path_len)) ==> text@ == path_text(
            decode_utf8(path_bytes(path@, path_len)),
            path_len,
        ),
{
    let len: usize = if path_len as usize <= path.len() {
        path_len as usize
    } else {
        path.len()
    };
    assert(path@.subrange(0, len as int) =~= path_bytes(path@, path_len));
    mark_cut(lossy_text(slice_subrange(path, 0, len)), path_len)
}

/// Marks a decoded path that filled the record.
pub fn mark_cut(decoded: String, path_len: u16) -> (text: String)
    ensures
        text@ == path_text(decoded@, path_len),
{
    if path_len as usize >= FILE_PATH_MAX {
        decoded.concat("…")
    } else {
        decoded
    }
}

/// A path that fits into `max_len` characters: a longer one loses its middle,
/// of which an ellipsis is left. There is no shortening to fewer than five.
pub open spec fn middle_cut(path: Seq<char>, max_len: nat) -> Seq<char> {
    if path.len() <= max_len || max_len < 5 {
        path
    } else {
        let keep = (max_len - 1) as int;
        let head = keep / 2;
        let tail = keep - head;
        path.take(head) + "…"@ + path.skip(path.len() - tail)
    }
}

/// Truncates a long path in the middle (keeping the filename visible) rather
/// than at the end, for narrow table columns.
pub fn truncate_middle(path: &str, max_len: usize) -> (text: String)
    ensures
        text@ == middle_cut(path@, max_len as nat),
{
    let count: usize = path.unicode_len();
    if count <= max_len || max_len < 5 {
        return path.to_owned();
    }
    let keep: usize = max_len - 1;
    let head: usize = keep / 2;
    let tail: usize = keep - head;
    let mut out: String = path.substring_char(0, head).to_owned();
    out.append("…");
    out.append(path.substring_char(count - tail, count));
    assert(path@.subrange(0, head as int) =~= path@.take(head as int));
    assert(path@.subrange(count - tail, count as int) =~= path@.skip(count - tail));
    out
}

/// A truncated path fits its column exactly, and one that fits is left as it
/// is; only columns of fewer than five characters can be exceeded.
pub proof fn truncated_paths_fit(path: Seq<char>, max_len: nat)
    ensures
        max_len >= 5 ==> middle_cut(path, max_len).len() <= max_len,
        max_len >= 5 && path.len() > max_len ==> middle_cut(path, max_len).len() == max_len,
        path.len() <= max_len ==> middle_cut(path, max_len) == path,
{
    reveal_strlit("…");
}

/// The end of a truncated path is the end of the path, for half the column.
pub proof fn truncated_paths_keep_their_end(path: Seq<char>, max_len: nat, from_end: int)
    requires
        5 <= max_len < path.len(),
        1 <= from_end <= max_len / 2,
    ensures
        middle_cut(path, max_len)[max_len - from_end] == path[path.len() - from_end],
{
    reveal_strlit("…");
}

/// Truncating a second time changes nothing.
pub proof fn truncating_twice_is_truncating_once(path: Seq<char>, max_len: nat)
    ensures
        middle_cut(middle_cut(path, max_len), max_len) == middle_cut(path, max_len),
{
    truncated_paths_fit(path, max_len);
}

/// A path that is too long for its column keeps its beginning and its end: half
/// of the column less one in front, an ellipsis, and the rest of the column
/// behind it.
pub proof fn long_paths_keep_both_ends(path: Seq<char>, max_len: nat)
    requires
        5 <= max_len < path.len(),
    ensures
        ({
            let cut = middle_cut(path, max_len);
            let head = (max_len as int - 1) / 2;
            &&& cut.len() == max_len
            &&& cut.take(head) == path.take(head)
            &&& cut[head] == '…'
            &&& cut.skip(head + 1) == path.skip(path.len() - (max_len - 1 - head))
        }),
{
    reveal_strlit("…");
    let head = (max_len as int - 1) / 2;
    let cut = middle_cut(path, max_len);
    assert(cut.take(head) =~= path.take(head));
    assert(cut.skip(head + 1) =~= path.skip(path.len() - (max_len - 1 - head)));
}

/// Columns of fewer than five characters shorten nothing.
pub proof fn narrow_columns_shorten_nothing(path: Seq<char>, max_len: nat)
    requires
        max_len < 5,
    ensures
        middle_cut(path, max_len) == path,
{
}

/// A path is as many bytes of the record as the record says, or all that it
/// holds; one that says 256 or more was cut, and is marked.
pub proof fn paths_are_as_long_as_said(path: Seq<u8>, path_len: u16, decoded: Seq<char>)
    ensures
        path_len <= path.len() ==> path_bytes(path, path_len) == path.take(path_len as int),
        path_len > path.len() ==> path_bytes(path, path_len) == path,
        path_len < 256 ==> path_text(decoded, path_len) == decoded,
        path_len >= 256 ==> path_text(decoded, path_len) == decoded + "…"@,
{
}

} // verus!
