//! Names and short texts shown for tabs and points.

use vstd::prelude::*;
use vstd::utf8::{decode_utf8, encode_utf8_decode_utf8};
use vstd::string::StringSliceAdditionalSpecFns;
use crate::decimal::{decimal, push_decimal};
use crate::paths::{path_file_name, named_by_file_name};
use crate::points::MIN_POINTS;

verus! {

/// Names longer than this many bytes are shortened in the tab bar.
pub const TAB_TITLE_MAX_BYTES: usize = 18;

/// A shortened name keeps this many of its bytes, then an ellipsis.
pub const TAB_TITLE_KEPT_BYTES: usize = 15;

/// The name of a tab made without an image: `Image` and its id.
pub open spec fn default_tab_name_spec(id: nat) -> Seq<char> {
    "Image "@ + decimal(id)
}

/// `Image ` followed by the decimal digits of `id`.
pub fn default_tab_name(id: usize) -> (s: String)
    ensures
        s@ == default_tab_name_spec(id as nat),
{
    let mut s = String::from_str("Image ");
    push_decimal(&mut s, id);
    s
}

/// The name of tab `id` once an image whose path has the file name
/// `file_name` is loaded into it: that file name, or the default name when
/// the path has none.
pub fn tab_name_from_file_name(file_name: Option<String>, id: usize) -> (s: String)
    ensures
        s@ == match file_name {
            Some(n) => n@,
            None => default_tab_name_spec(id as nat),
        },
{
    match file_name {
        Some(name) => name,
        None => default_tab_name(id),
    }
}

/// The name of tab `id` once the image at `path` is loaded into it: the
/// file name of the path, or the default name when it has none.
pub fn tab_name_for_path(path: &str, id: usize) -> (s: String)
    ensures
        named_by_file_name(s@, path@, default_tab_name_spec(id as nat)),
{
    tab_name_from_file_name(path_file_name(path), id)
}

/// The status shown while a tab has too few points for a homography.
pub fn insufficient_points_message(count: usize) -> (s: String)
    ensures
        s@ == "Need at least "@ + decimal(MIN_POINTS as nat) + " points ("@ + decimal(count as nat)
            + " so far)."@,
{
    let mut s = String::from_str("Need at least ");
    push_decimal(&mut s, MIN_POINTS);
    s.append(" points (");
    push_decimal(&mut s, count);
    s.append(" so far).");
    s
}

/// The title of the tab at `position` in the tab bar: its number from one,
/// a dot, and its name, shortened to its first `TAB_TITLE_KEPT_BYTES` bytes
/// and an ellipsis when it is longer than `TAB_TITLE_MAX_BYTES` bytes. The
/// cut must fall on a character boundary.
pub fn tab_title(position: usize, name: &str) -> (t: String)
    requires
        position < usize::MAX,
        name.spec_bytes().len() <= usize::MAX,
        name.spec_bytes().len() > TAB_TITLE_MAX_BYTES ==> vstd::utf8::is_char_boundary(
            name.spec_bytes(),
            TAB_TITLE_KEPT_BYTES as int,
        ),
    ensures
        name.spec_bytes().len() <= TAB_TITLE_MAX_BYTES ==> t@ == decimal((position + 1) as nat) + ". "@ + name@,
        name.spec_bytes().len() > TAB_TITLE_MAX_BYTES ==> t@ == decimal((position + 1) as nat) + ". "@
            + decode_utf8(name.spec_bytes().subrange(0, TAB_TITLE_KEPT_BYTES as int)) + "..."@,
{
    let mut t = String::new();
    push_decimal(&mut t, position + 1);
    t.append(". ");
    if name.len() > TAB_TITLE_MAX_BYTES {
        let (kept, _) = name.split_at(TAB_TITLE_KEPT_BYTES);
        t.append(kept);
        t.append("...");
        proof {
            encode_utf8_decode_utf8(kept@);
        }
    } else {
        t.append(name);
    }
    t
}


/// How the status line is coloured, by how its text begins.
#[derive(Debug, PartialEq, Eq, Clone, Copy, Structural)]
pub enum StatusKind {
    /// A failure: red.
    Failure,
    /// A computed result: light blue.
    Measurement,
    /// A file written: green.
    Written,
    /// Anything else: grey.
    Plain,
}

/// Whether `s` begins with `prefix`, as `str::starts_with` decides for a
/// string pattern.
pub fn starts_with(s: &str, prefix: &str) -> (b: bool)
    ensures
        b == prefix@.is_prefix_of(s@),
{
    let n = prefix.unicode_len();
    if n > s.unicode_len() {
        return false;
    }
    let mut i: usize = 0;
    while i < n
        invariant
            n == prefix@.len(),
            n <= s@.len(),
            i <= n,
            forall|k: int| 0 <= k < i ==> #[trigger] prefix@[k] == s@[k],
        decreases n - i,
    {
        if prefix.get_char(i) != s.get_char(i) {
            assert(prefix@[i as int] != s@.subrange(0, n as int)[i as int]);
            return false;
        }
        i = i + 1;
    }
    assert(s@.subrange(0, n as int) =~= prefix@);
    true
}

/// The colour class of a status text.
pub open spec fn status_kind_spec(s: Seq<char>) -> StatusKind {
    if "Failed"@.is_prefix_of(s) || "Homography failed"@.is_prefix_of(s)
        || "Export failed"@.is_prefix_of(s) || "Save failed"@.is_prefix_of(s) {
        StatusKind::Failure
    } else if "RMS"@.is_prefix_of(s) || "Merged"@.is_prefix_of(s) {
        StatusKind::Measurement
    } else if "Exported"@.is_prefix_of(s) || "Saved"@.is_prefix_of(s) {
        StatusKind::Written
    } else {
        StatusKind::Plain
    }
}

/// Classifies the status text for colouring.
pub fn status_kind(status: &str) -> (k: StatusKind)
    ensures
        k == status_kind_spec(status@),
{
    if starts_with(status, "Failed") || starts_with(status, "Homography failed")
        || starts_with(status, "Export failed") || starts_with(status, "Save failed") {
        StatusKind::Failure
    } else if starts_with(status, "RMS") || starts_with(status, "Merged") {
        StatusKind::Measurement
    } else if starts_with(status, "Exported") || starts_with(status, "Saved") {
        StatusKind::Written
    } else {
        StatusKind::Plain
    }
}

} // verus!
