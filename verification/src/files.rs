//! What kind of file a path names, judged by its extension: a project file
//! or one of the image formats the tool opens.

use vstd::prelude::*;

verus! {

/// Extension of project files.
pub const PROJECT_EXTENSION: &'static str = "json";

/// Extensions of the image files the tool opens, in lower case.
pub open spec fn image_extensions() -> Seq<Seq<char>> {
    seq!["png"@, "jpg"@, "jpeg"@, "bmp"@, "webp"@, "tiff"@]
}

/// What a file dropped onto the window is taken for.
#[derive(Debug, PartialEq, Eq, Clone, Copy, Structural)]
pub enum DroppedFile {
    Project,
    Image,
    Ignored,
}

/// The text that `str::to_lowercase` makes of `s`: its lower-case form by
/// Unicode's case mappings, final sigma mapped by its context.
pub uninterp spec fn lowercase(s: Seq<char>) -> Seq<char>;

/// `c` with an upper-case ASCII letter replaced by the same letter in
/// lower case; any other character as it is.
pub open spec fn ascii_lower(c: char) -> char {
    if 'A' <= c && c <= 'Z' {
        ((c as u32) + 32) as char
    } else {
        c
    }
}

/// Every character of `s` is ASCII.
pub open spec fn is_ascii_text(s: Seq<char>) -> bool {
    forall|i: int| 0 <= i < s.len() ==> (#[trigger] s[i] as u32) < 128
}

/// `s` with its upper-case ASCII letters in lower case.
pub open spec fn ascii_lowercase(s: Seq<char>) -> Seq<char> {
    s.map_values(|c: char| ascii_lower(c))
}

/// `str::to_lowercase`: the lower-case form of `s` by Unicode's case
/// mappings. On ASCII text those mappings take `A`..`Z` to `a`..`z` and
/// leave every other character as it is; beyond ASCII the result is only
/// named.
#[verifier::external_body]
fn to_lowercase(s: &str) -> (l: String)
    ensures
        l@ == lowercase(s@),
        is_ascii_text(s@) ==> l@ == ascii_lowercase(s@),
{
    s.to_lowercase()
}

/// The ASCII code of `c` with upper-case ASCII letters folded to lower
/// case; other characters keep their code.
pub open spec fn ascii_fold(c: char) -> int {
    if 'A' <= c && c <= 'Z' {
        c as int + 32
    } else {
        c as int
    }
}

/// `a` and `b` are equal up to the case of ASCII letters, as
/// `str::eq_ignore_ascii_case` decides.
pub open spec fn eq_ignore_ascii_case_spec(a: Seq<char>, b: Seq<char>) -> bool {
    a.len() == b.len() && forall|i: int| 0 <= i < a.len() ==> ascii_fold(#[trigger] a[i]) == ascii_fold(b[i])
}

/// Compares `a` and `b` ignoring the case of ASCII letters.
pub fn eq_ignore_ascii_case(a: &str, b: &str) -> (r: bool)
    ensures
        r == eq_ignore_ascii_case_spec(a@, b@),
{
    let n = a.unicode_len();
    if n != b.unicode_len() {
        return false;
    }
    let mut i: usize = 0;
    while i < n
        invariant
            n == a@.len(),
            n == b@.len(),
            i <= n,
            forall|k: int| 0 <= k < i ==> ascii_fold(#[trigger] a@[k]) == ascii_fold(b@[k]),
        decreases n - i,
    {
        let ca = a.get_char(i);
        let cb = b.get_char(i);
        let fa: u32 = if 'A' <= ca && ca <= 'Z' { (ca as u32) + 32 } else { ca as u32 };
        let fb: u32 = if 'A' <= cb && cb <= 'Z' { (cb as u32) + 32 } else { cb as u32 };
        if fa != fb {
            return false;
        }
        i = i + 1;
    }
    true
}

/// Whether a path with the extension `ext`, if it has one, is a project
/// file: its extension is `json` in any ASCII case.
pub fn is_project_extension(ext: Option<&str>) -> (b: bool)
    ensures
        b == (ext matches Some(e) && eq_ignore_ascii_case_spec(e@, PROJECT_EXTENSION@)),
{
    match ext {
        Some(e) => eq_ignore_ascii_case(e, PROJECT_EXTENSION),
        None => false,
    }
}

/// What a file whose extension has the lower-case form `lower` is taken for.
pub open spec fn dropped_kind(lower: Seq<char>) -> DroppedFile {
    if lower == PROJECT_EXTENSION@ {
        DroppedFile::Project
    } else if image_extensions().contains(lower) {
        DroppedFile::Image
    } else {
        DroppedFile::Ignored
    }
}

/// The image formats `png`, `jpg`, `jpeg`, `bmp`, `webp` and `tiff` are
/// taken for images, `json` for a project, and every other lower-case
/// extension is ignored.
pub proof fn lemma_dropped_kinds(lower: Seq<char>)
    ensures
        lower == "png"@ || lower == "jpg"@ || lower == "jpeg"@ || lower == "bmp"@ || lower == "webp"@
            || lower == "tiff"@ ==> dropped_kind(lower) == DroppedFile::Image,
        lower == "json"@ ==> dropped_kind(lower) == DroppedFile::Project,
        !(lower == "png"@ || lower == "jpg"@ || lower == "jpeg"@ || lower == "bmp"@ || lower == "webp"@
            || lower == "tiff"@ || lower == "json"@) ==> dropped_kind(lower) == DroppedFile::Ignored,
{
    reveal_strlit("json");
    reveal_strlit("png");
    reveal_strlit("jpg");
    reveal_strlit("jpeg");
    reveal_strlit("bmp");
    reveal_strlit("webp");
    reveal_strlit("tiff");
    let exts = image_extensions();
    if lower == "png"@ {
        assert(exts[0] == lower);
        assert(lower.len() != 4 || lower[1] != PROJECT_EXTENSION@[1] || lower[0] != PROJECT_EXTENSION@[0]);
    }
    if lower == "jpg"@ {
        assert(exts[1] == lower);
        assert(lower.len() != 4 || lower[1] != PROJECT_EXTENSION@[1] || lower[0] != PROJECT_EXTENSION@[0]);
    }
    if lower == "jpeg"@ {
        assert(exts[2] == lower);
        assert(lower.len() != 4 || lower[1] != PROJECT_EXTENSION@[1] || lower[0] != PROJECT_EXTENSION@[0]);
    }
    if lower == "bmp"@ {
        assert(exts[3] == lower);
        assert(lower.len() != 4 || lower[1] != PROJECT_EXTENSION@[1] || lower[0] != PROJECT_EXTENSION@[0]);
    }
    if lower == "webp"@ {
        assert(exts[4] == lower);
        assert(lower.len() != 4 || lower[1] != PROJECT_EXTENSION@[1] || lower[0] != PROJECT_EXTENSION@[0]);
    }
    if lower == "tiff"@ {
        assert(exts[5] == lower);
        assert(lower.len() != 4 || lower[1] != PROJECT_EXTENSION@[1] || lower[0] != PROJECT_EXTENSION@[0]);
    }
}

/// An ASCII extension is taken for what its lower-case form names, whatever
/// the case of its letters: `JPG`, `Png` and `TIFF` are images as `jpg`,
/// `png` and `tiff` are, and `JSON` is a project as `json` is.
pub proof fn lemma_extension_case_ignored(ext: Seq<char>, lower: Seq<char>)
    requires
        is_ascii_text(ext),
        lower == "png"@ || lower == "jpg"@ || lower == "jpeg"@ || lower == "bmp"@ || lower == "webp"@
            || lower == "tiff"@ || lower == "json"@,
        eq_ignore_ascii_case_spec(ext, lower),
    ensures
        dropped_kind(ascii_lowercase(ext)) == dropped_kind(lower),
{
    reveal_strlit("json");
    reveal_strlit("png");
    reveal_strlit("jpg");
    reveal_strlit("jpeg");
    reveal_strlit("bmp");
    reveal_strlit("webp");
    reveal_strlit("tiff");
    assert forall|i: int| 0 <= i < lower.len() implies 'a' <= #[trigger] lower[i] && lower[i] <= 'z' by {}
    assert forall|i: int| 0 <= i < ext.len() implies #[trigger] ascii_lowercase(ext)[i] == lower[i] by {
        assert(ascii_fold(ext[i]) == ascii_fold(lower[i]));
        if 'A' <= ext[i] && ext[i] <= 'Z' {
            assert(((ext[i] as u32) + 32) as char == lower[i]);
        }
    }
    assert(ascii_lowercase(ext) =~= lower);
}

/// What a dropped file is taken for, given its extension already in lower
/// case: a project file, one of the image formats, or neither.
pub fn classify_lowercase_extension(lower: &str) -> (k: DroppedFile)
    ensures
        k == dropped_kind(lower@),
{
    let l = String::from_str(lower);
    let json = String::from_str(PROJECT_EXTENSION);
    if l == json {
        return DroppedFile::Project;
    }
    let png = String::from_str("png");
    let jpg = String::from_str("jpg");
    let jpeg = String::from_str("jpeg");
    let bmp = String::from_str("bmp");
    let webp = String::from_str("webp");
    let tiff = String::from_str("tiff");
    let found = l == png || l == jpg || l == jpeg || l == bmp || l == webp || l == tiff;
    proof {
        let v = lower@;
        let exts = image_extensions();
        if found {
            if v == "png"@ { assert(exts[0] == v); }
            else if v == "jpg"@ { assert(exts[1] == v); }
            else if v == "jpeg"@ { assert(exts[2] == v); }
            else if v == "bmp"@ { assert(exts[3] == v); }
            else if v == "webp"@ { assert(exts[4] == v); }
            else { assert(exts[5] == v); }
        } else {
            assert forall|k: int| 0 <= k < exts.len() implies exts[k] != v by {}
        }
    }
    if found {
        DroppedFile::Image
    } else {
        DroppedFile::Ignored
    }
}

/// What a dropped file with the extension `ext` (empty when it has none)
/// is taken for, by the lower-case form of the extension.
pub fn classify_dropped_extension(ext: &str) -> (k: DroppedFile)
    ensures
        k == dropped_kind(lowercase(ext@)),
        is_ascii_text(ext@) ==> k == dropped_kind(ascii_lowercase(ext@)),
{
    let lower = to_lowercase(ext);
    classify_lowercase_extension(lower.as_str())
}

} // verus!
