//! The screenshot classifier: a pure predicate deciding whether a path
//! names a fresh screenshot worth processing.
//!
//! A candidate must exist, not be a directory, carry exactly the `png`
//! extension, and have `screenshot` somewhere in its file name, compared
//! without regard to ASCII letter case.  The existence facts come from the
//! caller, so the predicate itself stays free of filesystem access.

use vstd::prelude::*;

use crate::pathops::{extension_of, file_name_of};

verus! {

/// Whether character `c` counts as an occurrence of the pattern character
/// `p`: either exactly, or as the ASCII uppercase of a lowercase `p`.
pub open spec fn char_matches_insensitive(c: char, p: char) -> bool {
    c == p || ('a' <= p && p <= 'z' && c as int + 32 == p as int)
}

/// Whether `needle` occurs in `hay` starting at position `i`, ASCII
/// case-insensitively.
pub open spec fn matches_at(hay: Seq<char>, needle: Seq<char>, i: int) -> bool {
    forall|k: int| 0 <= k < needle.len() ==> char_matches_insensitive(hay[i + k], needle[k])
}

/// Whether `needle` occurs anywhere in `hay`, ASCII case-insensitively.
pub open spec fn contains_insensitive(hay: Seq<char>, needle: Seq<char>) -> bool {
    exists|i: int| 0 <= i && i + needle.len() <= hay.len() && matches_at(hay, needle, i)
}

/// Whether the text of `p` has the shape of a screenshot file: a `png`
/// extension (exact case) and `screenshot` in the file name (any ASCII
/// case).
pub open spec fn screenshot_name_matches(p: Seq<char>) -> bool {
    &&& match extension_of(file_name_of(p)) {
        Some(e) => e == "png"@,
        None => false,
    }
    &&& contains_insensitive(file_name_of(p), "screenshot"@)
}

/// What the classifier accepts: an existing non-directory path whose text
/// matches the screenshot shape.
pub open spec fn classifier_accepts(p: Seq<char>, exists: bool, is_dir: bool) -> bool {
    exists && !is_dir && screenshot_name_matches(p)
}

/// Whether `c` equals `p` exactly, or is the ASCII uppercase of a
/// lowercase `p`.
fn char_eq_insensitive(c: char, p: char) -> (r: bool)
    ensures
        r == char_matches_insensitive(c, p),
{
    c == p || ('a' <= p && p <= 'z' && c as u32 == p as u32 - 32)
}

/// Whether `needle` occurs in `hay`, compared ASCII case-insensitively on
/// the needle's lowercase letters.
pub fn contains_str_insensitive(hay: &str, needle: &str) -> (r: bool)
    ensures
        r == contains_insensitive(hay@, needle@),
{
    let hay_len = hay.unicode_len();
    let needle_len = needle.unicode_len();
    if needle_len > hay_len {
        return false;
    }
    let mut i: usize = 0;
    while i <= hay_len - needle_len
        invariant
            needle_len <= hay_len,
            hay_len == hay@.len(),
            needle_len == needle@.len(),
            i <= hay_len - needle_len + 1,
            forall|j: int| 0 <= j < i ==> !matches_at(hay@, needle@, j),
        decreases hay_len - i,
    {
        let mut k: usize = 0;
        let mut mismatch = false;
        while k < needle_len && !mismatch
            invariant
                needle_len <= hay_len,
                hay_len == hay@.len(),
                needle_len == needle@.len(),
                i + needle_len <= hay_len,
                k <= needle_len,
                !mismatch ==> forall|k2: int| 0 <= k2 < k ==> char_matches_insensitive(
                    hay@[i + k2],
                    needle@[k2],
                ),
                mismatch ==> !matches_at(hay@, needle@, i as int),
            decreases needle_len - k + (if mismatch { 0int } else { 1int }),
        {
            let hc = hay.get_char(i + k);
            let nc = needle.get_char(k);
            if char_eq_insensitive(hc, nc) {
                k = k + 1;
            } else {
                mismatch = true;
            }
        }
        if !mismatch {
            assert(matches_at(hay@, needle@, i as int));
            return true;
        }
        i = i + 1;
    }
    false
}

/// Decides whether `path` names a new screenshot: it must exist (`exists`),
/// not be a directory (`is_dir`), have the exact extension `png`, and hold
/// `screenshot` in its file name in any ASCII letter case.  The caller
/// supplies the two filesystem facts; a path whose existence cannot be
/// established counts as absent, so the check fails closed.
pub fn is_new_screenshot(path: &str, exists: bool, is_dir: bool) -> (r: bool)
    ensures
        r == classifier_accepts(path@, exists, is_dir),
{
    if is_dir || !exists {
        return false;
    }
    let n = path.unicode_len();
    proof {
        crate::pathops::lemma_last_index_of(path@, '/');
        reveal_strlit("png");
    }
    let name_start = match crate::pathops::find_last(path, '/') {
        Some(sep) => sep + 1,
        None => 0,
    };
    let name = path.substring_char(name_start, n);
    assert(name@ =~= file_name_of(path@));
    proof {
        crate::pathops::lemma_last_index_of(name@, '.');
    }
    let ext_ok: bool = match crate::pathops::find_last(name, '.') {
        Some(d) if d > 0 => {
            let name_len = name.unicode_len();
            let ext = name.substring_char(d + 1, name_len);
            let same = ext.unicode_len() == 3 && ext.get_char(0) == 'p' && ext.get_char(1) == 'n'
                && ext.get_char(2) == 'g';
            proof {
                if same {
                    assert(ext@ =~= "png"@);
                }
            }
            same
        },
        _ => false,
    };
    assert(ext_ok == match extension_of(file_name_of(path@)) {
        Some(e) => e == "png"@,
        None => false,
    });
    if !ext_ok {
        return false;
    }
    contains_str_insensitive(name, "screenshot")
}

/// A path lacking the `png` extension, or lacking `screenshot` in its file
/// name in any ASCII case, never matches the screenshot shape, so the
/// classifier refuses it whatever the filesystem says.
pub proof fn lemma_classifier_rejects(p: Seq<char>, exists: bool, is_dir: bool)
    requires
        extension_of(file_name_of(p)) != Some("png"@) || !contains_insensitive(
            file_name_of(p),
            "screenshot"@,
        ),
    ensures
        !classifier_accepts(p, exists, is_dir),
{
    if extension_of(file_name_of(p)) matches Some(e) && e == "png"@ {
        assert(extension_of(file_name_of(p)) == Some("png"@));
    }
}

/// A path whose text matches the screenshot shape is accepted by the
/// classifier whenever it exists and is not a directory.
pub proof fn lemma_classifier_accepts(p: Seq<char>, exists: bool, is_dir: bool)
    requires
        screenshot_name_matches(p),
        exists,
        !is_dir,
    ensures
        classifier_accepts(p, exists, is_dir),
{
}

}
