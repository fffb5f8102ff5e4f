//! Path-string arithmetic: file names, extensions, and rename destinations.
//!
//! Paths are modelled as sequences of characters with `/` as the directory
//! separator.  The functions here never touch the filesystem; they only
//! compute with the path text.

use vstd::prelude::*;

verus! {

/// Index of the last occurrence of `c` in `s`, or -1 when `c` does not occur.
pub open spec fn last_index_of(s: Seq<char>, c: char) -> int
    decreases s.len(),
{
    if s.len() == 0 {
        -1
    } else if s[s.len() - 1] == c {
        s.len() - 1
    } else {
        last_index_of(s.drop_last(), c)
    }
}

pub proof fn lemma_last_index_of(s: Seq<char>, c: char)
    ensures
        -1 <= last_index_of(s, c) < s.len(),
        last_index_of(s, c) >= 0 ==> s[last_index_of(s, c)] == c,
        forall|j: int| last_index_of(s, c) < j < s.len() ==> s[j] != c,
    decreases s.len(),
{
    if s.len() > 0 && s[s.len() - 1] != c {
        lemma_last_index_of(s.drop_last(), c);
        assert forall|j: int| last_index_of(s, c) < j < s.len() implies s[j] != c by {
            if j < s.len() - 1 {
                assert(s.drop_last()[j] == s[j]);
            }
        }
    }
}

/// The part of `p` after the last separator: the file name (possibly empty).
pub open spec fn file_name_of(p: Seq<char>) -> Seq<char> {
    p.subrange(last_index_of(p, '/') + 1, p.len() as int)
}

/// The extension of a file name: the part after the last dot, unless the
/// only dot is the leading one (a dotfile has no extension) or there is
/// no dot at all.
pub open spec fn extension_of(name: Seq<char>) -> Option<Seq<char>> {
    let d = last_index_of(name, '.');
    if d <= 0 {
        None
    } else {
        Some(name.subrange(d + 1, name.len() as int))
    }
}

/// The stem of a file name: what precedes the extension, or the whole
/// name when there is none.
pub open spec fn stem_of(name: Seq<char>) -> Seq<char> {
    let d = last_index_of(name, '.');
    if d <= 0 {
        name
    } else {
        name.subrange(0, d)
    }
}

/// The extension of a file name, with `png` standing in when it has none.
pub open spec fn extension_or_default(name: Seq<char>) -> Seq<char> {
    match extension_of(name) {
        Some(e) => e,
        None => "png"@,
    }
}

/// Index of the last occurrence of `c` in `s`, if any.
pub(crate) fn find_last(s: &str, c: char) -> (r: Option<usize>)
    ensures
        match r {
            Some(i) => i == last_index_of(s@, c),
            None => last_index_of(s@, c) == -1,
        },
{
    let n = s.unicode_len();
    let mut i = n;
    assert(s@.subrange(0, n as int) =~= s@);
    while i > 0
        invariant
            i <= n,
            n == s@.len(),
            last_index_of(s@, c) == last_index_of(s@.subrange(0, i as int), c),
        decreases i,
    {
        let ch = s.get_char(i - 1);
        proof {
            assert(s@.subrange(0, i as int).drop_last() =~= s@.subrange(0, i - 1));
        }
        if ch == c {
            return Some(i - 1);
        }
        i = i - 1;
    }
    None
}

/// The directory part of `p` up to and including the last separator, or
/// empty when `p` is a bare file name.
pub open spec fn dir_prefix_of(p: Seq<char>) -> Seq<char> {
    let sep = last_index_of(p, '/');
    if sep >= 0 {
        p.subrange(0, sep + 1)
    } else {
        Seq::empty()
    }
}

/// The file name the rename produces: the stem of the proposed name with
/// the extension re-applied, or the stem alone when the extension is empty.
pub open spec fn dest_file_name_of(new_name: Seq<char>, ext: Seq<char>) -> Seq<char> {
    if ext.len() == 0 {
        stem_of(new_name)
    } else {
        stem_of(new_name) + seq!['.'] + ext
    }
}

/// The full destination path of a rename: the original directory joined
/// with the proposed base name, carrying over the original extension
/// (`png` when the original had none).
pub open spec fn dest_path_of(p: Seq<char>, new_name: Seq<char>) -> Seq<char> {
    dir_prefix_of(p) + dest_file_name_of(new_name, extension_or_default(file_name_of(p)))
}

/// Computes where `file_to_edit` goes when renamed to the base name
/// `new_file_name`: same directory, new stem, original extension
/// (default `png`).  The name is meant to be a bare, non-empty file name;
/// the sanitizer upstream strips separators from it.  The caller performs
/// the actual rename.
pub fn rename_destination(file_to_edit: &str, new_file_name: &str) -> (r: String)
    ensures
        r@ == dest_path_of(file_to_edit@, new_file_name@),
{
    let mut out = String::new();
    let n = file_to_edit.unicode_len();
    proof {
        lemma_last_index_of(file_to_edit@, '/');
    }
    match find_last(file_to_edit, '/') {
        Some(sep) => {
            out.append(file_to_edit.substring_char(0, sep + 1));
        },
        None => {},
    }
    assert(out@ =~= dir_prefix_of(file_to_edit@));
    proof {
        lemma_last_index_of(new_file_name@, '.');
    }
    let stem = match find_last(new_file_name, '.') {
        Some(d) if d > 0 => new_file_name.substring_char(0, d),
        _ => new_file_name,
    };
    assert(stem@ == stem_of(new_file_name@));
    out.append(stem);
    let ext = get_file_extension(file_to_edit);
    if ext.unicode_len() > 0 {
        out.append(".");
        out.append(ext);
        proof {
            reveal_strlit(".");
            assert("."@ =~= seq!['.']);
        }
    }
    assert(out@ =~= dest_path_of(file_to_edit@, new_file_name@));
    out
}

/// The extension of the file name of `file_path`, or `png` when the name
/// has none; mirrors how a renamer falls back for extension-less files.
pub fn get_file_extension(file_path: &str) -> (r: &str)
    ensures
        r@ == extension_or_default(file_name_of(file_path@)),
{
    let n = file_path.unicode_len();
    proof {
        lemma_last_index_of(file_path@, '/');
    }
    let name_start = match find_last(file_path, '/') {
        Some(sep) => sep + 1,
        None => 0,
    };
    let name = file_path.substring_char(name_start, n);
    assert(name@ =~= file_name_of(file_path@));
    proof {
        lemma_last_index_of(name@, '.');
    }
    match find_last(name, '.') {
        Some(d) if d > 0 => {
            let name_len = name.unicode_len();
            name.substring_char(d + 1, name_len)
        },
        _ => "png",
    }
}

}
