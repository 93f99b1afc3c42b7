//! A path is modelled as a `/`-separated character string. The helpers
//! here split such a string into directory prefix, file name, stem and
//! extension, and decide whether a path names a source image or a lock
//! file. A trailing separator is not special-cased: the file name is
//! simply everything after the last `/`.

use vstd::prelude::*;
use vstd::string::*;
use crate::chars::{chars_of, lower_char, lower_seq, to_lower};

verus! {

/// Index of the first character of the file name: one past the last `/`,
/// or `0` when the path has no separator.
pub open spec fn file_name_start(p: Seq<char>) -> int
    decreases p.len(),
{
    if p.len() == 0 {
        0
    } else if p.last() == '/' {
        p.len() as int
    } else {
        file_name_start(p.drop_last())
    }
}

/// Everything after the last `/` (the whole path when there is none).
pub open spec fn file_name_of(p: Seq<char>) -> Seq<char> {
    p.subrange(file_name_start(p), p.len() as int)
}

/// Everything up to and including the last `/` (empty when there is none).
pub open spec fn dir_prefix_of(p: Seq<char>) -> Seq<char> {
    p.subrange(0, file_name_start(p))
}

/// Index of the `.` that separates stem and extension inside a file
/// name: the last `.` at position one or later. `-1` when there is no
/// such dot, so a leading dot alone never starts an extension.
pub open spec fn stem_dot(name: Seq<char>) -> int
    decreases name.len(),
{
    if name.len() <= 1 {
        -1
    } else if name.last() == '.' {
        (name.len() - 1) as int
    } else {
        stem_dot(name.drop_last())
    }
}

/// The file name without its extension (the whole name when it has none).
pub open spec fn stem_of(p: Seq<char>) -> Seq<char> {
    let name = file_name_of(p);
    let d = stem_dot(name);
    if d < 0 {
        name
    } else {
        name.subrange(0, d)
    }
}

/// The extension, without the dot, when the file name has one.
pub open spec fn extension_of(p: Seq<char>) -> Option<Seq<char>> {
    let name = file_name_of(p);
    let d = stem_dot(name);
    if d < 0 {
        Option::None
    } else {
        Option::Some(name.subrange(d + 1, name.len() as int))
    }
}

pub proof fn lemma_file_name_start_bounds(p: Seq<char>)
    ensures
        0 <= file_name_start(p) <= p.len(),
        file_name_start(p) > 0 ==> p[file_name_start(p) - 1] == '/',
        forall|k: int| file_name_start(p) <= k < p.len() ==> p[k] != '/',
    decreases p.len(),
{
    if p.len() > 0 && p.last() != '/' {
        lemma_file_name_start_bounds(p.drop_last());
        assert(forall|k: int| 0 <= k < p.len() - 1 ==> p.drop_last()[k] == p[k]);
    }
}

pub proof fn lemma_stem_dot_bounds(name: Seq<char>)
    ensures
        stem_dot(name) == -1 || (1 <= stem_dot(name) < name.len()),
        stem_dot(name) >= 1 ==> name[stem_dot(name)] == '.',
        forall|k: int| stem_dot(name) < k < name.len() && k >= 1 ==> name[k] != '.',
    decreases name.len(),
{
    if name.len() > 1 && name.last() != '.' {
        lemma_stem_dot_bounds(name.drop_last());
        assert(forall|k: int| 0 <= k < name.len() - 1 ==> name.drop_last()[k] == name[k]);
    }
}

/// One past the position of the last `/` in the characters `v`, found by
/// scanning backwards.
pub fn find_file_name_start(v: &Vec<char>) -> (r: usize)
    ensures
        r == file_name_start(v@),
{
    let mut j: usize = v.len();
    assert(v@.subrange(0, v@.len() as int) =~= v@);
    while j > 0
        invariant
            j <= v@.len(),
            file_name_start(v@) == file_name_start(v@.subrange(0, j as int)),
        decreases j,
    {
        if v[j - 1] == '/' {
            assert(v@.subrange(0, j as int).last() == '/');
            assert(file_name_start(v@.subrange(0, j as int)) == j);
            return j;
        }
        assert(v@.subrange(0, j as int).last() != '/');
        assert(v@.subrange(0, j as int).drop_last() =~= v@.subrange(0, j - 1));
        j = j - 1;
    }
    assert(v@.subrange(0, 0) =~= Seq::<char>::empty());
    0
}

/// Position of the dot separating stem and extension in the file name
/// `v`, or `None`.
pub fn find_stem_dot(v: &Vec<char>) -> (r: Option<usize>)
    ensures
        match r {
            Option::Some(d) => stem_dot(v@) == d,
            Option::None => stem_dot(v@) == -1,
        },
{
    let mut j: usize = v.len();
    assert(v@.subrange(0, v@.len() as int) =~= v@);
    while j > 1
        invariant
            j <= v@.len(),
            stem_dot(v@) == stem_dot(v@.subrange(0, j as int)),
        decreases j,
    {
        if v[j - 1] == '.' {
            assert(v@.subrange(0, j as int).last() == '.');
            return Option::Some(j - 1);
        }
        assert(v@.subrange(0, j as int).last() != '.');
        assert(v@.subrange(0, j as int).drop_last() =~= v@.subrange(0, j - 1));
        j = j - 1;
    }
    assert(v@.subrange(0, j as int).len() <= 1);
    Option::None
}

/// The extension characters of the path `v`, when it has an extension.
pub fn extension_chars(v: &Vec<char>) -> (r: Option<Vec<char>>)
    ensures
        match r {
            Option::Some(e) => extension_of(v@) == Option::Some(e@),
            Option::None => extension_of(v@) is None,
        },
{
    let start = find_file_name_start(v);
    proof {
        lemma_file_name_start_bounds(v@);
    }
    let mut name: Vec<char> = Vec::new();
    let mut i: usize = start;
    while i < v.len()
        invariant
            file_name_start(v@) <= i <= v@.len(),
            start == file_name_start(v@),
            name@ == v@.subrange(start as int, i as int),
        decreases v@.len() - i,
    {
        name.push(v[i]);
        i = i + 1;
        assert(name@ =~= v@.subrange(start as int, i as int));
    }
    assert(name@ =~= file_name_of(v@));
    match find_stem_dot(&name) {
        Option::Some(d) => {
            proof {
                lemma_stem_dot_bounds(name@);
            }
            let mut ext: Vec<char> = Vec::new();
            let mut k: usize = d + 1;
            while k < name.len()
                invariant
                    stem_dot(name@) == d,
                    1 <= d < name@.len(),
                    d + 1 <= k <= name@.len(),
                    ext@ == name@.subrange(d + 1, k as int),
                decreases name@.len() - k,
            {
                ext.push(name[k]);
                k = k + 1;
                assert(ext@ =~= name@.subrange(d + 1, k as int));
            }
            assert(ext@ =~= name@.subrange(d + 1, name@.len() as int));
            Option::Some(ext)
        },
        Option::None => Option::None,
    }
}

/// Whether the path's extension is `heic` or `heif`, compared without
/// regard to ASCII case.
pub open spec fn is_target_ext_spec(p: Seq<char>) -> bool {
    match extension_of(p) {
        Option::Some(e) => lower_seq(e) == seq!['h', 'e', 'i', 'c'] || lower_seq(e) == seq![
            'h',
            'e',
            'i',
            'f',
        ],
        Option::None => false,
    }
}

/// Whether the path's extension is `lock`, compared without regard to
/// ASCII case.
pub open spec fn is_lock_ext_spec(p: Seq<char>) -> bool {
    match extension_of(p) {
        Option::Some(e) => lower_seq(e) == seq!['l', 'o', 'c', 'k'],
        Option::None => false,
    }
}

fn ext_matches(ext: &Vec<char>, c0: char, c1: char, c2: char, c3: char) -> (r: bool)
    ensures
        r == (lower_seq(ext@) == seq![c0, c1, c2, c3]),
{
    if ext.len() != 4 {
        assert(lower_seq(ext@).len() == ext@.len());
        return false;
    }
    let m = lower_char(ext[0]) == c0 && lower_char(ext[1]) == c1 && lower_char(ext[2]) == c2
        && lower_char(ext[3]) == c3;
    if m {
        assert(lower_seq(ext@) =~= seq![c0, c1, c2, c3]);
    } else {
        assert(lower_seq(ext@) != seq![c0, c1, c2, c3]) by {
            if lower_seq(ext@) == seq![c0, c1, c2, c3] {
                assert(lower_seq(ext@)[0] == to_lower(ext@[0]));
                assert(lower_seq(ext@)[1] == to_lower(ext@[1]));
                assert(lower_seq(ext@)[2] == to_lower(ext@[2]));
                assert(lower_seq(ext@)[3] == to_lower(ext@[3]));
            }
        }
    }
    m
}

/// Whether the file named by `path` is a conversion source by its
/// extension alone (`heic` or `heif`, any ASCII case).
pub fn is_target_extension(path: &str) -> (r: bool)
    ensures
        r == is_target_ext_spec(path@),
{
    let v = chars_of(path);
    match extension_chars(&v) {
        Option::Some(ext) => {
            let heic = ext_matches(&ext, 'h', 'e', 'i', 'c');
            let heif = ext_matches(&ext, 'h', 'e', 'i', 'f');
            heic || heif
        },
        Option::None => false,
    }
}

/// Whether `path` names a file to convert: a regular file with a target
/// extension. The caller reports whether the path is a regular file.
pub fn is_target_file(path: &str, is_regular_file: bool) -> (r: bool)
    ensures
        r == (is_regular_file && is_target_ext_spec(path@)),
{
    if !is_regular_file {
        return false;
    }
    is_target_extension(path)
}

/// Whether `path` is a lock or sidecar file that must never be converted.
pub fn is_lock_file(path: &str) -> (r: bool)
    ensures
        r == is_lock_ext_spec(path@),
{
    let v = chars_of(path);
    match extension_chars(&v) {
        Option::Some(ext) => ext_matches(&ext, 'l', 'o', 'c', 'k'),
        Option::None => false,
    }
}

} // verus!
