//! Small verified helpers shared by the other modules: copying, path-name
//! dissection and the audio-extension test.

use vstd::prelude::*;
use vstd::string::*;

use crate::bridge;

verus! {

/// Index of the last occurrence of `c` in `s`.
pub open spec fn last_index_of_char(s: Seq<char>, c: char) -> Option<int>
    decreases s.len(),
{
    if s.len() == 0 {
        None
    } else if s.last() == c {
        Some(s.len() - 1)
    } else {
        last_index_of_char(s.drop_last(), c)
    }
}

/// Finds the last occurrence of `c` in `s`.
pub fn find_last_char(s: &str, c: char) -> (r: Option<usize>)
    ensures
        r is Some ==> last_index_of_char(s@, c) == Some(r->0 as int) && r->0 < s@.len(),
        r is None ==> last_index_of_char(s@, c) is None,
{
    let len = s.unicode_len();
    let mut found: Option<usize> = None;
    let mut i: usize = 0;
    while i < len
        invariant
            len == s@.len(),
            i <= len,
            found is Some ==> last_index_of_char(s@.take(i as int), c) == Some(found->0 as int)
                && found->0 < i,
            found is None ==> last_index_of_char(s@.take(i as int), c) is None,
        decreases len - i,
    {
        proof {
            assert(s@.take(i as int + 1).drop_last() =~= s@.take(i as int));
            assert(s@.take(i as int + 1).last() == s@[i as int]);
        }
        let ch = s.get_char(i);
        if ch == c {
            found = Some(i);
        }
        i = i + 1;
    }
    proof {
        assert(s@.take(s@.len() as int) =~= s@);
    }
    found
}

/// The part of a path after its last separator; the whole path where there is
/// no separator; `"unknown"` where that part is empty.
pub open spec fn base_name_of(path: Seq<char>) -> Seq<char> {
    let rest = match last_index_of_char(path, '/') {
        Some(i) => path.skip(i + 1),
        None => path,
    };
    if rest.len() == 0 {
        "unknown"@
    } else {
        rest
    }
}

/// Extracts the file name from a `/`-separated path, with `"unknown"` for an
/// empty result.
pub fn file_base_name(path: &str) -> (r: String)
    ensures
        r@ == base_name_of(path@),
{
    let len = path.unicode_len();
    let rest: &str = match find_last_char(path, '/') {
        Some(i) => path.substring_char(i + 1, len),
        None => path,
    };
    if rest.unicode_len() == 0 {
        let r = String::from_str("unknown");
        proof {
            assert(r@ == base_name_of(path@));
        }
        r
    } else {
        proof {
            assert(rest@ == base_name_of(path@));
        }
        String::from_str(rest)
    }
}

/// The extension of the file name of a `/`-separated path: what follows the
/// final `.` of the name, provided that `.` is not the name's first
/// character; absent otherwise.
pub open spec fn extension_of(path: Seq<char>) -> Option<Seq<char>> {
    let name = match last_index_of_char(path, '/') {
        Some(i) => path.skip(i + 1),
        None => path,
    };
    match last_index_of_char(name, '.') {
        Some(j) => if j > 0 {
            Some(name.skip(j + 1))
        } else {
            None
        },
        None => None,
    }
}

/// Whether the path names an audio file: its extension, folded to lower case,
/// is one of mp3, wav, m4a, flac, aac or ogg.
pub open spec fn is_audio_path(path: Seq<char>) -> bool {
    match extension_of(path) {
        Some(e) => {
            let l = bridge::lower_of(e);
            ||| l == "mp3"@
            ||| l == "wav"@
            ||| l == "m4a"@
            ||| l == "flac"@
            ||| l == "aac"@
            ||| l == "ogg"@
        },
        None => false,
    }
}

/// Decides whether the path names an audio file by its extension.
pub fn is_audio_file(file_path: &str) -> (r: bool)
    ensures
        r == is_audio_path(file_path@),
{
    let len = file_path.unicode_len();
    let name: &str = match find_last_char(file_path, '/') {
        Some(i) => file_path.substring_char(i + 1, len),
        None => file_path,
    };
    let name_len = name.unicode_len();
    let ext: &str = match find_last_char(name, '.') {
        Some(j) => {
            if j > 0 {
                name.substring_char(j + 1, name_len)
            } else {
                return false;
            }
        },
        None => {
            return false;
        },
    };
    let lower = bridge::to_lowercase(ext);
    let l = lower.as_str();
    strutil_eq_any_audio(l)
}

/// Compares a lower-cased extension against the six audio extensions.
fn strutil_eq_any_audio(l: &str) -> (r: bool)
    ensures
        r == (l@ == "mp3"@ || l@ == "wav"@ || l@ == "m4a"@ || l@ == "flac"@ || l@ == "aac"@ || l@
            == "ogg"@),
{
    crate::strutil::str_eq(l, "mp3") || crate::strutil::str_eq(l, "wav") || crate::strutil::str_eq(
        l,
        "m4a",
    ) || crate::strutil::str_eq(l, "flac") || crate::strutil::str_eq(l, "aac")
        || crate::strutil::str_eq(l, "ogg")
}

/// Copies a vector of strings; the copy holds equal strings.
pub fn clone_string_vec(v: &Vec<String>) -> (r: Vec<String>)
    ensures
        r@ == v@,
        r.deep_view() == v.deep_view(),
{
    let mut out: Vec<String> = Vec::new();
    let mut i: usize = 0;
    while i < v.len()
        invariant
            i <= v.len(),
            out@ =~= v@.subrange(0, i as int),
        decreases v.len() - i,
    {
        out.push(v[i].clone());
        i = i + 1;
    }
    assert(out@ =~= v@);
    out
}

/// Copies a vector of name/value pairs; the copy holds equal pairs.
pub fn clone_string_pairs(v: &Vec<(String, String)>) -> (r: Vec<(String, String)>)
    ensures
        r@ == v@,
        r.deep_view() == v.deep_view(),
{
    let mut out: Vec<(String, String)> = Vec::new();
    let mut i: usize = 0;
    while i < v.len()
        invariant
            i <= v.len(),
            out@ =~= v@.subrange(0, i as int),
        decreases v.len() - i,
    {
        let name = v[i].0.clone();
        let value = v[i].1.clone();
        out.push((name, value));
        i = i + 1;
    }
    assert(out@ =~= v@);
    out
}

/// Copies an optional string; the copy is equal to the original.
pub fn clone_opt_string(v: &Option<String>) -> (r: Option<String>)
    ensures
        r == v,
{
    match v {
        Some(s) => Some(s.clone()),
        None => None,
    }
}

} // verus!
