//! Paths: the name, the extension and the parent of a path as the standard library
//! takes them from it, and what the engine makes of them.

use std::path::Path;
use vstd::prelude::*;
use vstd::string::*;
use crate::error::Error;
use crate::text::{has_substring, lowercase, to_lowercase};

verus! {

/// Position of the last `c` in `s`, or -1 if there is none.
pub open spec fn last_index_of(s: Seq<char>, c: char) -> int
    decreases s.len(),
{
    if s.len() == 0 {
        -1
    } else if s.last() == c {
        s.len() - 1
    } else {
        last_index_of(s.drop_last(), c)
    }
}

/// Position of the first `c` in `s`, or the length of `s` if there is none.
pub open spec fn first_index_of(s: Seq<char>, c: char) -> int
    decreases s.len(),
{
    if s.len() == 0 {
        0
    } else if s[0] == c {
        0
    } else {
        1 + first_index_of(s.subrange(1, s.len() as int), c)
    }
}

/// The last position of `c` is a position of `c`, and none comes after it.
pub proof fn lemma_last_index_of(s: Seq<char>, c: char)
    ensures
        -1 <= last_index_of(s, c) < s.len(),
        last_index_of(s, c) >= 0 ==> s[last_index_of(s, c)] == c,
        forall|j: int| last_index_of(s, c) < j < s.len() ==> s[j] != c,
    decreases s.len(),
{
    if s.len() > 0 && s.last() != c {
        let front = s.drop_last();
        lemma_last_index_of(front, c);
        assert forall|j: int| last_index_of(s, c) < j < s.len() implies s[j] != c by {
            if j < front.len() {
                assert(front[j] == s[j]);
            }
        }
    }
}

/// The first position of `c` is a position of `c`, and none comes before it.
pub proof fn lemma_first_index_of(s: Seq<char>, c: char)
    ensures
        0 <= first_index_of(s, c) <= s.len(),
        first_index_of(s, c) < s.len() ==> s[first_index_of(s, c)] == c,
        forall|j: int| 0 <= j < first_index_of(s, c) ==> s[j] != c,
    decreases s.len(),
{
    if s.len() > 0 && s[0] != c {
        let rest = s.subrange(1, s.len() as int);
        lemma_first_index_of(rest, c);
        assert forall|j: int| 0 <= j < first_index_of(s, c) implies s[j] != c by {
            if j > 0 {
                assert(rest[j - 1] == s[j]);
            }
        }
    }
}

proof fn lemma_last_index_unique(s: Seq<char>, c: char, k: int)
    requires
        -1 <= k < s.len(),
        k >= 0 ==> s[k] == c,
        forall|j: int| k < j < s.len() ==> s[j] != c,
    ensures
        last_index_of(s, c) == k,
{
    lemma_last_index_of(s, c);
}

proof fn lemma_first_index_unique(s: Seq<char>, c: char, k: int)
    requires
        0 <= k <= s.len(),
        k < s.len() ==> s[k] == c,
        forall|j: int| 0 <= j < k ==> s[j] != c,
    ensures
        first_index_of(s, c) == k,
{
    lemma_first_index_of(s, c);
}

/// What follows the last `/` of a text; the whole text where it has none.
pub open spec fn after_last_slash(text: Seq<char>) -> Seq<char> {
    text.subrange(last_index_of(text, '/') + 1, text.len() as int)
}

/// The name of a file up to its first `.`.
pub open spec fn stem_of(name: Seq<char>) -> Seq<char> {
    name.subrange(0, first_index_of(name, '.'))
}

fn last_index(s: &str, c: char) -> (r: Option<usize>)
    ensures
        match r {
            Some(k) => k == last_index_of(s@, c),
            None => last_index_of(s@, c) == -1,
        },
{
    let n = s.unicode_len();
    let mut i: usize = n;
    while i > 0
        invariant
            n == s@.len(),
            i <= n,
            forall|j: int| i <= j < n ==> s@[j] != c,
        decreases i,
    {
        if s.get_char(i - 1) == c {
            proof {
                lemma_last_index_unique(s@, c, i - 1);
            }
            return Some(i - 1);
        }
        i = i - 1;
    }
    proof {
        lemma_last_index_unique(s@, c, -1);
    }
    None
}

fn first_index(s: &str, c: char) -> (r: usize)
    ensures
        r == first_index_of(s@, c),
{
    let n = s.unicode_len();
    let mut i: usize = 0;
    while i < n
        invariant
            n == s@.len(),
            i <= n,
            forall|j: int| 0 <= j < i ==> s@[j] != c,
        decreases n - i,
    {
        if s.get_char(i) == c {
            proof {
                lemma_first_index_unique(s@, c, i as int);
            }
            return i;
        }
        i = i + 1;
    }
    proof {
        lemma_first_index_unique(s@, c, n as int);
    }
    n
}

/// Whether `a` is the beginning of `b`.
pub open spec fn is_prefix(a: Seq<char>, b: Seq<char>) -> bool {
    a.len() <= b.len() && b.subrange(0, a.len() as int) == a
}

/// Whether `extension` can be the extension of `path`: it holds no `.` and stands in
/// the path behind a `.`.
pub open spec fn may_be_extension(path: Seq<char>, extension: Seq<char>) -> bool {
    &&& forall|i: int| 0 <= i < extension.len() ==> extension[i] != '.'
    &&& has_substring(path, seq!['.'] + extension)
}

/// Whether `extension` is what is taken for the extension of `path`: an extension that
/// the path can have, or nothing.
pub open spec fn declared_extension(path: Seq<char>, extension: Seq<char>) -> bool {
    extension.len() == 0 || may_be_extension(path, extension)
}

/// What follows the last `/` of `text`.
pub fn last_segment(text: &str) -> (r: String)
    ensures
        r@ == after_last_slash(text@),
{
    let n = text.unicode_len();
    proof {
        lemma_last_index_of(text@, '/');
    }
    match last_index(text, '/') {
        Some(k) => String::from_str(text.substring_char(k + 1, n)),
        None => String::from_str(text.substring_char(0, n)),
    }
}

/// Calls `Path::file_name` of the standard library on `path`: the final component of
/// the path, if it has one. What counts as a component depends on the platform; on
/// every platform the component is a part of the path.
#[verifier::external_body]
pub(crate) fn path_file_name(path: &str) -> (r: Option<String>)
    ensures
        r matches Some(name) ==> has_substring(path@, name@),
{
    match Path::new(path).file_name() {
        Some(name) => match name.to_str() {
            Some(text) => Some(text.to_string()),
            None => None,
        },
        None => None,
    }
}

/// Calls `Path::parent` of the standard library on `path`: the path without its final
/// component, if it has one. What counts as a component depends on the platform; on
/// every platform the parent is a beginning of the path.
#[verifier::external_body]
pub(crate) fn path_parent(path: &str) -> (r: Option<String>)
    ensures
        r matches Some(parent) ==> is_prefix(parent@, path@),
{
    match Path::new(path).parent() {
        Some(parent) => match parent.to_str() {
            Some(text) => Some(text.to_string()),
            None => None,
        },
        None => None,
    }
}

/// Calls `Path::extension` of the standard library on `path`: what follows the final
/// `.` of the final component, if that component has a `.` beyond a leading one. What
/// counts as a component depends on the platform; on every platform the extension
/// holds no `.` and stands in the path behind a `.`.
#[verifier::external_body]
pub(crate) fn path_extension(path: &str) -> (r: Option<String>)
    ensures
        r matches Some(extension) ==> may_be_extension(path@, extension@),
{
    match Path::new(path).extension() {
        Some(extension) => match extension.to_str() {
            Some(text) => Some(text.to_string()),
            None => None,
        },
        None => None,
    }
}

/// The name of a path from its final component: the component itself, or an error
/// for a path that has none.
pub fn name_from(file_name: Option<String>) -> (r: Result<String, Error>)
    ensures
        match file_name {
            Some(name) => r matches Ok(n) && n == name,
            None => r matches Err(Error::Path(text)) && text@ == "Failed to get name"@,
        },
{
    match file_name {
        Some(name) => Ok(name),
        None => Err(Error::Path(String::from_str("Failed to get name"))),
    }
}

/// The name of the file or directory a path ends in, which is a part of the path. A
/// path without a final component gives an error.
pub fn try_name(path: &str) -> (r: Result<String, Error>)
    ensures
        r matches Ok(name) ==> has_substring(path@, name@),
        r is Err ==> (r matches Err(Error::Path(text)) && text@ == "Failed to get name"@),
{
    name_from(path_file_name(path))
}

/// The part of a name before its first `.`.
pub fn stem(name: &str) -> (r: String)
    ensures
        r@ == stem_of(name@),
{
    let dot = first_index(name, '.');
    proof {
        lemma_first_index_of(name@, '.');
    }
    String::from_str(name.substring_char(0, dot))
}

/// The stem of a path from its final component, or an error for a path that has none.
pub fn stem_from(file_name: Option<String>) -> (r: Result<String, Error>)
    ensures
        match file_name {
            Some(name) => r matches Ok(s) && s@ == stem_of(name@),
            None => r matches Err(Error::Path(text)) && text@ == "Failed to get name"@,
        },
{
    match name_from(file_name) {
        Ok(name) => Ok(stem(name.as_str())),
        Err(e) => Err(e),
    }
}

/// The name a path ends in, up to its first `.`: a part of the path that holds no
/// `.`. A path without a final component gives an error.
pub fn try_without_extension(path: &str) -> (r: Result<String, Error>)
    ensures
        r matches Ok(s) ==> has_substring(path@, s@) && forall|i: int|
            0 <= i < s@.len() ==> s@[i] != '.',
        r is Err ==> (r matches Err(Error::Path(text)) && text@ == "Failed to get name"@),
{
    let file_name = path_file_name(path);
    let ghost found = file_name;
    let r = stem_from(file_name);
    proof {
        if r is Ok && found is Some {
            let s = r->Ok_0;
            let name = found->Some_0;
            lemma_first_index_of(name@, '.');
            assert forall|i: int| 0 <= i < s@.len() implies s@[i] != '.' by {
                assert(s@[i] == name@[i]);
            }
            let at = choose|at: int|
                0 <= at && at + name@.len() <= path@.len() && #[trigger] path@.subrange(
                    at,
                    at + name@.len(),
                ) == name@;
            assert(path@.subrange(at, at + s@.len()) =~= s@) by {
                assert forall|i: int| 0 <= i < s@.len() implies path@.subrange(
                    at,
                    at + s@.len(),
                )[i] == s@[i] by {
                    assert(path@.subrange(at, at + name@.len())[i] == name@[i]);
                }
            }
        }
    }
    r
}

/// The parent of a path from what the path is without its final component, or an
/// error for a path that has no parent.
pub fn parent_from(parent: Option<String>) -> (r: Result<String, Error>)
    ensures
        match parent {
            Some(p) => r matches Ok(q) && q == p,
            None => r matches Err(Error::Path(text)) && text@ == "Failed to get parent"@,
        },
{
    match parent {
        Some(p) => Ok(p),
        None => Err(Error::Path(String::from_str("Failed to get parent"))),
    }
}

/// The directory a path lies in, which is a beginning of the path. A path without a
/// parent gives an error.
pub fn try_parent(path: &str) -> (r: Result<String, Error>)
    ensures
        r matches Ok(parent) ==> is_prefix(parent@, path@),
        r is Err ==> (r matches Err(Error::Path(text)) && text@ == "Failed to get parent"@),
{
    parent_from(path_parent(path))
}

/// The extension in lower case, or an error for a path that has none.
pub fn lower_extension_from(extension: Option<String>) -> (r: Result<String, Error>)
    ensures
        match extension {
            Some(ext) => r matches Ok(e) && e@ == lowercase(ext@),
            None => r matches Err(Error::Path(text)) && text@ == "File has no extension"@,
        },
{
    match extension {
        Some(ext) => Ok(to_lowercase(ext.as_str())),
        None => Err(Error::Path(String::from_str("File has no extension"))),
    }
}

/// The extension of a path in lower case: the lower-case form of what stands in the
/// path behind a `.` and holds none. A path without an extension gives an error.
pub fn get_file_extension(path: &str) -> (r: Result<String, Error>)
    ensures
        r matches Ok(lower) ==> exists|extension: Seq<char>|
            #[trigger] may_be_extension(path@, extension) && lower@ == lowercase(extension),
        r is Err ==> (r matches Err(Error::Path(text)) && text@ == "File has no extension"@),
{
    let found = path_extension(path);
    proof {
        if found is Some {
            assert(may_be_extension(path@, found->Some_0@));
        }
    }
    lower_extension_from(found)
}

} // verus!
